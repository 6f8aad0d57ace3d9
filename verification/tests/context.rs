use zkevm_init_state::context::{AssignedValue, Context};
use zkevm_init_state::field::Fe;
use zkevm_init_state::layout::{Column, NativeCell};

#[test]
fn a_new_context_is_empty_and_satisfied() {
    let ctx = Context::new(Fe::from_u64(7));
    assert_eq!(ctx.challenge(), Fe::from_u64(7));
    assert_eq!(ctx.num_cells(), 0);
    assert_eq!(ctx.num_equalities(), 0);
    assert!(ctx.is_satisfied());
    assert_eq!(ctx.first_violation(), None);
    assert!(ctx.copies_hold());
}

#[test]
fn cells_are_numbered_in_the_order_of_assignment() {
    let mut ctx = Context::new(Fe::zero());
    let a = ctx.load_witness(Fe::from_u64(10));
    let b = ctx.load_witness(Fe::from_u64(20));
    assert_eq!(a, AssignedValue { index: 0 });
    assert_eq!(b, AssignedValue { index: 1 });
    assert_eq!(ctx.value(&a), Fe::from_u64(10));
    assert_eq!(ctx.value(&b), Fe::from_u64(20));
    assert_eq!(ctx.num_cells(), 2);
}

#[test]
fn an_equality_between_equal_cells_holds() {
    let mut ctx = Context::new(Fe::zero());
    let a = ctx.load_witness(Fe::from_u64(10));
    let b = ctx.load_witness(Fe::from_u64(10));
    ctx.constrain_equal(&a, &b);
    ctx.constrain_equal(&b, &a);
    ctx.constrain_equal(&a, &a);
    assert_eq!(ctx.num_equalities(), 3);
    assert!(ctx.is_satisfied());
}

#[test]
fn the_first_failing_equality_is_found() {
    let mut ctx = Context::new(Fe::zero());
    let a = ctx.load_witness(Fe::from_u64(10));
    let b = ctx.load_witness(Fe::from_u64(10));
    let c = ctx.load_witness(Fe::from_u64(11));
    ctx.constrain_equal(&a, &b);
    assert_eq!(ctx.first_violation(), None);
    ctx.constrain_equal(&b, &c);
    ctx.constrain_equal(&a, &c);
    assert_eq!(ctx.first_violation(), Some(1));
    assert!(!ctx.is_satisfied());
    // later cells do not mend an earlier failure
    let d = ctx.load_witness(Fe::from_u64(11));
    ctx.constrain_equal(&c, &d);
    assert_eq!(ctx.first_violation(), Some(1));
    assert!(!ctx.is_satisfied());
}

#[test]
fn an_imported_cell_holds_the_value_of_its_native_cell() {
    let mut ctx = Context::new(Fe::zero());
    let native = NativeCell { column: Column { index: 3 }, row: 8, value: Fe::from_u64(42) };
    let first = ctx.load_witness(Fe::from_u64(1));
    let imported = ctx.load_external_assigned(&native);
    assert_eq!(imported.index, first.index + 1);
    assert_eq!(ctx.value(&imported), Fe::from_u64(42));
    assert_eq!(ctx.num_cells(), 2);
    assert_eq!(ctx.num_equalities(), 0);
    assert!(ctx.copies_hold());
    assert!(ctx.is_satisfied());
}

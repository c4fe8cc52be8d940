use re_mini::context::DataContext;
use re_mini::value::Value;

#[test]
fn new_store_is_empty() {
    let ctx = DataContext::new();
    assert_eq!(ctx.get("anything".into()), None);
}

#[test]
fn set_then_get() {
    let mut ctx = DataContext::new();
    ctx.set("Ns.Field".into(), Value::Int(42));
    assert_eq!(ctx.get("Ns.Field".into()), Some(&Value::Int(42)));
    assert_eq!(ctx.get("Ns.Other".into()), None);
}

#[test]
fn set_overwrites_existing_binding() {
    let mut ctx = DataContext::new();
    ctx.set("A".into(), Value::Int(1));
    ctx.set("A".into(), Value::Int(2));
    assert_eq!(ctx.get("A".into()), Some(&Value::Int(2)));
}

#[test]
fn add_behaves_like_set() {
    let mut ctx = DataContext::new();
    ctx.add("A".into(), Value::Int(1));
    assert_eq!(ctx.get("A".into()), Some(&Value::Int(1)));
    ctx.add("A".into(), Value::Int(3));
    assert_eq!(ctx.get("A".into()), Some(&Value::Int(3)));
}

#[test]
fn bindings_are_independent() {
    let mut ctx = DataContext::new();
    ctx.set("A".into(), Value::Int(1));
    ctx.set("B".into(), Value::Int(2));
    ctx.set("A".into(), Value::Int(9));
    assert_eq!(ctx.get("A".into()), Some(&Value::Int(9)));
    assert_eq!(ctx.get("B".into()), Some(&Value::Int(2)));
}

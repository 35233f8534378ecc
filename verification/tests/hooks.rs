use gpux::hooks::runtime::Hooks;
use gpux::hooks::use_form::{FormHelper, FormState};
use std::cell::RefCell;
use std::collections::HashMap;
use std::rc::Rc;

#[test]
fn state_created_then_persisted() {
    let mut h: Hooks<i64> = Hooks::new();
    assert_eq!(h.use_state(10), (10, 0));
    assert_eq!(h.use_state(20), (20, 1));
    h.reset();
    assert_eq!(h.use_state(99), (10, 0));
    assert_eq!(h.use_state(99), (20, 1));
}

#[test]
fn set_state_is_read_back() {
    let mut h: Hooks<i64> = Hooks::new();
    let (_, idx) = h.use_state(1);
    h.set_state(idx, 42);
    h.reset();
    assert_eq!(h.use_state(0), (42, idx));
}

#[test]
fn set_state_at_a_later_slot_is_read_back() {
    let mut h: Hooks<String> = Hooks::new();
    let _ = h.use_state("a".to_string());
    let (_, idx) = h.use_state("b".to_string());
    h.set_state(idx, "z".to_string());
    h.reset();
    assert_eq!(h.use_state("x".to_string()), ("a".to_string(), 0));
    assert_eq!(h.use_state("y".to_string()), ("z".to_string(), idx));
}

#[test]
fn memo_with_missing_stored_deps_recomputes() {
    let mut h: Hooks<i64> = Hooks::new();
    assert_eq!(h.check_memo(None, || 1), 1);
    h.reset();
    assert_eq!(h.check_memo(Some(5), || 2), 2);
}

#[test]
fn effect_runs_on_change_only() {
    let mut h: Hooks<i64> = Hooks::default();
    assert!(h.check_effect(Some(1)));
    h.reset();
    assert!(!h.check_effect(Some(1)));
    h.reset();
    assert!(h.check_effect(Some(2)));
    h.reset();
    assert!(!h.check_effect(Some(2)));
    h.reset();
    assert!(h.check_effect(None));
    h.reset();
    assert!(h.check_effect(Some(2)));
}

#[test]
fn memo_recomputes_on_change_only() {
    let mut h: Hooks<i64> = Hooks::new();
    let calls = Rc::new(RefCell::new(0));
    let c = calls.clone();
    assert_eq!(h.check_memo(Some(1), move || { *c.borrow_mut() += 1; 100 }), 100);
    h.reset();
    let c = calls.clone();
    assert_eq!(h.check_memo(Some(1), move || { *c.borrow_mut() += 1; 200 }), 100);
    assert_eq!(*calls.borrow(), 1);
    h.reset();
    let c = calls.clone();
    assert_eq!(h.check_memo(Some(3), move || { *c.borrow_mut() += 1; 300 }), 300);
    assert_eq!(*calls.borrow(), 2);
    h.reset();
    assert_eq!(h.check_memo(None, || 400), 400);
}

#[test]
fn hooks_are_positional() {
    let mut h: Hooks<String> = Hooks::new();
    h.use_state("a".to_string());
    assert!(h.check_effect(Some("x".to_string())));
    assert_eq!(h.check_memo(Some("d".to_string()), || "m".to_string()), "m");
    h.reset();
    assert_eq!(h.use_state("b".to_string()).0, "a");
    assert!(!h.check_effect(Some("x".to_string())));
    assert_eq!(h.check_memo(Some("d".to_string()), || "n".to_string()), "m");
}

#[test]
fn form_state_starts_clean() {
    let f = FormState::new(5u32);
    assert_eq!(f.values, 5);
    assert!(f.errors.is_empty());
    assert!(!f.is_submitting);
}

#[test]
fn form_helper_validates_on_change() {
    let stored: Rc<RefCell<Option<FormState<String>>>> = Rc::new(RefCell::new(None));
    let sink = stored.clone();
    let helper = FormHelper::new(
        FormState::new(String::new()),
        move |s: FormState<String>| *sink.borrow_mut() = Some(s),
        |v: &String| {
            let mut e = HashMap::new();
            if v.is_empty() {
                e.insert("name".to_string(), "required".to_string());
            }
            e
        },
    );
    assert_eq!(helper.values(), "");
    assert!(!helper.is_submitting());
    assert!(helper.errors().is_empty());
    helper.set_value(|_| "bob".to_string());
    let s = stored.borrow_mut().take().unwrap();
    assert_eq!(s.values, "bob");
    assert!(s.errors.is_empty());
    helper.set_value(|_| String::new());
    let s = stored.borrow_mut().take().unwrap();
    assert_eq!(s.errors.get("name").map(|x| x.as_str()), Some("required"));
    helper.set_submitting(true);
    let s = stored.borrow_mut().take().unwrap();
    assert!(s.is_submitting);
    assert_eq!(s.values, "");
}

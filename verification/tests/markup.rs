use gpux::markup::{
    process_element, AttrValue, ChildStep, ElementStep, MarkupAttr, MarkupChild, Overlay,
};
use gpux::tailwind::{plan_classes, Animation, Palette, Style};

fn palette() -> Palette {
    Palette { entries: vec![("blue-500".to_string(), 0x3b82f6)] }
}

fn attr(key: &str, value: AttrValue) -> MarkupAttr {
    MarkupAttr { key: key.to_string(), value }
}

fn lit(s: &str) -> AttrValue {
    AttrValue::Literal(s.to_string())
}

#[test]
fn element_steps_follow_attribute_order() {
    let attrs = vec![
        attr("on_click", AttrValue::Expr),
        attr("class", lit("flex hover:bg-blue-500")),
        attr("id", AttrValue::Expr),
        attr("disabled", AttrValue::Absent),
        attr("class", AttrValue::Expr),
    ];
    let plan = process_element("div", &attrs, &vec![], &palette());
    assert!(!plan.portal);
    assert_eq!(plan.overlay, None);
    assert_eq!(
        plan.steps,
        vec![
            ElementStep::Id(2),
            ElementStep::Attr(0),
            ElementStep::Classes(1, plan_classes("flex hover:bg-blue-500", &palette())),
        ]
    );
    assert!(plan.animations.is_empty());
}

#[test]
fn active_and_animations_get_an_auto_id_once() {
    let attrs = vec![
        attr("class", lit("active:opacity-50 animate-spin")),
        attr("class", lit("animate-pulse")),
    ];
    let plan = process_element("div", &attrs, &vec![], &palette());
    assert_eq!(
        plan.steps,
        vec![
            ElementStep::AutoId,
            ElementStep::Classes(0, plan_classes("active:opacity-50 animate-spin", &palette())),
            ElementStep::Classes(1, plan_classes("animate-pulse", &palette())),
        ]
    );
    assert_eq!(
        plan.animations,
        vec![Style::Animation(Animation::Spin), Style::Animation(Animation::Pulse)]
    );
}

#[test]
fn explicit_id_suppresses_auto_id() {
    let attrs = vec![attr("class", lit("animate-spin")), attr("id", lit("spinner"))];
    let plan = process_element("div", &attrs, &vec![], &palette());
    assert_eq!(
        plan.steps,
        vec![ElementStep::Id(1), ElementStep::Classes(0, plan_classes("animate-spin", &palette()))]
    );
    assert_eq!(plan.animations, vec![Style::Animation(Animation::Spin)]);
}

#[test]
fn children_skip_blank_text() {
    let children = vec![
        MarkupChild::Text("\n    ".to_string()),
        MarkupChild::Element,
        MarkupChild::Text(" \"Count\" ".to_string()),
        MarkupChild::Other,
        MarkupChild::Block,
    ];
    let plan = process_element("div", &vec![], &children, &palette());
    assert_eq!(
        plan.child_calls,
        vec![
            vec![ChildStep::Node(1)],
            vec![ChildStep::Text("Count".to_string())],
            vec![ChildStep::Node(4)],
        ]
    );
}

#[test]
fn portal_keeps_only_children() {
    let attrs = vec![attr("class", lit("animate-spin")), attr("id", lit("x"))];
    let children = vec![MarkupChild::Element];
    let plan = process_element("Portal", &attrs, &children, &palette());
    assert!(plan.portal);
    assert_eq!(
        plan.overlay,
        Some(Overlay {
            deferred: true,
            absolute: true,
            left: 0,
            top: 0,
            full_width: true,
            full_height: true,
            priority: 999,
        })
    );
    assert!(plan.steps.is_empty());
    assert!(plan.animations.is_empty());
    assert_eq!(plan.child_calls, vec![vec![ChildStep::Node(0)]]);
}

#[test]
fn valueless_id_key_still_counts_as_an_id() {
    let attrs = vec![attr("id", AttrValue::Absent), attr("class", lit("animate-spin"))];
    let plan = process_element("div", &attrs, &vec![], &palette());
    assert_eq!(
        plan.steps,
        vec![ElementStep::Classes(1, plan_classes("animate-spin", &palette()))]
    );
}

#[test]
fn portal_joins_its_children_into_one_call() {
    let children = vec![
        MarkupChild::Text("  ".to_string()),
        MarkupChild::Element,
        MarkupChild::Block,
    ];
    let plan = process_element("Portal", &vec![], &children, &palette());
    assert_eq!(plan.child_calls, vec![vec![ChildStep::Node(1), ChildStep::Node(2)]]);
    let empty = process_element("Portal", &vec![], &vec![MarkupChild::Other], &palette());
    assert_eq!(empty.child_calls, vec![Vec::<ChildStep>::new()]);
}

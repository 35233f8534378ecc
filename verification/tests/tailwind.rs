use gpux::markup::text_node_content;
use gpux::tailwind::{
    animation_spec, breakpoint_min_width, AnimationSpec, AnimationTrack, Easing,
    needs_auto_id, plan_classes, process_tailwind_class, Animation, ColorTarget, ColorValue,
    FontWeight, LengthProperty, Modifier, Palette, Style,
};

fn palette() -> Palette {
    Palette {
        entries: vec![
            ("blue-500".to_string(), 0x3b82f6),
            ("white".to_string(), 0xffffff),
            ("transparent".to_string(), 0),
            ("gray-800".to_string(), 0x1f2937),
        ],
    }
}

fn rule(c: &str) -> (Modifier, Style) {
    process_tailwind_class(c, &palette())
}

fn s(x: &str) -> String {
    x.to_string()
}

#[test]
fn plain_classes_become_methods() {
    assert_eq!(rule("flex"), (Modifier::Base, Style::Method(s("flex"))));
    assert_eq!(rule("flex-col"), (Modifier::Base, Style::Method(s("flex_col"))));
    assert_eq!(rule("w-1/2"), (Modifier::Base, Style::Method(s("w_1_2"))));
    assert_eq!(rule("123abc"), (Modifier::Base, Style::Nothing));
    assert_eq!(rule("hover"), (Modifier::Base, Style::Nothing));
    assert_eq!(rule("é"), (Modifier::Base, Style::Nothing));
}

#[test]
fn keywords() {
    assert_eq!(rule("font-bold"), (Modifier::Base, Style::FontWeight(FontWeight::Bold)));
    assert_eq!(rule("font-light"), (Modifier::Base, Style::FontWeight(FontWeight::Light)));
    assert_eq!(rule("cursor-pointer"), (Modifier::Base, Style::CursorPointer));
    assert_eq!(rule("group"), (Modifier::Base, Style::Group(s("group"))));
    assert_eq!(rule("group/card"), (Modifier::Base, Style::Group(s("card"))));
    assert_eq!(rule("transition"), (Modifier::Base, Style::Nothing));
    assert_eq!(rule("duration-300"), (Modifier::Base, Style::Nothing));
    assert_eq!(rule("overflow-y-scroll"), (Modifier::Base, Style::Nothing));
}

#[test]
fn animations() {
    assert_eq!(rule("animate-pulse"), (Modifier::Animate, Style::Animation(Animation::Pulse)));
    assert_eq!(rule("animate-fade-in"), (Modifier::Animate, Style::Animation(Animation::FadeIn)));
    assert_eq!(rule("animate-unknown"), (Modifier::Base, Style::Nothing));
}

#[test]
fn modifiers() {
    assert_eq!(
        rule("hover:bg-blue-500"),
        (Modifier::Hover, Style::Color(ColorTarget::Background, ColorValue::Rgb(0x3b82f6)))
    );
    assert_eq!(rule("2xl:p-4"), (Modifier::Xxl, Style::Method(s("p_4"))));
    assert_eq!(rule("md:flex-row"), (Modifier::Md, Style::Method(s("flex_row"))));
    assert_eq!(
        rule("group-hover:font-bold"),
        (Modifier::GroupHover(s("group")), Style::FontWeight(FontWeight::Bold))
    );
    assert_eq!(
        rule("group-hover/card:text-white"),
        (Modifier::GroupHover(s("card")), Style::Color(ColorTarget::Text, ColorValue::Rgb(0xffffff)))
    );
    assert_eq!(rule("group-active/x:flex"), (Modifier::GroupActive(s("x")), Style::Method(s("flex"))));
    assert_eq!(rule("unknown:flex"), (Modifier::Base, Style::Method(s("flex"))));
    assert_eq!(rule("hover:animate-ping"), (Modifier::Hover, Style::Animation(Animation::Ping)));
    assert_eq!(rule("sm:md:flex"), (Modifier::Sm, Style::Method(s("flex"))));
}

#[test]
fn arbitrary_lengths() {
    assert_eq!(rule("w-[150px]"), (Modifier::Base, Style::Length(LengthProperty::W, s("150"), false)));
    assert_eq!(rule("text-[32px]"), (Modifier::Base, Style::Length(LengthProperty::TextSize, s("32"), false)));
    assert_eq!(rule("-mt-[4px]"), (Modifier::Base, Style::Length(LengthProperty::Mt, s("4"), true)));
    assert_eq!(rule("max-w-[1.5e2px]"), (Modifier::Base, Style::Length(LengthProperty::MaxW, s("1.5e2"), false)));
    assert_eq!(rule("x-[5px]"), (Modifier::Base, Style::Method(s("x_5px"))));
    assert_eq!(rule("w-[abcpx]"), (Modifier::Base, Style::Method(s("w_abcpx"))));
}

#[test]
fn arbitrary_colors() {
    assert_eq!(
        rule("bg-[#123456]"),
        (Modifier::Base, Style::Color(ColorTarget::Background, ColorValue::Rgb(0x123456)))
    );
    assert_eq!(
        rule("border-[#FFaa00]"),
        (Modifier::Base, Style::Color(ColorTarget::Border, ColorValue::Rgb(0xffaa00)))
    );
    assert_eq!(rule("bg-[#zz]"), (Modifier::Base, Style::Method(s("bg_zz"))));
}

#[test]
fn opacity() {
    assert_eq!(rule("opacity-50"), (Modifier::Base, Style::OpacityPercent(s("50"))));
    assert_eq!(rule("opacity-[0.5]"), (Modifier::Base, Style::Opacity(s("0.5"))));
    assert_eq!(rule("opacity-nan"), (Modifier::Base, Style::OpacityPercent(s("nan"))));
    assert_eq!(rule("opacity-x"), (Modifier::Base, Style::Method(s("opacity_x"))));
}

#[test]
fn palette_colors() {
    assert_eq!(
        rule("text-gray-800"),
        (Modifier::Base, Style::Color(ColorTarget::Text, ColorValue::Rgb(0x1f2937)))
    );
    assert_eq!(
        rule("text-blue-500/50"),
        (Modifier::Base, Style::Color(ColorTarget::Text, ColorValue::RgbPercentAlpha(0x3b82f6, s("50"))))
    );
    assert_eq!(
        rule("bg-white/abc"),
        (Modifier::Base, Style::Color(ColorTarget::Background, ColorValue::Rgb(0xffffff)))
    );
    assert_eq!(
        rule("bg-transparent"),
        (Modifier::Base, Style::Color(ColorTarget::Background, ColorValue::Rgba(0)))
    );
    assert_eq!(rule("bg-red-500"), (Modifier::Base, Style::Method(s("bg_red_500"))));
    assert_eq!(rule("border"), (Modifier::Base, Style::Method(s("border"))));
}

#[test]
fn class_plan_groups_by_modifier() {
    let plan = plan_classes(
        "flex hover:bg-white md:p-4 focus:flex active:flex  hover:font-bold md:p-2 group-hover:flex animate-pulse\tp-1",
        &palette(),
    );
    assert_eq!(plan.base, vec![Style::Method(s("flex")), Style::Method(s("p_1"))]);
    assert_eq!(
        plan.hover,
        vec![
            Style::Color(ColorTarget::Background, ColorValue::Rgb(0xffffff)),
            Style::FontWeight(FontWeight::Bold)
        ]
    );
    assert_eq!(plan.focus, vec![Style::Method(s("flex"))]);
    assert_eq!(plan.active, vec![Style::Method(s("flex"))]);
    assert_eq!(plan.groups.len(), 3);
    assert_eq!(plan.groups[0], (Modifier::Md, vec![Style::Method(s("p_4")), Style::Method(s("p_2"))]));
    assert_eq!(plan.groups[1], (Modifier::GroupHover(s("group")), vec![Style::Method(s("flex"))]));
    assert_eq!(plan.groups[2], (Modifier::Animate, vec![Style::Animation(Animation::Pulse)]));
}

#[test]
fn empty_class_plan() {
    let plan = plan_classes("   ", &palette());
    assert!(plan.base.is_empty() && plan.hover.is_empty() && plan.groups.is_empty());
}

#[test]
fn auto_id() {
    assert!(needs_auto_id("bg-white active:bg-blue-500", false));
    assert!(needs_auto_id("animate-pulse", false));
    assert!(!needs_auto_id("animate-pulse", true));
    assert!(!needs_auto_id("hover:flex", false));
}

#[test]
fn markup_text() {
    assert_eq!(text_node_content("  \"Hello\"  ").as_deref(), Some("Hello"));
    assert_eq!(text_node_content("\n\t  "), None);
    assert_eq!(text_node_content("\"\""), None);
    assert_eq!(text_node_content("a \" b").as_deref(), Some("a \" b"));
}

#[test]
fn breakpoint_widths() {
    assert_eq!(breakpoint_min_width(&Modifier::Sm), Some(640));
    assert_eq!(breakpoint_min_width(&Modifier::Md), Some(768));
    assert_eq!(breakpoint_min_width(&Modifier::Lg), Some(1024));
    assert_eq!(breakpoint_min_width(&Modifier::Xl), Some(1280));
    assert_eq!(breakpoint_min_width(&Modifier::Xxl), Some(1536));
    assert_eq!(breakpoint_min_width(&Modifier::Hover), None);
    assert_eq!(breakpoint_min_width(&Modifier::GroupHover(s("card"))), None);
    assert_eq!(rule("2xl:flex").0, Modifier::Xxl);
}

#[test]
fn animation_specs() {
    let spec = |a| animation_spec(a);
    assert_eq!(
        spec(Animation::Pulse),
        AnimationSpec { duration_ms: 2000, repeats: true, easing: Easing::PulsatingHalfToFull, track: AnimationTrack::OpacityIn }
    );
    assert_eq!(
        spec(Animation::Bounce),
        AnimationSpec { duration_ms: 1000, repeats: true, easing: Easing::BounceLinear, track: AnimationTrack::TopBounce }
    );
    assert_eq!(
        spec(Animation::Ping),
        AnimationSpec { duration_ms: 1000, repeats: true, easing: Easing::Linear, track: AnimationTrack::OpacityOut }
    );
    assert_eq!(
        spec(Animation::FadeIn),
        AnimationSpec { duration_ms: 500, repeats: false, easing: Easing::Linear, track: AnimationTrack::OpacityIn }
    );
    assert_eq!(spec(Animation::Spin).track, AnimationTrack::Still);
    assert_eq!(spec(Animation::SlideIn).track, AnimationTrack::LeftSlideIn);
    assert_eq!(spec(Animation::SlideUp).track, AnimationTrack::TopSlideUp);
    assert_eq!(spec(Animation::Wiggle).track, AnimationTrack::LeftWiggle);
    assert!(!spec(Animation::SlideUp).repeats && spec(Animation::Scale).repeats);
}

//! The Tailwind class compiler behind the `view!` macro: every utility
//! class of a `class="..."` attribute becomes a modifier (base, hover,
//! responsive breakpoint, ...) and a style to apply.
//!
//! Numbers are kept as the text that was accepted by the `f32` grammar; the
//! code that emits the style converts them.

use vstd::prelude::*;
use crate::text::{
    chars_of, string_of, slice_chars, has_prefix, has_suffix, find_char, starts_with_str,
    ends_with_str, eq_str, position_of, eq_chars, find_seq, find_str,
    words, split_words, contains_seq, contains_str, is_first_index, lemma_find_char,
    occurs_at, is_first_occurrence,
};
use crate::numbers::{is_float_text, is_float_chars, parse_unsigned, parse_unsigned_chars, is_digit, all_digits, strip_sign};

verus! {

/// When a style applies.
#[derive(Debug, PartialEq, Eq)]
pub enum Modifier {
    Base,
    Hover,
    Focus,
    Active,
    GroupHover(String),
    GroupActive(String),
    Animate,
    Sm,
    Md,
    Lg,
    Xl,
    Xxl,
}

pub enum ModifierView {
    Base,
    Hover,
    Focus,
    Active,
    GroupHover(Seq<char>),
    GroupActive(Seq<char>),
    Animate,
    Sm,
    Md,
    Lg,
    Xl,
    Xxl,
}

impl View for Modifier {
    type V = ModifierView;

    open spec fn view(&self) -> ModifierView {
        match self {
            Modifier::Base => ModifierView::Base,
            Modifier::Hover => ModifierView::Hover,
            Modifier::Focus => ModifierView::Focus,
            Modifier::Active => ModifierView::Active,
            Modifier::GroupHover(n) => ModifierView::GroupHover(n@),
            Modifier::GroupActive(n) => ModifierView::GroupActive(n@),
            Modifier::Animate => ModifierView::Animate,
            Modifier::Sm => ModifierView::Sm,
            Modifier::Md => ModifierView::Md,
            Modifier::Lg => ModifierView::Lg,
            Modifier::Xl => ModifierView::Xl,
            Modifier::Xxl => ModifierView::Xxl,
        }
    }
}

#[derive(PartialEq, Eq, Structural, Clone, Copy, Debug)]
pub enum FontWeight {
    Bold,
    Semibold,
    Normal,
    Light,
}

#[derive(PartialEq, Eq, Structural, Clone, Copy, Debug)]
pub enum Animation {
    Pulse,
    Bounce,
    Ping,
    Spin,
    Scale,
    FadeIn,
    SlideIn,
    SlideUp,
    Wiggle,
}

/// How an animation's progress `t` (0 to 1 over its duration) moves its
/// element.
#[derive(PartialEq, Eq, Structural, Clone, Copy, Debug)]
pub enum AnimationTrack {
    /// Opacity `t`.
    OpacityIn,
    /// Opacity `1 - t`.
    OpacityOut,
    /// Top offset `-10·t` px.
    TopBounce,
    /// Left offset `-50·(1 - t)` px.
    LeftSlideIn,
    /// Top offset `50·(1 - t)` px.
    TopSlideUp,
    /// Left offset `10·sin(4π·t)` px.
    LeftWiggle,
    /// Nothing moves (rotation and scaling are not drawn).
    Still,
}

/// How progress runs over time.
#[derive(PartialEq, Eq, Structural, Clone, Copy, Debug)]
pub enum Easing {
    Linear,
    /// Back and forth between 0.5 and 1.
    PulsatingHalfToFull,
    /// Linear, played forward then backward.
    BounceLinear,
}

/// The timing and effect of an animation class.
#[derive(PartialEq, Eq, Structural, Clone, Copy, Debug)]
pub struct AnimationSpec {
    pub duration_ms: u64,
    pub repeats: bool,
    pub easing: Easing,
    pub track: AnimationTrack,
}

/// The timing and effect of each animation.
pub open spec fn animation_spec_of(a: Animation) -> AnimationSpec {
    match a {
        Animation::Pulse => AnimationSpec {
            duration_ms: 2000, repeats: true, easing: Easing::PulsatingHalfToFull, track: AnimationTrack::OpacityIn,
        },
        Animation::Bounce => AnimationSpec {
            duration_ms: 1000, repeats: true, easing: Easing::BounceLinear, track: AnimationTrack::TopBounce,
        },
        Animation::Ping => AnimationSpec {
            duration_ms: 1000, repeats: true, easing: Easing::Linear, track: AnimationTrack::OpacityOut,
        },
        Animation::Spin => AnimationSpec {
            duration_ms: 1000, repeats: true, easing: Easing::Linear, track: AnimationTrack::Still,
        },
        Animation::Scale => AnimationSpec {
            duration_ms: 1000, repeats: true, easing: Easing::Linear, track: AnimationTrack::Still,
        },
        Animation::FadeIn => AnimationSpec {
            duration_ms: 500, repeats: false, easing: Easing::Linear, track: AnimationTrack::OpacityIn,
        },
        Animation::SlideIn => AnimationSpec {
            duration_ms: 500, repeats: false, easing: Easing::Linear, track: AnimationTrack::LeftSlideIn,
        },
        Animation::SlideUp => AnimationSpec {
            duration_ms: 500, repeats: false, easing: Easing::Linear, track: AnimationTrack::TopSlideUp,
        },
        Animation::Wiggle => AnimationSpec {
            duration_ms: 1000, repeats: true, easing: Easing::Linear, track: AnimationTrack::LeftWiggle,
        },
    }
}

/// The timing and effect of an animation class.
pub fn animation_spec(a: Animation) -> (r: AnimationSpec)
    ensures
        r == animation_spec_of(a),
{
    match a {
        Animation::Pulse => AnimationSpec {
            duration_ms: 2000, repeats: true, easing: Easing::PulsatingHalfToFull, track: AnimationTrack::OpacityIn,
        },
        Animation::Bounce => AnimationSpec {
            duration_ms: 1000, repeats: true, easing: Easing::BounceLinear, track: AnimationTrack::TopBounce,
        },
        Animation::Ping => AnimationSpec {
            duration_ms: 1000, repeats: true, easing: Easing::Linear, track: AnimationTrack::OpacityOut,
        },
        Animation::Spin => AnimationSpec {
            duration_ms: 1000, repeats: true, easing: Easing::Linear, track: AnimationTrack::Still,
        },
        Animation::Scale => AnimationSpec {
            duration_ms: 1000, repeats: true, easing: Easing::Linear, track: AnimationTrack::Still,
        },
        Animation::FadeIn => AnimationSpec {
            duration_ms: 500, repeats: false, easing: Easing::Linear, track: AnimationTrack::OpacityIn,
        },
        Animation::SlideIn => AnimationSpec {
            duration_ms: 500, repeats: false, easing: Easing::Linear, track: AnimationTrack::LeftSlideIn,
        },
        Animation::SlideUp => AnimationSpec {
            duration_ms: 500, repeats: false, easing: Easing::Linear, track: AnimationTrack::TopSlideUp,
        },
        Animation::Wiggle => AnimationSpec {
            duration_ms: 1000, repeats: true, easing: Easing::Linear, track: AnimationTrack::LeftWiggle,
        },
    }
}

/// The style properties that take an arbitrary pixel length (`w-[12px]`).
#[derive(PartialEq, Eq, Structural, Clone, Copy, Debug)]
pub enum LengthProperty {
    W,
    H,
    P,
    Px,
    Py,
    M,
    Mt,
    Mb,
    Ml,
    Mr,
    Mx,
    My,
    Gap,
    TextSize,
    Rounded,
    MaxW,
    MaxH,
    MinW,
    MinH,
    Top,
    Bottom,
    Left,
    Right,
    Inset,
}

#[derive(PartialEq, Eq, Structural, Clone, Copy, Debug)]
pub enum ColorTarget {
    Background,
    Text,
    Border,
}

#[derive(Debug, PartialEq, Eq)]
pub enum ColorValue {
    /// `0xRRGGBB`, opaque.
    Rgb(u32),
    /// `0xRRGGBBAA`.
    Rgba(u32),
    /// `0xRRGGBB` with an alpha given in percent (the accepted number text).
    RgbPercentAlpha(u32, String),
}

pub enum ColorValueView {
    Rgb(u32),
    Rgba(u32),
    RgbPercentAlpha(u32, Seq<char>),
}

impl View for ColorValue {
    type V = ColorValueView;

    open spec fn view(&self) -> ColorValueView {
        match self {
            ColorValue::Rgb(h) => ColorValueView::Rgb(*h),
            ColorValue::Rgba(h) => ColorValueView::Rgba(*h),
            ColorValue::RgbPercentAlpha(h, a) => ColorValueView::RgbPercentAlpha(*h, a@),
        }
    }
}

/// What a class does to the element.
#[derive(Debug, PartialEq, Eq)]
pub enum Style {
    /// Recognised, but emits nothing.
    Nothing,
    /// Names the element's group (`group`, `group/name`).
    Group(String),
    FontWeight(FontWeight),
    CursorPointer,
    Animation(Animation),
    /// `opacity-N`: opacity N / 100.
    OpacityPercent(String),
    /// `opacity-[x]`: opacity x.
    Opacity(String),
    /// A pixel length (the number text) and whether it is negated.
    Length(LengthProperty, String, bool),
    Color(ColorTarget, ColorValue),
    /// A style method named after the class.
    Method(String),
}

pub enum StyleView {
    Nothing,
    Group(Seq<char>),
    FontWeight(FontWeight),
    CursorPointer,
    Animation(Animation),
    OpacityPercent(Seq<char>),
    Opacity(Seq<char>),
    Length(LengthProperty, Seq<char>, bool),
    Color(ColorTarget, ColorValueView),
    Method(Seq<char>),
}

impl View for Style {
    type V = StyleView;

    open spec fn view(&self) -> StyleView {
        match self {
            Style::Nothing => StyleView::Nothing,
            Style::Group(n) => StyleView::Group(n@),
            Style::FontWeight(w) => StyleView::FontWeight(*w),
            Style::CursorPointer => StyleView::CursorPointer,
            Style::Animation(a) => StyleView::Animation(*a),
            Style::OpacityPercent(t) => StyleView::OpacityPercent(t@),
            Style::Opacity(t) => StyleView::Opacity(t@),
            Style::Length(p, t, n) => StyleView::Length(*p, t@, *n),
            Style::Color(t, v) => StyleView::Color(*t, v@),
            Style::Method(m) => StyleView::Method(m@),
        }
    }
}

/// Named colours and their `0xRRGGBB` values (`blue-500`, `white`, ...).
pub struct Palette {
    pub entries: Vec<(String, u32)>,
}

impl View for Palette {
    type V = Seq<(Seq<char>, u32)>;

    open spec fn view(&self) -> Seq<(Seq<char>, u32)> {
        self.entries@.map_values(|e: (String, u32)| (e.0@, e.1))
    }
}

/// The value of the first palette entry named `name`.
pub open spec fn palette_lookup(entries: Seq<(Seq<char>, u32)>, name: Seq<char>) -> Option<u32>
    decreases entries.len(),
{
    if entries.len() == 0 {
        None
    } else if entries[0].0 == name {
        Some(entries[0].1)
    } else {
        palette_lookup(entries.skip(1), name)
    }
}

impl Palette {
    /// The value of the first entry named `name`.
    pub fn lookup(&self, name: &[char]) -> (r: Option<u32>)
        ensures
            r == palette_lookup(self@, name@),
    {
        let mut i: usize = 0;
        assert(self@.skip(0) =~= self@);
        while i < self.entries.len()
            invariant
                i <= self.entries@.len(),
                palette_lookup(self@, name@) == palette_lookup(self@.skip(i as int), name@),
            decreases self.entries@.len() - i,
        {
            let entry = chars_of(self.entries[i].0.as_str());
            assert(self@.skip(i as int)[0] == self@[i as int]);
            if eq_chars(&entry, name) {
                return Some(self.entries[i].1);
            }
            assert(self@.skip(i as int).skip(1) =~= self@.skip(i + 1));
            i += 1;
        }
        assert(self@.skip(i as int).len() == 0);
        None
    }
}

/// The group a `group-hover[/name]` modifier refers to.
pub open spec fn group_name(m: Seq<char>) -> Seq<char> {
    match find_char(m, '/') {
        Some(i) => m.skip(i + 1),
        None => "group"@,
    }
}

/// The modifier written before `:`; unknown modifiers mean the base style.
pub open spec fn modifier_of(m: Seq<char>) -> ModifierView {
    if has_prefix(m, "group-hover"@) {
        ModifierView::GroupHover(group_name(m))
    } else if has_prefix(m, "group-active"@) {
        ModifierView::GroupActive(group_name(m))
    } else if m == "hover"@ {
        ModifierView::Hover
    } else if m == "focus"@ {
        ModifierView::Focus
    } else if m == "active"@ {
        ModifierView::Active
    } else if m == "sm"@ {
        ModifierView::Sm
    } else if m == "md"@ {
        ModifierView::Md
    } else if m == "lg"@ {
        ModifierView::Lg
    } else if m == "xl"@ {
        ModifierView::Xl
    } else if m == "2xl"@ {
        ModifierView::Xxl
    } else {
        ModifierView::Base
    }
}

fn group_name_of(m: &[char]) -> (r: String)
    ensures
        r@ == group_name(m@),
{
    let n = m.len();
    match position_of(m, '/') {
        Some(i) => string_of(&slice_chars(m, i + 1, n)),
        None => {
            let r = String::from_str("group");
            r
        },
    }
}

pub fn compile_modifier(m: &[char]) -> (r: Modifier)
    ensures
        r@ == modifier_of(m@),
{
    if starts_with_str(m, "group-hover") {
        Modifier::GroupHover(group_name_of(m))
    } else if starts_with_str(m, "group-active") {
        Modifier::GroupActive(group_name_of(m))
    } else if eq_str(m, "hover") {
        Modifier::Hover
    } else if eq_str(m, "focus") {
        Modifier::Focus
    } else if eq_str(m, "active") {
        Modifier::Active
    } else if eq_str(m, "sm") {
        Modifier::Sm
    } else if eq_str(m, "md") {
        Modifier::Md
    } else if eq_str(m, "lg") {
        Modifier::Lg
    } else if eq_str(m, "xl") {
        Modifier::Xl
    } else if eq_str(m, "2xl") {
        Modifier::Xxl
    } else {
        Modifier::Base
    }
}

/// Classes recognised by name: groups, font weights, the pointer cursor,
/// animations (the `bool` marks an animation), and classes that emit
/// nothing (transitions, scrolling, timing).
pub open spec fn keyword_rule(c: Seq<char>) -> Option<(bool, StyleView)> {
    if c == "group"@ {
        Some((false, StyleView::Group("group"@)))
    } else if has_prefix(c, "group/"@) {
        Some((false, StyleView::Group(c.skip(6))))
    } else if c == "font-bold"@ {
        Some((false, StyleView::FontWeight(FontWeight::Bold)))
    } else if c == "font-semibold"@ {
        Some((false, StyleView::FontWeight(FontWeight::Semibold)))
    } else if c == "font-normal"@ {
        Some((false, StyleView::FontWeight(FontWeight::Normal)))
    } else if c == "font-light"@ {
        Some((false, StyleView::FontWeight(FontWeight::Light)))
    } else if c == "cursor-pointer"@ {
        Some((false, StyleView::CursorPointer))
    } else if c == "animate-pulse"@ {
        Some((true, StyleView::Animation(Animation::Pulse)))
    } else if c == "animate-bounce"@ {
        Some((true, StyleView::Animation(Animation::Bounce)))
    } else if c == "animate-ping"@ {
        Some((true, StyleView::Animation(Animation::Ping)))
    } else if c == "animate-spin"@ {
        Some((true, StyleView::Animation(Animation::Spin)))
    } else if c == "animate-scale"@ {
        Some((true, StyleView::Animation(Animation::Scale)))
    } else if c == "animate-fade-in"@ {
        Some((true, StyleView::Animation(Animation::FadeIn)))
    } else if c == "animate-slide-in"@ {
        Some((true, StyleView::Animation(Animation::SlideIn)))
    } else if c == "animate-slide-up"@ {
        Some((true, StyleView::Animation(Animation::SlideUp)))
    } else if c == "animate-wiggle"@ {
        Some((true, StyleView::Animation(Animation::Wiggle)))
    } else if c == "transition"@ || c == "overflow-y-scroll"@ || c == "overflow-scroll"@
        || c == "overflow-x-scroll"@ {
        Some((false, StyleView::Nothing))
    } else if has_prefix(c, "duration-"@) || has_prefix(c, "ease-"@) || has_prefix(c, "delay-"@)
        || has_prefix(c, "transition-"@) || has_prefix(c, "animate-"@) {
        Some((false, StyleView::Nothing))
    } else {
        None
    }
}

fn animation(a: Animation) -> (r: Option<(bool, Style)>)
    ensures
        r matches Some(p) && p.0 && p.1@ == StyleView::Animation(a),
{
    Some((true, Style::Animation(a)))
}

fn keyword_style(c: &[char]) -> (r: Option<(bool, Style)>)
    ensures
        match r {
            Some(p) => keyword_rule(c@) == Some((p.0, p.1@)),
            None => keyword_rule(c@) is None,
        },
{
    if eq_str(c, "group") {
        Some((false, Style::Group(String::from_str("group"))))
    } else if starts_with_str(c, "group/") {
        proof {
            reveal_strlit("group/");
        }
        Some((false, Style::Group(string_of(&slice_chars(c, 6, c.len())))))
    } else if eq_str(c, "font-bold") {
        Some((false, Style::FontWeight(FontWeight::Bold)))
    } else if eq_str(c, "font-semibold") {
        Some((false, Style::FontWeight(FontWeight::Semibold)))
    } else if eq_str(c, "font-normal") {
        Some((false, Style::FontWeight(FontWeight::Normal)))
    } else if eq_str(c, "font-light") {
        Some((false, Style::FontWeight(FontWeight::Light)))
    } else if eq_str(c, "cursor-pointer") {
        Some((false, Style::CursorPointer))
    } else if eq_str(c, "animate-pulse") {
        animation(Animation::Pulse)
    } else if eq_str(c, "animate-bounce") {
        animation(Animation::Bounce)
    } else if eq_str(c, "animate-ping") {
        animation(Animation::Ping)
    } else if eq_str(c, "animate-spin") {
        animation(Animation::Spin)
    } else if eq_str(c, "animate-scale") {
        animation(Animation::Scale)
    } else if eq_str(c, "animate-fade-in") {
        animation(Animation::FadeIn)
    } else if eq_str(c, "animate-slide-in") {
        animation(Animation::SlideIn)
    } else if eq_str(c, "animate-slide-up") {
        animation(Animation::SlideUp)
    } else if eq_str(c, "animate-wiggle") {
        animation(Animation::Wiggle)
    } else if eq_str(c, "transition") || eq_str(c, "overflow-y-scroll") || eq_str(
        c,
        "overflow-scroll",
    ) || eq_str(c, "overflow-x-scroll") {
        Some((false, Style::Nothing))
    } else if starts_with_str(c, "duration-") || starts_with_str(c, "ease-") || starts_with_str(
        c,
        "delay-",
    ) || starts_with_str(c, "transition-") || starts_with_str(c, "animate-") {
        Some((false, Style::Nothing))
    } else {
        None
    }
}

/// The property an arbitrary length prefix (`w-`, `max-h-`, ...) sets.
pub open spec fn length_property(p: Seq<char>) -> Option<LengthProperty> {
    if p == "w-"@ {
        Some(LengthProperty::W)
    } else if p == "h-"@ {
        Some(LengthProperty::H)
    } else if p == "p-"@ {
        Some(LengthProperty::P)
    } else if p == "px-"@ {
        Some(LengthProperty::Px)
    } else if p == "py-"@ {
        Some(LengthProperty::Py)
    } else if p == "m-"@ {
        Some(LengthProperty::M)
    } else if p == "mt-"@ {
        Some(LengthProperty::Mt)
    } else if p == "mb-"@ {
        Some(LengthProperty::Mb)
    } else if p == "ml-"@ {
        Some(LengthProperty::Ml)
    } else if p == "mr-"@ {
        Some(LengthProperty::Mr)
    } else if p == "mx-"@ {
        Some(LengthProperty::Mx)
    } else if p == "my-"@ {
        Some(LengthProperty::My)
    } else if p == "gap-"@ {
        Some(LengthProperty::Gap)
    } else if p == "text-"@ {
        Some(LengthProperty::TextSize)
    } else if p == "rounded-"@ {
        Some(LengthProperty::Rounded)
    } else if p == "max-w-"@ {
        Some(LengthProperty::MaxW)
    } else if p == "max-h-"@ {
        Some(LengthProperty::MaxH)
    } else if p == "min-w-"@ {
        Some(LengthProperty::MinW)
    } else if p == "min-h-"@ {
        Some(LengthProperty::MinH)
    } else if p == "top-"@ {
        Some(LengthProperty::Top)
    } else if p == "bottom-"@ {
        Some(LengthProperty::Bottom)
    } else if p == "left-"@ {
        Some(LengthProperty::Left)
    } else if p == "right-"@ {
        Some(LengthProperty::Right)
    } else if p == "inset-"@ {
        Some(LengthProperty::Inset)
    } else {
        None
    }
}

fn length_property_of(p: &[char]) -> (r: Option<LengthProperty>)
    ensures
        r == length_property(p@),
{
    if eq_str(p, "w-") {
        Some(LengthProperty::W)
    } else if eq_str(p, "h-") {
        Some(LengthProperty::H)
    } else if eq_str(p, "p-") {
        Some(LengthProperty::P)
    } else if eq_str(p, "px-") {
        Some(LengthProperty::Px)
    } else if eq_str(p, "py-") {
        Some(LengthProperty::Py)
    } else if eq_str(p, "m-") {
        Some(LengthProperty::M)
    } else if eq_str(p, "mt-") {
        Some(LengthProperty::Mt)
    } else if eq_str(p, "mb-") {
        Some(LengthProperty::Mb)
    } else if eq_str(p, "ml-") {
        Some(LengthProperty::Ml)
    } else if eq_str(p, "mr-") {
        Some(LengthProperty::Mr)
    } else if eq_str(p, "mx-") {
        Some(LengthProperty::Mx)
    } else if eq_str(p, "my-") {
        Some(LengthProperty::My)
    } else if eq_str(p, "gap-") {
        Some(LengthProperty::Gap)
    } else if eq_str(p, "text-") {
        Some(LengthProperty::TextSize)
    } else if eq_str(p, "rounded-") {
        Some(LengthProperty::Rounded)
    } else if eq_str(p, "max-w-") {
        Some(LengthProperty::MaxW)
    } else if eq_str(p, "max-h-") {
        Some(LengthProperty::MaxH)
    } else if eq_str(p, "min-w-") {
        Some(LengthProperty::MinW)
    } else if eq_str(p, "min-h-") {
        Some(LengthProperty::MinH)
    } else if eq_str(p, "top-") {
        Some(LengthProperty::Top)
    } else if eq_str(p, "bottom-") {
        Some(LengthProperty::Bottom)
    } else if eq_str(p, "left-") {
        Some(LengthProperty::Left)
    } else if eq_str(p, "right-") {
        Some(LengthProperty::Right)
    } else if eq_str(p, "inset-") {
        Some(LengthProperty::Inset)
    } else {
        None
    }
}

/// What an arbitrary colour prefix (`bg-`, `text-`, `border-`) colours.
pub open spec fn color_target(p: Seq<char>) -> Option<ColorTarget> {
    if p == "bg-"@ {
        Some(ColorTarget::Background)
    } else if p == "text-"@ {
        Some(ColorTarget::Text)
    } else if p == "border-"@ {
        Some(ColorTarget::Border)
    } else {
        None
    }
}

fn color_target_of(p: &[char]) -> (r: Option<ColorTarget>)
    ensures
        r == color_target(p@),
{
    if eq_str(p, "bg-") {
        Some(ColorTarget::Background)
    } else if eq_str(p, "text-") {
        Some(ColorTarget::Text)
    } else if eq_str(p, "border-") {
        Some(ColorTarget::Border)
    } else {
        None
    }
}

/// For a class ending in `]`: where its first `-[` starts, and the text
/// between that `-[` and the final `]`.
pub open spec fn bracket_value(c: Seq<char>) -> Option<(int, Seq<char>)> {
    match find_seq(c, "-["@) {
        Some(i) => if has_suffix(c, "]"@) {
            Some((i, c.subrange(i + 2, c.len() - 1)))
        } else {
            None
        },
        None => None,
    }
}

fn bracket_value_of(c: &[char]) -> (r: Option<(usize, Vec<char>)>)
    ensures
        match r {
            Some(p) => bracket_value(c@) == Some((p.0 as int, p.1@)) && p.0 + 2 <= c@.len() - 1,
            None => bracket_value(c@) is None,
        },
{
    match find_str(c, "-[") {
        Some(i) => if ends_with_str(c, "]") {
            proof {
                reveal_strlit("-[");
                reveal_strlit("]");
                assert(c@.skip(i as int).take(2)[1] == c@[i + 1]);
                assert(c@.skip(c@.len() - 1)[0] == c@[c@.len() - 1]);
            }
            let n = c.len();
            Some((i, slice_chars(c, i + 2, n - 1)))
        } else {
            None
        },
        None => None,
    }
}

/// `opacity-N` (N in percent) and `opacity-[x]`.
pub open spec fn opacity_rule(c: Seq<char>) -> Option<StyleView> {
    if has_prefix(c, "opacity-"@) {
        if is_float_text(c.skip(8)) {
            Some(StyleView::OpacityPercent(c.skip(8)))
        } else {
            match bracket_value(c) {
                Some(b) => if is_float_text(b.1) {
                    Some(StyleView::Opacity(b.1))
                } else {
                    None
                },
                None => None,
            }
        }
    } else {
        None
    }
}

fn opacity_style(c: &[char]) -> (r: Option<Style>)
    ensures
        match r {
            Some(st) => opacity_rule(c@) == Some(st@),
            None => opacity_rule(c@) is None,
        },
{
    if !starts_with_str(c, "opacity-") {
        return None;
    }
    proof {
        reveal_strlit("opacity-");
    }
    let rest = slice_chars(c, 8, c.len());
    assert(rest@ == c@.skip(8));
    if is_float_chars(&rest) {
        return Some(Style::OpacityPercent(string_of(&rest)));
    }
    match bracket_value_of(c) {
        Some((_, v)) => if is_float_chars(&v) {
            Some(Style::Opacity(string_of(&v)))
        } else {
            None
        },
        None => None,
    }
}

/// Arbitrary values: `prefix-[Npx]` lengths (a leading `-` negates them)
/// and `prefix-[#hex]` colours.
pub open spec fn arbitrary_rule(c: Seq<char>) -> Option<StyleView> {
    match bracket_value(c) {
        Some(b) => {
            let (i, v) = b;
            let negative = c.len() > 0 && c[0] == '-';
            let prefix = if negative { c.subrange(1, i + 1) } else { c.take(i + 1) };
            if has_suffix(v, "px"@) {
                let num = v.take(v.len() - 2);
                if is_float_text(num) {
                    match length_property(prefix) {
                        Some(p) => Some(StyleView::Length(p, num, negative)),
                        None => None,
                    }
                } else {
                    None
                }
            } else if has_prefix(v, "#"@) {
                match parse_unsigned(v.skip(1), 16, 0xffff_ffff) {
                    Some(h) => match color_target(prefix) {
                        Some(t) => Some(StyleView::Color(t, ColorValueView::Rgb(h as u32))),
                        None => None,
                    },
                    None => None,
                }
            } else {
                None
            }
        },
        None => None,
    }
}

fn arbitrary_style(c: &[char]) -> (r: Option<Style>)
    ensures
        match r {
            Some(st) => arbitrary_rule(c@) == Some(st@),
            None => arbitrary_rule(c@) is None,
        },
{
    let (i, v) = match bracket_value_of(c) {
        Some(b) => b,
        None => return None,
    };
    let negative = c.len() > 0 && c[0] == '-';
    let prefix = if negative { slice_chars(c, 1, i + 1) } else { slice_chars(c, 0, i + 1) };
    if ends_with_str(&v, "px") {
        proof {
            reveal_strlit("px");
        }
        let num = slice_chars(&v, 0, v.len() - 2);
        if !is_float_chars(&num) {
            return None;
        }
        match length_property_of(&prefix) {
            Some(p) => Some(Style::Length(p, string_of(&num), negative)),
            None => None,
        }
    } else if starts_with_str(&v, "#") {
        proof {
            reveal_strlit("#");
        }
        let digits = slice_chars(&v, 1, v.len());
        assert(digits@ == v@.skip(1));
        match parse_unsigned_chars(&digits, 16, 0xffff_ffff) {
            Some(h) => match color_target_of(&prefix) {
                Some(t) => Some(Style::Color(t, ColorValue::Rgb(h as u32))),
                None => None,
            },
            None => None,
        }
    } else {
        None
    }
}

pub open spec fn is_color_class(c: Seq<char>) -> bool {
    has_prefix(c, "bg-"@) || has_prefix(c, "text-"@) || has_prefix(c, "border-"@)
}

/// A colour class split at its first `/` into the colour and the alpha
/// percentage (kept only when it is a number).
pub open spec fn split_alpha(c: Seq<char>) -> (Seq<char>, Option<Seq<char>>) {
    if is_color_class(c) {
        match find_char(c, '/') {
            Some(i) => (c.take(i), if is_float_text(c.skip(i + 1)) {
                Some(c.skip(i + 1))
            } else {
                None
            }),
            None => (c, None),
        }
    } else {
        (c, None)
    }
}

/// `bg-NAME`, `text-NAME` or `border-NAME` with `NAME` in the palette.
pub open spec fn named_color(base: Seq<char>, palette: Seq<(Seq<char>, u32)>) -> Option<(ColorTarget, u32)> {
    if has_prefix(base, "bg-"@) && palette_lookup(palette, base.skip(3)) is Some {
        Some((ColorTarget::Background, palette_lookup(palette, base.skip(3))->0))
    } else if has_prefix(base, "text-"@) && palette_lookup(palette, base.skip(5)) is Some {
        Some((ColorTarget::Text, palette_lookup(palette, base.skip(5))->0))
    } else if has_prefix(base, "border-"@) && palette_lookup(palette, base.skip(7)) is Some {
        Some((ColorTarget::Border, palette_lookup(palette, base.skip(7))->0))
    } else {
        None
    }
}

/// Palette colours, optionally with `/alpha`; a palette colour whose name
/// ends in `transparent` is fully transparent.
pub open spec fn color_rule(c: Seq<char>, palette: Seq<(Seq<char>, u32)>) -> Option<StyleView> {
    let (base, alpha) = split_alpha(c);
    let named = named_color(base, palette);
    if has_suffix(base, "transparent"@) {
        match named {
            Some(n) => Some(StyleView::Color(n.0, ColorValueView::Rgba(0))),
            None => None,
        }
    } else {
        match named {
            Some(n) => match alpha {
                Some(a) => Some(StyleView::Color(n.0, ColorValueView::RgbPercentAlpha(n.1, a))),
                None => Some(StyleView::Color(n.0, ColorValueView::Rgb(n.1))),
            },
            None => None,
        }
    }
}

fn named_color_of(base: &[char], palette: &Palette) -> (r: Option<(ColorTarget, u32)>)
    ensures
        r == named_color(base@, palette@),
{
    let n = base.len();
    proof {
        reveal_strlit("bg-");
        reveal_strlit("text-");
        reveal_strlit("border-");
    }
    if starts_with_str(base, "bg-") {
        let name = slice_chars(base, 3, n);
        assert(name@ == base@.skip(3));
        if let Some(h) = palette.lookup(&name) {
            return Some((ColorTarget::Background, h));
        }
    }
    if starts_with_str(base, "text-") {
        let name = slice_chars(base, 5, n);
        assert(name@ == base@.skip(5));
        if let Some(h) = palette.lookup(&name) {
            return Some((ColorTarget::Text, h));
        }
    }
    if starts_with_str(base, "border-") {
        let name = slice_chars(base, 7, n);
        assert(name@ == base@.skip(7));
        if let Some(h) = palette.lookup(&name) {
            return Some((ColorTarget::Border, h));
        }
    }
    None
}

fn color_style(c: &[char], palette: &Palette) -> (r: Option<Style>)
    ensures
        match r {
            Some(st) => color_rule(c@, palette@) == Some(st@),
            None => color_rule(c@, palette@) is None,
        },
{
    let n = c.len();
    let is_color = starts_with_str(c, "bg-") || starts_with_str(c, "text-") || starts_with_str(
        c,
        "border-",
    );
    let (base, alpha): (Vec<char>, Option<Vec<char>>) = if is_color {
        match position_of(c, '/') {
            Some(i) => {
                let op = slice_chars(c, i + 1, n);
                assert(op@ == c@.skip(i + 1));
                let a = if is_float_chars(&op) { Some(op) } else { None };
                (slice_chars(c, 0, i), a)
            },
            None => (slice_chars(c, 0, n), None),
        }
    } else {
        (slice_chars(c, 0, n), None)
    };
    assert(c@.subrange(0, n as int) =~= c@);
    assert(base@ == split_alpha(c@).0);
    assert(match alpha { Some(a) => split_alpha(c@).1 == Some(a@), None => split_alpha(c@).1 is None });
    let named = named_color_of(&base, palette);
    if ends_with_str(&base, "transparent") {
        match named {
            Some((t, _)) => Some(Style::Color(t, ColorValue::Rgba(0))),
            None => None,
        }
    } else {
        match named {
            Some((t, h)) => match alpha {
                Some(a) => Some(Style::Color(t, ColorValue::RgbPercentAlpha(h, string_of(&a)))),
                None => Some(Style::Color(t, ColorValue::Rgb(h))),
            },
            None => None,
        }
    }
}

pub open spec fn is_ascii_alnum(c: char) -> bool {
    ('0' <= c && c <= '9') || ('a' <= c && c <= 'z') || ('A' <= c && c <= 'Z')
}

/// The class as a method name: `-` and `/` become `_`, and only ASCII
/// letters, digits and `_` are kept.
pub open spec fn sanitize(s: Seq<char>) -> Seq<char>
    decreases s.len(),
{
    if s.len() == 0 {
        Seq::empty()
    } else {
        let rest = sanitize(s.drop_last());
        let ch = s.last();
        if ch == '-' || ch == '/' {
            rest.push('_')
        } else if is_ascii_alnum(ch) || ch == '_' {
            rest.push(ch)
        } else {
            rest
        }
    }
}

/// Any other class calls the style method of the same name, unless that
/// name is empty, starts with a digit, or is a state name.
pub open spec fn method_rule(c: Seq<char>) -> StyleView {
    let m = sanitize(c);
    if m.len() == 0 || is_digit(m[0]) {
        StyleView::Nothing
    } else if m == "active"@ || m == "hover"@ || m == "focus"@ {
        StyleView::Nothing
    } else {
        StyleView::Method(m)
    }
}

fn sanitize_chars(s: &[char]) -> (r: Vec<char>)
    ensures
        r@ == sanitize(s@),
{
    let mut out: Vec<char> = Vec::new();
    let mut i: usize = 0;
    while i < s.len()
        invariant
            i <= s@.len(),
            out@ == sanitize(s@.take(i as int)),
        decreases s@.len() - i,
    {
        let ch = s[i];
        assert(s@.take(i + 1).drop_last() =~= s@.take(i as int));
        if ch == '-' || ch == '/' {
            out.push('_');
        } else if ('0' <= ch && ch <= '9') || ('a' <= ch && ch <= 'z') || ('A' <= ch && ch <= 'Z')
            || ch == '_' {
            out.push(ch);
        }
        i += 1;
    }
    assert(s@.take(s@.len() as int) =~= s@);
    out
}

fn method_style(c: &[char]) -> (r: Style)
    ensures
        r@ == method_rule(c@),
{
    let m = sanitize_chars(c);
    if m.len() == 0 || ('0' <= m[0] && m[0] <= '9') {
        Style::Nothing
    } else if eq_str(&m, "active") || eq_str(&m, "hover") || eq_str(&m, "focus") {
        Style::Nothing
    } else {
        Style::Method(string_of(&m))
    }
}

/// A class without a modifier.
pub open spec fn base_rule(c: Seq<char>, palette: Seq<(Seq<char>, u32)>) -> (ModifierView, StyleView) {
    match keyword_rule(c) {
        Some(k) => (if k.0 { ModifierView::Animate } else { ModifierView::Base }, k.1),
        None => match opacity_rule(c) {
            Some(st) => (ModifierView::Base, st),
            None => match arbitrary_rule(c) {
                Some(st) => (ModifierView::Base, st),
                None => match color_rule(c, palette) {
                    Some(st) => (ModifierView::Base, st),
                    None => (ModifierView::Base, method_rule(c)),
                },
            },
        },
    }
}

/// A class: `modifier:rest` takes the modifier before the first `:` and the
/// style of `rest`; otherwise the class's own rule applies.
pub open spec fn class_rule(c: Seq<char>, palette: Seq<(Seq<char>, u32)>) -> (ModifierView, StyleView)
    decreases c.len(),
{
    match find_char(c, ':') {
        Some(i) => if 0 <= i < c.len() {
            (modifier_of(c.take(i)), class_rule(c.skip(i + 1), palette).1)
        } else {
            (ModifierView::Base, StyleView::Nothing)
        },
        None => base_rule(c, palette),
    }
}

fn base_class(c: &[char], palette: &Palette) -> (r: (Modifier, Style))
    ensures
        (r.0@, r.1@) == base_rule(c@, palette@),
{
    if let Some((anim, st)) = keyword_style(c) {
        return (if anim { Modifier::Animate } else { Modifier::Base }, st);
    }
    if let Some(st) = opacity_style(c) {
        return (Modifier::Base, st);
    }
    if let Some(st) = arbitrary_style(c) {
        return (Modifier::Base, st);
    }
    if let Some(st) = color_style(c, palette) {
        return (Modifier::Base, st);
    }
    (Modifier::Base, method_style(c))
}

fn compile_chars(c: &[char], palette: &Palette) -> (r: (Modifier, Style))
    ensures
        (r.0@, r.1@) == class_rule(c@, palette@),
    decreases c@.len(),
{
    let n = c.len();
    match position_of(c, ':') {
        Some(i) => {
            let m = compile_modifier(&slice_chars(c, 0, i));
            let rest = slice_chars(c, i + 1, n);
            assert(rest@ == c@.skip(i + 1));
            let (_, st) = compile_chars(&rest, palette);
            (m, st)
        },
        None => base_class(c, palette),
    }
}

/// Compile one utility class into its modifier and style.
pub fn process_tailwind_class(class: &str, palette: &Palette) -> (r: (Modifier, Style))
    ensures
        (r.0@, r.1@) == class_rule(class@, palette@),
{
    compile_chars(&chars_of(class), palette)
}

/// The rules of the classes of a `class` attribute, in order.
pub open spec fn class_rules(s: Seq<char>, palette: Seq<(Seq<char>, u32)>) -> Seq<(ModifierView, StyleView)> {
    words(s).map_values(|w: Seq<char>| class_rule(w, palette))
}

/// The styles of the rules with modifier `m`, in order.
pub open spec fn styles_with(rules: Seq<(ModifierView, StyleView)>, m: ModifierView) -> Seq<StyleView>
    decreases rules.len(),
{
    if rules.len() == 0 {
        Seq::empty()
    } else {
        let prev = styles_with(rules.drop_last(), m);
        if rules.last().0 == m { prev.push(rules.last().1) } else { prev }
    }
}

/// Modifiers emitted in a fixed place (the base chain, then hover, focus,
/// active).
pub open spec fn is_fixed_modifier(m: ModifierView) -> bool {
    m is Base || m is Hover || m is Focus || m is Active
}

/// The other modifiers used, each once, in order of first use.
pub open spec fn group_keys(rules: Seq<(ModifierView, StyleView)>) -> Seq<ModifierView>
    decreases rules.len(),
{
    if rules.len() == 0 {
        Seq::empty()
    } else {
        let prev = group_keys(rules.drop_last());
        let m = rules.last().0;
        if !is_fixed_modifier(m) && !prev.contains(m) { prev.push(m) } else { prev }
    }
}

pub open spec fn style_views(v: Seq<Style>) -> Seq<StyleView> {
    v.map_values(|s: Style| s@)
}

/// How a `class` attribute is emitted: the base styles, then the hover,
/// focus and active groups, then one group per other modifier (group
/// hover/active, animation, breakpoints).
#[derive(Debug, PartialEq, Eq)]
pub struct ClassPlan {
    pub base: Vec<Style>,
    pub hover: Vec<Style>,
    pub focus: Vec<Style>,
    pub active: Vec<Style>,
    pub groups: Vec<(Modifier, Vec<Style>)>,
}

fn clone_string(s: &String) -> (r: String)
    ensures
        r@ == s@,
{
    s.clone()
}

fn clone_modifier(m: &Modifier) -> (r: Modifier)
    ensures
        r@ == m@,
{
    match m {
        Modifier::Base => Modifier::Base,
        Modifier::Hover => Modifier::Hover,
        Modifier::Focus => Modifier::Focus,
        Modifier::Active => Modifier::Active,
        Modifier::GroupHover(n) => Modifier::GroupHover(clone_string(n)),
        Modifier::GroupActive(n) => Modifier::GroupActive(clone_string(n)),
        Modifier::Animate => Modifier::Animate,
        Modifier::Sm => Modifier::Sm,
        Modifier::Md => Modifier::Md,
        Modifier::Lg => Modifier::Lg,
        Modifier::Xl => Modifier::Xl,
        Modifier::Xxl => Modifier::Xxl,
    }
}

fn clone_style(s: &Style) -> (r: Style)
    ensures
        r@ == s@,
{
    match s {
        Style::Nothing => Style::Nothing,
        Style::Group(n) => Style::Group(clone_string(n)),
        Style::FontWeight(w) => Style::FontWeight(*w),
        Style::CursorPointer => Style::CursorPointer,
        Style::Animation(a) => Style::Animation(*a),
        Style::OpacityPercent(t) => Style::OpacityPercent(clone_string(t)),
        Style::Opacity(t) => Style::Opacity(clone_string(t)),
        Style::Length(p, t, n) => Style::Length(*p, clone_string(t), *n),
        Style::Color(t, v) => Style::Color(*t, match v {
            ColorValue::Rgb(h) => ColorValue::Rgb(*h),
            ColorValue::Rgba(h) => ColorValue::Rgba(*h),
            ColorValue::RgbPercentAlpha(h, a) => ColorValue::RgbPercentAlpha(*h, clone_string(a)),
        }),
        Style::Method(m) => Style::Method(clone_string(m)),
    }
}

fn same_modifier(a: &Modifier, b: &Modifier) -> (r: bool)
    ensures
        r == (a@ == b@),
{
    match (a, b) {
        (Modifier::Base, Modifier::Base) => true,
        (Modifier::Hover, Modifier::Hover) => true,
        (Modifier::Focus, Modifier::Focus) => true,
        (Modifier::Active, Modifier::Active) => true,
        (Modifier::GroupHover(x), Modifier::GroupHover(y)) => x.eq(y),
        (Modifier::GroupActive(x), Modifier::GroupActive(y)) => x.eq(y),
        (Modifier::Animate, Modifier::Animate) => true,
        (Modifier::Sm, Modifier::Sm) => true,
        (Modifier::Md, Modifier::Md) => true,
        (Modifier::Lg, Modifier::Lg) => true,
        (Modifier::Xl, Modifier::Xl) => true,
        (Modifier::Xxl, Modifier::Xxl) => true,
        _ => false,
    }
}

pub open spec fn rule_views(v: Seq<(Modifier, Style)>) -> Seq<(ModifierView, StyleView)> {
    v.map_values(|r: (Modifier, Style)| (r.0@, r.1@))
}

/// The styles in `rules` whose modifier is `m`, in order.
fn collect_styles(rules: &Vec<(Modifier, Style)>, m: &Modifier) -> (r: Vec<Style>)
    ensures
        style_views(r@) == styles_with(rule_views(rules@), m@),
{
    let mut out: Vec<Style> = Vec::new();
    let mut i: usize = 0;
    while i < rules.len()
        invariant
            i <= rules@.len(),
            style_views(out@) == styles_with(rule_views(rules@.take(i as int)), m@),
        decreases rules@.len() - i,
    {
        assert(rule_views(rules@.take(i + 1)).drop_last() =~= rule_views(rules@.take(i as int)));
        if same_modifier(&rules[i].0, m) {
            let st = clone_style(&rules[i].1);
            out.push(st);
        }
        assert(style_views(out@) =~= styles_with(rule_views(rules@.take(i + 1)), m@));
        i += 1;
    }
    assert(rules@.take(rules@.len() as int) =~= rules@);
    out
}

pub open spec fn modifier_views(v: Seq<Modifier>) -> Seq<ModifierView> {
    v.map_values(|k: Modifier| k@)
}

fn contains_modifier(keys: &Vec<Modifier>, m: &Modifier) -> (r: bool)
    ensures
        r == modifier_views(keys@).contains(m@),
{
    let mut i: usize = 0;
    while i < keys.len()
        invariant
            i <= keys@.len(),
            forall|j: int| 0 <= j < i ==> (#[trigger] keys@[j])@ != m@,
        decreases keys@.len() - i,
    {
        if same_modifier(&keys[i], m) {
            assert(modifier_views(keys@)[i as int] == m@);
            return true;
        }
        i += 1;
    }
    assert forall|j: int| 0 <= j < keys@.len() implies #[trigger] modifier_views(keys@)[j] != m@ by {
        assert(keys@[j]@ != m@);
    }
    false
}

fn is_fixed(m: &Modifier) -> (r: bool)
    ensures
        r == is_fixed_modifier(m@),
{
    match m {
        Modifier::Base | Modifier::Hover | Modifier::Focus | Modifier::Active => true,
        _ => false,
    }
}

/// The viewport width, in px, from which a breakpoint's styles apply.
pub open spec fn breakpoint_width(m: ModifierView) -> Option<u32> {
    match m {
        ModifierView::Sm => Some(640),
        ModifierView::Md => Some(768),
        ModifierView::Lg => Some(1024),
        ModifierView::Xl => Some(1280),
        ModifierView::Xxl => Some(1536),
        _ => None,
    }
}

/// The viewport width, in px, from which the styles of `m` apply, when `m`
/// is a breakpoint (`sm` to `2xl`).
pub fn breakpoint_min_width(m: &Modifier) -> (r: Option<u32>)
    ensures
        r == breakpoint_width(m@),
{
    match m {
        Modifier::Sm => Some(640),
        Modifier::Md => Some(768),
        Modifier::Lg => Some(1024),
        Modifier::Xl => Some(1280),
        Modifier::Xxl => Some(1536),
        _ => None,
    }
}

/// `plan` is the grouping of the classes of `s`: the styles of each fixed
/// modifier in order, then one group per other modifier, in order of first
/// use.
pub open spec fn is_class_plan(plan: ClassPlan, s: Seq<char>, palette: Seq<(Seq<char>, u32)>) -> bool {
    let rules = class_rules(s, palette);
    &&& style_views(plan.base@) == styles_with(rules, ModifierView::Base)
    &&& style_views(plan.hover@) == styles_with(rules, ModifierView::Hover)
    &&& style_views(plan.focus@) == styles_with(rules, ModifierView::Focus)
    &&& style_views(plan.active@) == styles_with(rules, ModifierView::Active)
    &&& plan.groups@.len() == group_keys(rules).len()
    &&& forall|k: int| 0 <= k < plan.groups@.len() ==> {
        &&& (#[trigger] plan.groups@[k]).0@ == group_keys(rules)[k]
        &&& style_views(plan.groups@[k].1@) == styles_with(rules, plan.groups@[k].0@)
    }
}

/// A modifier outside the fixed ones that has a style is among the group keys.
proof fn lemma_styled_modifier_is_key(rules: Seq<(ModifierView, StyleView)>, m: ModifierView)
    requires
        !is_fixed_modifier(m),
        styles_with(rules, m).len() > 0,
    ensures
        group_keys(rules).contains(m),
    decreases rules.len(),
{
    let prev = rules.drop_last();
    let gp = group_keys(prev);
    if gp.contains(m) {
        let j = choose|j: int| 0 <= j < gp.len() && gp[j] == m;
        assert(group_keys(rules)[j] == m);
    } else if rules.last().0 == m {
        assert(group_keys(rules) == gp.push(m));
        assert(group_keys(rules)[gp.len() as int] == m);
    } else {
        lemma_styled_modifier_is_key(prev, m);
    }
}

fn clone_styles(v: &Vec<Style>) -> (r: Vec<Style>)
    ensures
        style_views(r@) == style_views(v@),
{
    let mut out: Vec<Style> = Vec::new();
    let mut i: usize = 0;
    while i < v.len()
        invariant
            i <= v@.len(),
            style_views(out@) == style_views(v@.take(i as int)),
        decreases v@.len() - i,
    {
        let ghost before = out@;
        let st = clone_style(&v[i]);
        out.push(st);
        assert(v@.take(i + 1) =~= v@.take(i as int).push(v@[i as int]));
        assert(style_views(out@) =~= style_views(before).push(st@));
        assert(style_views(v@.take(i + 1)) =~= style_views(v@.take(i as int)).push(v@[i as int]@));
        i += 1;
    }
    assert(v@.take(v@.len() as int) =~= v@);
    out
}

/// The animation styles of a planned `class` attribute, in order.
pub(crate) fn plan_animations(
    plan: &ClassPlan,
    Ghost(s): Ghost<Seq<char>>,
    Ghost(palette): Ghost<Seq<(Seq<char>, u32)>>,
) -> (r: Vec<Style>)
    requires
        is_class_plan(*plan, s, palette),
    ensures
        style_views(r@) == styles_with(class_rules(s, palette), ModifierView::Animate),
{
    let ghost rules = class_rules(s, palette);
    let mut k: usize = 0;
    while k < plan.groups.len()
        invariant
            k <= plan.groups@.len(),
            is_class_plan(*plan, s, palette),
            rules == class_rules(s, palette),
            forall|j: int| 0 <= j < k ==> group_keys(rules)[j] != ModifierView::Animate,
        decreases plan.groups@.len() - k,
    {
        assert(plan.groups@[k as int].0@ == group_keys(rules)[k as int]);
        if let Modifier::Animate = plan.groups[k].0 {
            return clone_styles(&plan.groups[k].1);
        }
        k += 1;
    }
    proof {
        if styles_with(rules, ModifierView::Animate).len() > 0 {
            lemma_styled_modifier_is_key(rules, ModifierView::Animate);
        }
    }
    assert(style_views(Seq::<Style>::empty()) =~= styles_with(rules, ModifierView::Animate));
    Vec::new()
}

/// Compile a `class` attribute: each white-space-separated class through
/// [`process_tailwind_class`], grouped by modifier.
pub fn plan_classes(class_string: &str, palette: &Palette) -> (r: ClassPlan)
    ensures
        is_class_plan(r, class_string@, palette@),
{
    let ws = split_words(class_string);
    let ghost spec_rules = class_rules(class_string@, palette@);
    let mut rules: Vec<(Modifier, Style)> = Vec::new();
    let mut keys: Vec<Modifier> = Vec::new();
    let mut i: usize = 0;
    while i < ws.len()
        invariant
            i <= ws@.len(),
            ws@.len() == words(class_string@).len(),
            forall|k: int| 0 <= k < ws@.len() ==> #[trigger] ws@[k]@ == words(class_string@)[k],
            spec_rules == class_rules(class_string@, palette@),
            rule_views(rules@) == spec_rules.take(i as int),
            modifier_views(keys@) == group_keys(spec_rules.take(i as int)),
        decreases ws@.len() - i,
    {
        let (m, st) = compile_chars(&ws[i], palette);
        assert(spec_rules[i as int] == class_rule(ws@[i as int]@, palette@));
        assert(spec_rules.take(i + 1).drop_last() =~= spec_rules.take(i as int));
        if !is_fixed(&m) && !contains_modifier(&keys, &m) {
            keys.push(clone_modifier(&m));
        }
        rules.push((m, st));
        assert(rule_views(rules@) =~= spec_rules.take(i + 1));
        assert(modifier_views(keys@) =~= group_keys(spec_rules.take(i + 1)));
        i += 1;
    }
    assert(spec_rules.take(ws@.len() as int) =~= spec_rules);
    let base = collect_styles(&rules, &Modifier::Base);
    let hover = collect_styles(&rules, &Modifier::Hover);
    let focus = collect_styles(&rules, &Modifier::Focus);
    let active = collect_styles(&rules, &Modifier::Active);
    let mut groups: Vec<(Modifier, Vec<Style>)> = Vec::new();
    let mut k: usize = 0;
    while k < keys.len()
        invariant
            k <= keys@.len(),
            rule_views(rules@) == spec_rules,
            modifier_views(keys@) == group_keys(spec_rules),
            groups@.len() == k,
            forall|j: int| 0 <= j < k ==> {
                &&& (#[trigger] groups@[j]).0@ == group_keys(spec_rules)[j]
                &&& style_views(groups@[j].1@) == styles_with(spec_rules, groups@[j].0@)
            },
        decreases keys@.len() - k,
    {
        let styles = collect_styles(&rules, &keys[k]);
        assert(modifier_views(keys@)[k as int] == keys@[k as int]@);
        groups.push((clone_modifier(&keys[k]), styles));
        k += 1;
    }
    ClassPlan { base, hover, focus, active, groups }
}

/// An element needs a generated id when it has none and its classes use
/// `active:` or an animation.
pub fn needs_auto_id(class_string: &str, has_id: bool) -> (r: bool)
    ensures
        r == ((contains_seq(class_string@, "active:"@) || contains_seq(class_string@, "animate-"@))
            && !has_id),
{
    let cs = chars_of(class_string);
    (contains_str(&cs, "active:") || contains_str(&cs, "animate-")) && !has_id
}

/// A class made of ASCII letters, digits and dashes names the style method
/// spelled the same in snake case (`-` becomes `_`).
pub proof fn lemma_sanitize_is_snake_case(c: Seq<char>)
    requires
        forall|i: int| 0 <= i < c.len() ==> is_ascii_alnum(#[trigger] c[i]) || c[i] == '-',
    ensures
        sanitize(c) == c.map_values(|ch: char| if ch == '-' { '_' } else { ch }),
    decreases c.len(),
{
    if c.len() > 0 {
        let p = c.drop_last();
        assert forall|i: int| 0 <= i < p.len() implies is_ascii_alnum(#[trigger] p[i]) || p[i] == '-' by {
            assert(p[i] == c[i]);
        }
        lemma_sanitize_is_snake_case(p);
        let f = |ch: char| if ch == '-' { '_' } else { ch };
        assert(c.map_values(f) =~= p.map_values(f).push(f(c.last())));
    } else {
        assert(c.map_values(|ch: char| if ch == '-' { '_' } else { ch }) =~= Seq::<char>::empty());
    }
}

/// Modifiers compose with any class: `m:rest` (for a modifier `m` without
/// `:`) has the modifier `m` names and the style `rest` has on its own.
pub proof fn lemma_modifier_prefix(m: Seq<char>, rest: Seq<char>, palette: Seq<(Seq<char>, u32)>)
    requires
        forall|i: int| 0 <= i < m.len() ==> #[trigger] m[i] != ':',
    ensures
        class_rule(m + seq![':'] + rest, palette) == (modifier_of(m), class_rule(rest, palette).1),
{
    let c = m + seq![':'] + rest;
    assert(c[m.len() as int] == ':');
    assert forall|j: int| 0 <= j < m.len() implies c[j] != ':' by {
        assert(c[j] == m[j]);
    }
    assert(is_first_index(c, ':', m.len() as int));
    lemma_find_char(c, ':', m.len() as int);
    assert(c.take(m.len() as int) =~= m);
    assert(c.skip(m.len() as int + 1) =~= rest);
}

/// The class `prefix[Npx]`: an arbitrary length of `n` px.
pub open spec fn arbitrary_px_class(prefix: Seq<char>, n: Seq<char>) -> Seq<char> {
    prefix + "["@ + n + "px]"@
}

pub open spec fn is_prefix_char(ch: char) -> bool {
    ('a' <= ch && ch <= 'z') || ch == '-'
}

/// A bracketed px length after a lower-case prefix ending in `-`, whose
/// first letters start no keyword class, is that length of the property the
/// prefix names.
proof fn lemma_arbitrary_px_class(prefix: Seq<char>, n: Seq<char>, palette: Seq<(Seq<char>, u32)>)
    requires
        prefix.len() >= 2,
        forall|j: int| 0 <= j < prefix.len() ==> is_prefix_char(#[trigger] prefix[j]),
        prefix[0] != '-',
        prefix[prefix.len() - 1] == '-',
        prefix[0] != 'f' && prefix[0] != 'c' && prefix[0] != 'a' && prefix[0] != 'o'
            && prefix[0] != 'd' && prefix[0] != 'e',
        !(prefix[0] == 'g' && prefix[1] == 'r'),
        !(prefix[0] == 't' && prefix[1] == 'r'),
        n.len() > 0,
        all_digits(n),
        length_property(prefix) is Some,
    ensures
        class_rule(arbitrary_px_class(prefix, n), palette)
            == (ModifierView::Base, StyleView::Length(length_property(prefix).unwrap(), n, false)),
{
    let c = arbitrary_px_class(prefix, n);
    let k = prefix.len() as int;
    reveal_strlit("[");
    reveal_strlit("px]");
    reveal_strlit("px");
    reveal_strlit("]");
    reveal_strlit("-[");
    assert(c.len() == k + n.len() + 4);
    assert(c[k] == '[');
    assert(c[0] == prefix[0] && c[1] == prefix[1]);
    assert forall|j: int| 0 <= j < c.len() implies #[trigger] c[j] != ':' && (j != k ==> c[j] != '[') by {
        if j < k {
            assert(c[j] == prefix[j]);
            assert(is_prefix_char(prefix[j]));
        } else if k < j < k + 1 + n.len() {
            assert(c[j] == n[j - k - 1]);
            assert(is_digit(n[j - k - 1]));
        }
    }
    // No modifier.
    assert(find_char(c, ':') is None);
    // No keyword.
    reveal_strlit("group");
    reveal_strlit("group/");
    reveal_strlit("font-bold");
    reveal_strlit("font-semibold");
    reveal_strlit("font-normal");
    reveal_strlit("font-light");
    reveal_strlit("cursor-pointer");
    reveal_strlit("animate-pulse");
    reveal_strlit("animate-bounce");
    reveal_strlit("animate-ping");
    reveal_strlit("animate-spin");
    reveal_strlit("animate-scale");
    reveal_strlit("animate-fade-in");
    reveal_strlit("animate-slide-in");
    reveal_strlit("animate-slide-up");
    reveal_strlit("animate-wiggle");
    reveal_strlit("transition");
    reveal_strlit("overflow-y-scroll");
    reveal_strlit("overflow-scroll");
    reveal_strlit("overflow-x-scroll");
    reveal_strlit("duration-");
    reveal_strlit("ease-");
    reveal_strlit("delay-");
    reveal_strlit("transition-");
    reveal_strlit("animate-");
    reveal_strlit("opacity-");
    assert(c.take(2)[0] == c[0] && c.take(2)[1] == c[1]);
    assert(!has_prefix(c, "group/"@)) by {
        if has_prefix(c, "group/"@) { assert(c.take(6)[1] == c[1]); }
    }
    assert(!has_prefix(c, "duration-"@)) by {
        if has_prefix(c, "duration-"@) { assert(c.take(9)[0] == c[0]); }
    }
    assert(!has_prefix(c, "ease-"@)) by {
        if has_prefix(c, "ease-"@) { assert(c.take(5)[0] == c[0]); }
    }
    assert(!has_prefix(c, "delay-"@)) by {
        if has_prefix(c, "delay-"@) { assert(c.take(6)[0] == c[0]); }
    }
    assert(!has_prefix(c, "transition-"@)) by {
        if has_prefix(c, "transition-"@) { assert(c.take(11)[1] == c[1]); assert(c.take(11)[0] == c[0]); }
    }
    assert(!has_prefix(c, "animate-"@)) by {
        if has_prefix(c, "animate-"@) { assert(c.take(8)[0] == c[0]); }
    }
    assert(!has_prefix(c, "opacity-"@)) by {
        if has_prefix(c, "opacity-"@) { assert(c.take(8)[0] == c[0]); }
    }
    assert(keyword_rule(c) is None);
    assert(opacity_rule(c) is None);
    // The bracket.
    assert(occurs_at(c, "-["@, k - 1)) by {
        assert(c.skip(k - 1).take(2) =~= "-["@);
    }
    assert forall|j: int| 0 <= j < k - 1 implies !occurs_at(c, "-["@, j) by {
        if occurs_at(c, "-["@, j) {
            assert(c.skip(j).take(2)[1] == c[j + 1]);
        }
    }
    assert(is_first_occurrence(c, "-["@, k - 1));
    assert(contains_seq(c, "-["@));
    let f = choose|i: int| is_first_occurrence(c, "-["@, i);
    assert(f == k - 1) by {
        if f < k - 1 {
        } else if f > k - 1 {
            assert(!occurs_at(c, "-["@, k - 1));
        }
    }
    assert(find_seq(c, "-["@) == Some(k - 1));
    assert(has_suffix(c, "]"@)) by {
        assert(c.skip(c.len() - 1) =~= "]"@);
    }
    let v = c.subrange(k + 1, c.len() - 1);
    assert(v =~= n + "px"@);
    assert(bracket_value(c) == Some((k - 1, v)));
    assert(has_suffix(v, "px"@)) by {
        assert(v.skip(v.len() - 2) =~= "px"@);
    }
    assert(v.take(v.len() - 2) =~= n);
    assert(strip_sign(n) == n) by {
        assert(is_digit(n[0]));
    }
    assert(is_float_text(n));
    assert(c.take(k) =~= prefix);
    assert(arbitrary_rule(c) == Some(StyleView::Length(length_property(prefix).unwrap(), n, false)));
}

/// An arbitrary length class `prefix-[Npx]` sets the property its prefix
/// names, by N px, each prefix its own property: `w-` the width, `px-` the
/// horizontal padding, `py-` the vertical padding, `mt-` the top margin,
/// `max-w-` the maximum width, `inset-` all four offsets, and so on.
#[verifier::rlimit(50)]
pub proof fn lemma_arbitrary_lengths(n: Seq<char>, palette: Seq<(Seq<char>, u32)>)
    requires
        n.len() > 0,
        all_digits(n),
    ensures
        class_rule(arbitrary_px_class("w-"@, n), palette) == (ModifierView::Base, StyleView::Length(LengthProperty::W, n, false)),
        class_rule(arbitrary_px_class("h-"@, n), palette) == (ModifierView::Base, StyleView::Length(LengthProperty::H, n, false)),
        class_rule(arbitrary_px_class("p-"@, n), palette) == (ModifierView::Base, StyleView::Length(LengthProperty::P, n, false)),
        class_rule(arbitrary_px_class("px-"@, n), palette) == (ModifierView::Base, StyleView::Length(LengthProperty::Px, n, false)),
        class_rule(arbitrary_px_class("py-"@, n), palette) == (ModifierView::Base, StyleView::Length(LengthProperty::Py, n, false)),
        class_rule(arbitrary_px_class("m-"@, n), palette) == (ModifierView::Base, StyleView::Length(LengthProperty::M, n, false)),
        class_rule(arbitrary_px_class("mt-"@, n), palette) == (ModifierView::Base, StyleView::Length(LengthProperty::Mt, n, false)),
        class_rule(arbitrary_px_class("mb-"@, n), palette) == (ModifierView::Base, StyleView::Length(LengthProperty::Mb, n, false)),
        class_rule(arbitrary_px_class("ml-"@, n), palette) == (ModifierView::Base, StyleView::Length(LengthProperty::Ml, n, false)),
        class_rule(arbitrary_px_class("mr-"@, n), palette) == (ModifierView::Base, StyleView::Length(LengthProperty::Mr, n, false)),
        class_rule(arbitrary_px_class("mx-"@, n), palette) == (ModifierView::Base, StyleView::Length(LengthProperty::Mx, n, false)),
        class_rule(arbitrary_px_class("my-"@, n), palette) == (ModifierView::Base, StyleView::Length(LengthProperty::My, n, false)),
        class_rule(arbitrary_px_class("gap-"@, n), palette) == (ModifierView::Base, StyleView::Length(LengthProperty::Gap, n, false)),
        class_rule(arbitrary_px_class("text-"@, n), palette) == (ModifierView::Base, StyleView::Length(LengthProperty::TextSize, n, false)),
        class_rule(arbitrary_px_class("rounded-"@, n), palette) == (ModifierView::Base, StyleView::Length(LengthProperty::Rounded, n, false)),
        class_rule(arbitrary_px_class("max-w-"@, n), palette) == (ModifierView::Base, StyleView::Length(LengthProperty::MaxW, n, false)),
        class_rule(arbitrary_px_class("max-h-"@, n), palette) == (ModifierView::Base, StyleView::Length(LengthProperty::MaxH, n, false)),
        class_rule(arbitrary_px_class("min-w-"@, n), palette) == (ModifierView::Base, StyleView::Length(LengthProperty::MinW, n, false)),
        class_rule(arbitrary_px_class("min-h-"@, n), palette) == (ModifierView::Base, StyleView::Length(LengthProperty::MinH, n, false)),
        class_rule(arbitrary_px_class("top-"@, n), palette) == (ModifierView::Base, StyleView::Length(LengthProperty::Top, n, false)),
        class_rule(arbitrary_px_class("bottom-"@, n), palette) == (ModifierView::Base, StyleView::Length(LengthProperty::Bottom, n, false)),
        class_rule(arbitrary_px_class("left-"@, n), palette) == (ModifierView::Base, StyleView::Length(LengthProperty::Left, n, false)),
        class_rule(arbitrary_px_class("right-"@, n), palette) == (ModifierView::Base, StyleView::Length(LengthProperty::Right, n, false)),
        class_rule(arbitrary_px_class("inset-"@, n), palette) == (ModifierView::Base, StyleView::Length(LengthProperty::Inset, n, false)),
{
    assert(class_rule(arbitrary_px_class("w-"@, n), palette)
        == (ModifierView::Base, StyleView::Length(LengthProperty::W, n, false))) by {
        reveal_strlit("w-");
        assert(length_property("w-"@) == Some(LengthProperty::W));
        lemma_arbitrary_px_class("w-"@, n, palette);
    }
    assert(class_rule(arbitrary_px_class("h-"@, n), palette)
        == (ModifierView::Base, StyleView::Length(LengthProperty::H, n, false))) by {
        reveal_strlit("w-");
        reveal_strlit("h-");
        assert("h-"@[0] != "w-"@[0]);
        assert(length_property("h-"@) == Some(LengthProperty::H));
        lemma_arbitrary_px_class("h-"@, n, palette);
    }
    assert(class_rule(arbitrary_px_class("p-"@, n), palette)
        == (ModifierView::Base, StyleView::Length(LengthProperty::P, n, false))) by {
        reveal_strlit("w-");
        reveal_strlit("h-");
        reveal_strlit("p-");
        assert("p-"@[0] != "w-"@[0]);
        assert("p-"@[0] != "h-"@[0]);
        assert(length_property("p-"@) == Some(LengthProperty::P));
        lemma_arbitrary_px_class("p-"@, n, palette);
    }
    assert(class_rule(arbitrary_px_class("px-"@, n), palette)
        == (ModifierView::Base, StyleView::Length(LengthProperty::Px, n, false))) by {
        reveal_strlit("w-");
        reveal_strlit("h-");
        reveal_strlit("p-");
        reveal_strlit("px-");
        assert(length_property("px-"@) == Some(LengthProperty::Px));
        lemma_arbitrary_px_class("px-"@, n, palette);
    }
    assert(class_rule(arbitrary_px_class("py-"@, n), palette)
        == (ModifierView::Base, StyleView::Length(LengthProperty::Py, n, false))) by {
        reveal_strlit("w-");
        reveal_strlit("h-");
        reveal_strlit("p-");
        reveal_strlit("px-");
        reveal_strlit("py-");
        assert("py-"@[1] != "px-"@[1]);
        assert(length_property("py-"@) == Some(LengthProperty::Py));
        lemma_arbitrary_px_class("py-"@, n, palette);
    }
    assert(class_rule(arbitrary_px_class("m-"@, n), palette)
        == (ModifierView::Base, StyleView::Length(LengthProperty::M, n, false))) by {
        reveal_strlit("w-");
        reveal_strlit("h-");
        reveal_strlit("p-");
        reveal_strlit("px-");
        reveal_strlit("py-");
        reveal_strlit("m-");
        assert("m-"@[0] != "w-"@[0]);
        assert("m-"@[0] != "h-"@[0]);
        assert("m-"@[0] != "p-"@[0]);
        assert(length_property("m-"@) == Some(LengthProperty::M));
        lemma_arbitrary_px_class("m-"@, n, palette);
    }
    assert(class_rule(arbitrary_px_class("mt-"@, n), palette)
        == (ModifierView::Base, StyleView::Length(LengthProperty::Mt, n, false))) by {
        reveal_strlit("w-");
        reveal_strlit("h-");
        reveal_strlit("p-");
        reveal_strlit("px-");
        reveal_strlit("py-");
        reveal_strlit("m-");
        reveal_strlit("mt-");
        assert("mt-"@[0] != "px-"@[0]);
        assert("mt-"@[0] != "py-"@[0]);
        assert(length_property("mt-"@) == Some(LengthProperty::Mt));
        lemma_arbitrary_px_class("mt-"@, n, palette);
    }
    assert(class_rule(arbitrary_px_class("mb-"@, n), palette)
        == (ModifierView::Base, StyleView::Length(LengthProperty::Mb, n, false))) by {
        reveal_strlit("w-");
        reveal_strlit("h-");
        reveal_strlit("p-");
        reveal_strlit("px-");
        reveal_strlit("py-");
        reveal_strlit("m-");
        reveal_strlit("mt-");
        reveal_strlit("mb-");
        assert("mb-"@[0] != "px-"@[0]);
        assert("mb-"@[0] != "py-"@[0]);
        assert("mb-"@[1] != "mt-"@[1]);
        assert(length_property("mb-"@) == Some(LengthProperty::Mb));
        lemma_arbitrary_px_class("mb-"@, n, palette);
    }
    assert(class_rule(arbitrary_px_class("ml-"@, n), palette)
        == (ModifierView::Base, StyleView::Length(LengthProperty::Ml, n, false))) by {
        reveal_strlit("w-");
        reveal_strlit("h-");
        reveal_strlit("p-");
        reveal_strlit("px-");
        reveal_strlit("py-");
        reveal_strlit("m-");
        reveal_strlit("mt-");
        reveal_strlit("mb-");
        reveal_strlit("ml-");
        assert("ml-"@[0] != "px-"@[0]);
        assert("ml-"@[0] != "py-"@[0]);
        assert("ml-"@[1] != "mt-"@[1]);
        assert("ml-"@[1] != "mb-"@[1]);
        assert(length_property("ml-"@) == Some(LengthProperty::Ml));
        lemma_arbitrary_px_class("ml-"@, n, palette);
    }
    assert(class_rule(arbitrary_px_class("mr-"@, n), palette)
        == (ModifierView::Base, StyleView::Length(LengthProperty::Mr, n, false))) by {
        reveal_strlit("w-");
        reveal_strlit("h-");
        reveal_strlit("p-");
        reveal_strlit("px-");
        reveal_strlit("py-");
        reveal_strlit("m-");
        reveal_strlit("mt-");
        reveal_strlit("mb-");
        reveal_strlit("ml-");
        reveal_strlit("mr-");
        assert("mr-"@[0] != "px-"@[0]);
        assert("mr-"@[0] != "py-"@[0]);
        assert("mr-"@[1] != "mt-"@[1]);
        assert("mr-"@[1] != "mb-"@[1]);
        assert("mr-"@[1] != "ml-"@[1]);
        assert(length_property("mr-"@) == Some(LengthProperty::Mr));
        lemma_arbitrary_px_class("mr-"@, n, palette);
    }
    assert(class_rule(arbitrary_px_class("mx-"@, n), palette)
        == (ModifierView::Base, StyleView::Length(LengthProperty::Mx, n, false))) by {
        reveal_strlit("w-");
        reveal_strlit("h-");
        reveal_strlit("p-");
        reveal_strlit("px-");
        reveal_strlit("py-");
        reveal_strlit("m-");
        reveal_strlit("mt-");
        reveal_strlit("mb-");
        reveal_strlit("ml-");
        reveal_strlit("mr-");
        reveal_strlit("mx-");
        assert("mx-"@[0] != "px-"@[0]);
        assert("mx-"@[0] != "py-"@[0]);
        assert("mx-"@[1] != "mt-"@[1]);
        assert("mx-"@[1] != "mb-"@[1]);
        assert("mx-"@[1] != "ml-"@[1]);
        assert("mx-"@[1] != "mr-"@[1]);
        assert(length_property("mx-"@) == Some(LengthProperty::Mx));
        lemma_arbitrary_px_class("mx-"@, n, palette);
    }
    assert(class_rule(arbitrary_px_class("my-"@, n), palette)
        == (ModifierView::Base, StyleView::Length(LengthProperty::My, n, false))) by {
        reveal_strlit("w-");
        reveal_strlit("h-");
        reveal_strlit("p-");
        reveal_strlit("px-");
        reveal_strlit("py-");
        reveal_strlit("m-");
        reveal_strlit("mt-");
        reveal_strlit("mb-");
        reveal_strlit("ml-");
        reveal_strlit("mr-");
        reveal_strlit("mx-");
        reveal_strlit("my-");
        assert("my-"@[0] != "px-"@[0]);
        assert("my-"@[0] != "py-"@[0]);
        assert("my-"@[1] != "mt-"@[1]);
        assert("my-"@[1] != "mb-"@[1]);
        assert("my-"@[1] != "ml-"@[1]);
        assert("my-"@[1] != "mr-"@[1]);
        assert("my-"@[1] != "mx-"@[1]);
        assert(length_property("my-"@) == Some(LengthProperty::My));
        lemma_arbitrary_px_class("my-"@, n, palette);
    }
    assert(class_rule(arbitrary_px_class("gap-"@, n), palette)
        == (ModifierView::Base, StyleView::Length(LengthProperty::Gap, n, false))) by {
        reveal_strlit("w-");
        reveal_strlit("h-");
        reveal_strlit("p-");
        reveal_strlit("px-");
        reveal_strlit("py-");
        reveal_strlit("m-");
        reveal_strlit("mt-");
        reveal_strlit("mb-");
        reveal_strlit("ml-");
        reveal_strlit("mr-");
        reveal_strlit("mx-");
        reveal_strlit("my-");
        reveal_strlit("gap-");
        assert(length_property("gap-"@) == Some(LengthProperty::Gap));
        lemma_arbitrary_px_class("gap-"@, n, palette);
    }
    assert(class_rule(arbitrary_px_class("text-"@, n), palette)
        == (ModifierView::Base, StyleView::Length(LengthProperty::TextSize, n, false))) by {
        reveal_strlit("w-");
        reveal_strlit("h-");
        reveal_strlit("p-");
        reveal_strlit("px-");
        reveal_strlit("py-");
        reveal_strlit("m-");
        reveal_strlit("mt-");
        reveal_strlit("mb-");
        reveal_strlit("ml-");
        reveal_strlit("mr-");
        reveal_strlit("mx-");
        reveal_strlit("my-");
        reveal_strlit("gap-");
        reveal_strlit("text-");
        assert(length_property("text-"@) == Some(LengthProperty::TextSize));
        lemma_arbitrary_px_class("text-"@, n, palette);
    }
    assert(class_rule(arbitrary_px_class("rounded-"@, n), palette)
        == (ModifierView::Base, StyleView::Length(LengthProperty::Rounded, n, false))) by {
        reveal_strlit("w-");
        reveal_strlit("h-");
        reveal_strlit("p-");
        reveal_strlit("px-");
        reveal_strlit("py-");
        reveal_strlit("m-");
        reveal_strlit("mt-");
        reveal_strlit("mb-");
        reveal_strlit("ml-");
        reveal_strlit("mr-");
        reveal_strlit("mx-");
        reveal_strlit("my-");
        reveal_strlit("gap-");
        reveal_strlit("text-");
        reveal_strlit("rounded-");
        assert(length_property("rounded-"@) == Some(LengthProperty::Rounded));
        lemma_arbitrary_px_class("rounded-"@, n, palette);
    }
    assert(class_rule(arbitrary_px_class("max-w-"@, n), palette)
        == (ModifierView::Base, StyleView::Length(LengthProperty::MaxW, n, false))) by {
        reveal_strlit("w-");
        reveal_strlit("h-");
        reveal_strlit("p-");
        reveal_strlit("px-");
        reveal_strlit("py-");
        reveal_strlit("m-");
        reveal_strlit("mt-");
        reveal_strlit("mb-");
        reveal_strlit("ml-");
        reveal_strlit("mr-");
        reveal_strlit("mx-");
        reveal_strlit("my-");
        reveal_strlit("gap-");
        reveal_strlit("text-");
        reveal_strlit("rounded-");
        reveal_strlit("max-w-");
        assert(length_property("max-w-"@) == Some(LengthProperty::MaxW));
        lemma_arbitrary_px_class("max-w-"@, n, palette);
    }
    assert(class_rule(arbitrary_px_class("max-h-"@, n), palette)
        == (ModifierView::Base, StyleView::Length(LengthProperty::MaxH, n, false))) by {
        reveal_strlit("w-");
        reveal_strlit("h-");
        reveal_strlit("p-");
        reveal_strlit("px-");
        reveal_strlit("py-");
        reveal_strlit("m-");
        reveal_strlit("mt-");
        reveal_strlit("mb-");
        reveal_strlit("ml-");
        reveal_strlit("mr-");
        reveal_strlit("mx-");
        reveal_strlit("my-");
        reveal_strlit("gap-");
        reveal_strlit("text-");
        reveal_strlit("rounded-");
        reveal_strlit("max-w-");
        reveal_strlit("max-h-");
        assert("max-h-"@[4] != "max-w-"@[4]);
        assert(length_property("max-h-"@) == Some(LengthProperty::MaxH));
        lemma_arbitrary_px_class("max-h-"@, n, palette);
    }
    assert(class_rule(arbitrary_px_class("min-w-"@, n), palette)
        == (ModifierView::Base, StyleView::Length(LengthProperty::MinW, n, false))) by {
        reveal_strlit("w-");
        reveal_strlit("h-");
        reveal_strlit("p-");
        reveal_strlit("px-");
        reveal_strlit("py-");
        reveal_strlit("m-");
        reveal_strlit("mt-");
        reveal_strlit("mb-");
        reveal_strlit("ml-");
        reveal_strlit("mr-");
        reveal_strlit("mx-");
        reveal_strlit("my-");
        reveal_strlit("gap-");
        reveal_strlit("text-");
        reveal_strlit("rounded-");
        reveal_strlit("max-w-");
        reveal_strlit("max-h-");
        reveal_strlit("min-w-");
        assert("min-w-"@[1] != "max-w-"@[1]);
        assert("min-w-"@[1] != "max-h-"@[1]);
        assert(length_property("min-w-"@) == Some(LengthProperty::MinW));
        lemma_arbitrary_px_class("min-w-"@, n, palette);
    }
    assert(class_rule(arbitrary_px_class("min-h-"@, n), palette)
        == (ModifierView::Base, StyleView::Length(LengthProperty::MinH, n, false))) by {
        reveal_strlit("w-");
        reveal_strlit("h-");
        reveal_strlit("p-");
        reveal_strlit("px-");
        reveal_strlit("py-");
        reveal_strlit("m-");
        reveal_strlit("mt-");
        reveal_strlit("mb-");
        reveal_strlit("ml-");
        reveal_strlit("mr-");
        reveal_strlit("mx-");
        reveal_strlit("my-");
        reveal_strlit("gap-");
        reveal_strlit("text-");
        reveal_strlit("rounded-");
        reveal_strlit("max-w-");
        reveal_strlit("max-h-");
        reveal_strlit("min-w-");
        reveal_strlit("min-h-");
        assert("min-h-"@[1] != "max-w-"@[1]);
        assert("min-h-"@[1] != "max-h-"@[1]);
        assert("min-h-"@[4] != "min-w-"@[4]);
        assert(length_property("min-h-"@) == Some(LengthProperty::MinH));
        lemma_arbitrary_px_class("min-h-"@, n, palette);
    }
    assert(class_rule(arbitrary_px_class("top-"@, n), palette)
        == (ModifierView::Base, StyleView::Length(LengthProperty::Top, n, false))) by {
        reveal_strlit("w-");
        reveal_strlit("h-");
        reveal_strlit("p-");
        reveal_strlit("px-");
        reveal_strlit("py-");
        reveal_strlit("m-");
        reveal_strlit("mt-");
        reveal_strlit("mb-");
        reveal_strlit("ml-");
        reveal_strlit("mr-");
        reveal_strlit("mx-");
        reveal_strlit("my-");
        reveal_strlit("gap-");
        reveal_strlit("text-");
        reveal_strlit("rounded-");
        reveal_strlit("max-w-");
        reveal_strlit("max-h-");
        reveal_strlit("min-w-");
        reveal_strlit("min-h-");
        reveal_strlit("top-");
        assert("top-"@[0] != "gap-"@[0]);
        assert(length_property("top-"@) == Some(LengthProperty::Top));
        lemma_arbitrary_px_class("top-"@, n, palette);
    }
    assert(class_rule(arbitrary_px_class("bottom-"@, n), palette)
        == (ModifierView::Base, StyleView::Length(LengthProperty::Bottom, n, false))) by {
        reveal_strlit("w-");
        reveal_strlit("h-");
        reveal_strlit("p-");
        reveal_strlit("px-");
        reveal_strlit("py-");
        reveal_strlit("m-");
        reveal_strlit("mt-");
        reveal_strlit("mb-");
        reveal_strlit("ml-");
        reveal_strlit("mr-");
        reveal_strlit("mx-");
        reveal_strlit("my-");
        reveal_strlit("gap-");
        reveal_strlit("text-");
        reveal_strlit("rounded-");
        reveal_strlit("max-w-");
        reveal_strlit("max-h-");
        reveal_strlit("min-w-");
        reveal_strlit("min-h-");
        reveal_strlit("top-");
        reveal_strlit("bottom-");
        assert(length_property("bottom-"@) == Some(LengthProperty::Bottom));
        lemma_arbitrary_px_class("bottom-"@, n, palette);
    }
    assert(class_rule(arbitrary_px_class("left-"@, n), palette)
        == (ModifierView::Base, StyleView::Length(LengthProperty::Left, n, false))) by {
        reveal_strlit("w-");
        reveal_strlit("h-");
        reveal_strlit("p-");
        reveal_strlit("px-");
        reveal_strlit("py-");
        reveal_strlit("m-");
        reveal_strlit("mt-");
        reveal_strlit("mb-");
        reveal_strlit("ml-");
        reveal_strlit("mr-");
        reveal_strlit("mx-");
        reveal_strlit("my-");
        reveal_strlit("gap-");
        reveal_strlit("text-");
        reveal_strlit("rounded-");
        reveal_strlit("max-w-");
        reveal_strlit("max-h-");
        reveal_strlit("min-w-");
        reveal_strlit("min-h-");
        reveal_strlit("top-");
        reveal_strlit("bottom-");
        reveal_strlit("left-");
        assert("left-"@[0] != "text-"@[0]);
        assert(length_property("left-"@) == Some(LengthProperty::Left));
        lemma_arbitrary_px_class("left-"@, n, palette);
    }
    assert(class_rule(arbitrary_px_class("right-"@, n), palette)
        == (ModifierView::Base, StyleView::Length(LengthProperty::Right, n, false))) by {
        reveal_strlit("w-");
        reveal_strlit("h-");
        reveal_strlit("p-");
        reveal_strlit("px-");
        reveal_strlit("py-");
        reveal_strlit("m-");
        reveal_strlit("mt-");
        reveal_strlit("mb-");
        reveal_strlit("ml-");
        reveal_strlit("mr-");
        reveal_strlit("mx-");
        reveal_strlit("my-");
        reveal_strlit("gap-");
        reveal_strlit("text-");
        reveal_strlit("rounded-");
        reveal_strlit("max-w-");
        reveal_strlit("max-h-");
        reveal_strlit("min-w-");
        reveal_strlit("min-h-");
        reveal_strlit("top-");
        reveal_strlit("bottom-");
        reveal_strlit("left-");
        reveal_strlit("right-");
        assert("right-"@[0] != "max-w-"@[0]);
        assert("right-"@[0] != "max-h-"@[0]);
        assert("right-"@[0] != "min-w-"@[0]);
        assert("right-"@[0] != "min-h-"@[0]);
        assert(length_property("right-"@) == Some(LengthProperty::Right));
        lemma_arbitrary_px_class("right-"@, n, palette);
    }
    assert(class_rule(arbitrary_px_class("inset-"@, n), palette)
        == (ModifierView::Base, StyleView::Length(LengthProperty::Inset, n, false))) by {
        reveal_strlit("w-");
        reveal_strlit("h-");
        reveal_strlit("p-");
        reveal_strlit("px-");
        reveal_strlit("py-");
        reveal_strlit("m-");
        reveal_strlit("mt-");
        reveal_strlit("mb-");
        reveal_strlit("ml-");
        reveal_strlit("mr-");
        reveal_strlit("mx-");
        reveal_strlit("my-");
        reveal_strlit("gap-");
        reveal_strlit("text-");
        reveal_strlit("rounded-");
        reveal_strlit("max-w-");
        reveal_strlit("max-h-");
        reveal_strlit("min-w-");
        reveal_strlit("min-h-");
        reveal_strlit("top-");
        reveal_strlit("bottom-");
        reveal_strlit("left-");
        reveal_strlit("right-");
        reveal_strlit("inset-");
        assert("inset-"@[0] != "max-w-"@[0]);
        assert("inset-"@[0] != "max-h-"@[0]);
        assert("inset-"@[0] != "min-w-"@[0]);
        assert("inset-"@[0] != "min-h-"@[0]);
        assert("inset-"@[0] != "right-"@[0]);
        assert(length_property("inset-"@) == Some(LengthProperty::Inset));
        lemma_arbitrary_px_class("inset-"@, n, palette);
    }
}

} // verus!

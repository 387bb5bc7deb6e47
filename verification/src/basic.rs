use vstd::prelude::*;
use crate::container::Stack;
use crate::style::{default_size, ColorRef, SpacingRef, WidgetSizeProps};
use crate::widget::Widget;

verus! {

/// A font size: one of the stylesheet's text sizes, or a size in pixels.
#[derive(Debug, Clone, Copy, PartialEq, Eq, Structural)]
pub enum FontSize {
    Small,
    Medium,
    Large,
    Px(u32),
}

/// How text wraps.
#[derive(Debug, Clone, Copy, PartialEq, Eq, Structural)]
pub enum Wrap {
    NoWrap,
    Glyph,
    Word,
    WordOrGlyph,
}

/// The weight of a font.
#[derive(Debug, Clone, Copy, PartialEq, Eq, Structural)]
pub enum Weight {
    ExtraLight,
    Light,
    Normal,
    Medium,
    Bold,
    ExtraBold,
}

/// A piece of text with its weight and slant.
#[derive(Debug, Clone)]
pub struct TextSegment {
    pub text: String,
    pub weight: Weight,
    pub italic: bool,
}

impl TextSegment {
    pub fn new(text: String) -> (t: Self)
        ensures
            t.text@ == text@,
            t.weight == Weight::Normal,
            !t.italic,
    {
        Self { text, weight: Weight::Normal, italic: false }
    }
}

/// The style of a text: its size, wrapping and color.
#[derive(Debug, Clone, Copy, PartialEq, Eq, Structural)]
pub struct TextStyle {
    pub font_size: FontSize,
    pub wrap: Wrap,
    pub color: ColorRef,
}

/// The style of text unless set otherwise: small, unwrapped, in the primary element color.
pub open spec fn default_text_style() -> TextStyle {
    TextStyle { font_size: FontSize::Small, wrap: Wrap::NoWrap, color: ColorRef::ElementPrimary }
}

impl Default for TextStyle {
    fn default() -> (s: Self)
        ensures
            s == default_text_style(),
    {
        Self { font_size: FontSize::Small, wrap: Wrap::NoWrap, color: ColorRef::ElementPrimary }
    }
}

/// A text widget.
#[derive(Debug, Clone)]
pub struct Text {
    pub text: Vec<TextSegment>,
    pub style: TextStyle,
    pub size: WidgetSizeProps,
}

impl Widget for Text {}

/// The size of a text unless set otherwise: a small margin.
pub open spec fn text_size() -> WidgetSizeProps {
    WidgetSizeProps { margin: Some(SpacingRef::Small), ..default_size() }
}

/// The text of a segment: its characters, weight and slant.
pub open spec fn segment_view(t: TextSegment) -> (Seq<char>, Weight, bool) {
    (t.text@, t.weight, t.italic)
}

/// A text of one segment, in the default style.
pub open spec fn is_plain_text(t: Text, text: Seq<char>, weight: Weight, italic: bool) -> bool {
    &&& t.text@.map_values(|s: TextSegment| segment_view(s)) == seq![(text, weight, italic)]
    &&& t.style == default_text_style()
    &&& t.size == text_size()
}

fn one_segment(text: String, weight: Weight, italic: bool) -> (t: Text)
    ensures
        is_plain_text(t, text@, weight, italic),
{
    let segments = vec![TextSegment { text, weight, italic }];
    let t = Text::formatted(segments);
    proof {
        assert(t.text@.map_values(|s: TextSegment| segment_view(s)) =~= seq![(text@, weight, italic)]);
    }
    t
}

impl Text {
    /// Text of the given segments, in the default style with a small margin.
    pub fn formatted(text: Vec<TextSegment>) -> (t: Self)
        ensures
            t.text@.map_values(|s: TextSegment| segment_view(s)) == text@.map_values(
                |s: TextSegment| segment_view(s),
            ),
            t.style == default_text_style(),
            t.size == text_size(),
    {
        Self {
            text,
            style: TextStyle::default(),
            size: WidgetSizeProps::default().with_margin(SpacingRef::Small),
        }
    }

    pub fn new(text: String) -> (t: Self)
        ensures
            is_plain_text(t, text@, Weight::Normal, false),
    {
        one_segment(text, Weight::Normal, false)
    }

    pub fn extra_bold(text: String) -> (t: Self)
        ensures
            is_plain_text(t, text@, Weight::ExtraBold, false),
    {
        one_segment(text, Weight::ExtraBold, false)
    }

    pub fn bold(text: String) -> (t: Self)
        ensures
            is_plain_text(t, text@, Weight::Bold, false),
    {
        one_segment(text, Weight::Bold, false)
    }

    pub fn medium(text: String) -> (t: Self)
        ensures
            is_plain_text(t, text@, Weight::Medium, false),
    {
        one_segment(text, Weight::Medium, false)
    }

    pub fn light(text: String) -> (t: Self)
        ensures
            is_plain_text(t, text@, Weight::Light, false),
    {
        one_segment(text, Weight::Light, false)
    }

    pub fn extra_light(text: String) -> (t: Self)
        ensures
            is_plain_text(t, text@, Weight::ExtraLight, false),
    {
        one_segment(text, Weight::ExtraLight, false)
    }

    pub fn italic(text: String) -> (t: Self)
        ensures
            is_plain_text(t, text@, Weight::Normal, true),
    {
        one_segment(text, Weight::Normal, true)
    }

    /// Sets the font size.
    pub fn with_font_size(self, font_size: FontSize) -> (t: Self)
        ensures
            t.text@ == self.text@,
            t.style == (TextStyle { font_size, ..self.style }),
            t.size == self.size,
    {
        let mut t = self;
        t.style.font_size = font_size;
        t
    }

    /// Sets the text color.
    pub fn with_color(self, color: ColorRef) -> (t: Self)
        ensures
            t.text@ == self.text@,
            t.style == (TextStyle { color, ..self.style }),
            t.size == self.size,
    {
        let mut t = self;
        t.style.color = color;
        t
    }

    pub fn with_wrap(self, wrap: Wrap) -> (t: Self)
        ensures
            t.text@ == self.text@,
            t.style == (TextStyle { wrap, ..self.style }),
            t.size == self.size,
    {
        let mut t = self;
        t.style.wrap = wrap;
        t
    }

    pub fn with_style(self, style: TextStyle) -> (t: Self)
        ensures
            t.text@ == self.text@,
            t.style == style,
            t.size == self.size,
    {
        let mut t = self;
        t.style = style;
        t
    }

    pub fn with_margin(self, margin: SpacingRef) -> (t: Self)
        ensures
            t.text@ == self.text@,
            t.style == self.style,
            t.size == (WidgetSizeProps { margin: Some(margin), ..self.size }),
    {
        let mut t = self;
        t.size = t.size.with_margin(margin);
        t
    }
}

/// A text with a small margin.
pub fn label(text: String) -> (t: Text)
    ensures
        is_plain_text(t, text@, Weight::Normal, false),
{
    Text::new(text).with_margin(SpacingRef::Small)
}

/// A text with a small margin in a stack with a small padding.
pub fn header(text: String) -> (s: Stack<Text>)
    ensures
        is_plain_text(s.items, text@, Weight::Normal, false),
        s.size == (WidgetSizeProps { padding: Some(SpacingRef::Small), ..default_size() }),
        s.style.background is None,
{
    Stack::new(Text::new(text).with_margin(SpacingRef::Small)).with_padding(SpacingRef::Small)
}

/// A large bold text with a small margin.
pub fn title(text: String) -> (t: Text)
    ensures
        t.text@.map_values(|s: TextSegment| segment_view(s)) == seq![(text@, Weight::Bold, false)],
        t.style == (TextStyle { font_size: FontSize::Large, ..default_text_style() }),
        t.size == text_size(),
{
    Text::bold(text).with_font_size(FontSize::Large).with_margin(SpacingRef::Small)
}

/// A medium-weight text of medium size in the secondary color, with a small margin.
pub fn subtitle(text: String) -> (t: Text)
    ensures
        t.text@.map_values(|s: TextSegment| segment_view(s)) == seq![(text@, Weight::Medium, false)],
        t.style == (TextStyle {
            font_size: FontSize::Medium,
            color: ColorRef::ElementSecondary,
            ..default_text_style()
        }),
        t.size == text_size(),
{
    Text::medium(text).with_color(ColorRef::ElementSecondary).with_font_size(FontSize::Medium).with_margin(
        SpacingRef::Small,
    )
}

/// A bold text in the secondary color, with a small margin.
pub fn bold(text: String) -> (t: Text)
    ensures
        t.text@.map_values(|s: TextSegment| segment_view(s)) == seq![(text@, Weight::Bold, false)],
        t.style == (TextStyle { color: ColorRef::ElementSecondary, ..default_text_style() }),
        t.size == text_size(),
{
    Text::bold(text).with_color(ColorRef::ElementSecondary).with_margin(SpacingRef::Small)
}

/// A filled rectangle.
#[derive(Debug, Clone, Copy, PartialEq, Eq, Structural)]
pub struct Rectangle {
    pub color: ColorRef,
    pub size: WidgetSizeProps,
}

impl Widget for Rectangle {}

impl Rectangle {
    pub fn new(color: ColorRef) -> (r: Self)
        ensures
            r.color == color,
            r.size == default_size(),
    {
        Self { color, size: WidgetSizeProps::default() }
    }
}

} // verus!

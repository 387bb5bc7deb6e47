use vstd::prelude::*;
use crate::style::{
    default_size, hidden_style, radio_style, selectable_style, toned_style, ButtonStyle, ColorRef,
    RadiusRef, SpacingRef, Tone, WidgetSizeProps,
};
use crate::basic::{is_plain_text, Text, Weight};
use crate::widget::Widget;
use vstd::std_specs::cmp::PartialEqSpec;

verus! {

/// The base interactive widget: its click, double click and press handlers (`C` and `P`), its
/// tooltip (`T`) and size, around the widget `inner`.
pub struct InteractiveWidget<W, C, P, T> {
    pub on_click: Option<C>,
    pub double_click: Option<C>,
    pub on_press: Option<P>,
    pub size: WidgetSizeProps,
    pub tooltip: Option<T>,
    pub inner: W,
}

impl<W, C, P, T> Widget for InteractiveWidget<W, C, P, T> {}

impl<W, C, P, T> InteractiveWidget<W, C, P, T> {
    pub fn new(inner: W) -> (w: Self)
        ensures
            w.on_click is None,
            w.double_click is None,
            w.on_press is None,
            w.tooltip is None,
            w.size == default_size(),
            w.inner == inner,
    {
        Self {
            on_click: None,
            double_click: None,
            on_press: None,
            size: WidgetSizeProps::default(),
            tooltip: None,
            inner,
        }
    }

    pub fn on_click(self, on_click: C) -> (w: Self)
        ensures
            w == (Self { on_click: Some(on_click), ..self }),
    {
        Self { on_click: Some(on_click), ..self }
    }

    pub fn on_double_click(self, on_double_click: C) -> (w: Self)
        ensures
            w == (Self { double_click: Some(on_double_click), ..self }),
    {
        Self { double_click: Some(on_double_click), ..self }
    }

    /// Sets the double click handler, or removes it.
    pub fn on_double_click_opt(self, on_double_click: Option<C>) -> (w: Self)
        ensures
            w == (Self { double_click: on_double_click, ..self }),
    {
        match on_double_click {
            Some(c) => Self { double_click: Some(c), ..self },
            None => Self { double_click: None, ..self },
        }
    }

    pub fn on_pointer_press(self, on_press: P) -> (w: Self)
        ensures
            w == (Self { on_press: Some(on_press), ..self }),
    {
        Self { on_press: Some(on_press), ..self }
    }

    pub fn with_tooltip(self, tooltip: T) -> (w: Self)
        ensures
            w == (Self { tooltip: Some(tooltip), ..self }),
    {
        Self { tooltip: Some(tooltip), ..self }
    }

    pub fn with_tooltip_opt(self, tooltip: Option<T>) -> (w: Self)
        ensures
            w == (Self { tooltip, ..self }),
    {
        Self { tooltip, ..self }
    }

    pub fn with_size_props(self, size: WidgetSizeProps) -> (w: Self)
        ensures
            w == (Self { size, ..self }),
    {
        Self { size, ..self }
    }

    /// Which handlers the click state machine works with: a double click handler, and a click
    /// handler.
    pub fn click_handlers(&self) -> (h: (bool, bool))
        ensures
            h == (self.double_click is Some, self.on_click is Some),
    {
        (self.double_click.is_some(), self.on_click.is_some())
    }
}

/// A button that calls its handler when clicked; without a handler a click does nothing.
pub struct Button<W, C, T> {
    pub on_click: Option<C>,
    pub tooltip: Option<T>,
    pub label: W,
    pub style: ButtonStyle,
    pub is_pressed: bool,
}

impl<W, C, T> Widget for Button<W, C, T> {}

impl<W, C, T> Button<W, C, T> {
    pub fn new(label: W) -> (b: Self)
        ensures
            b.on_click is None,
            b.tooltip is None,
            b.label == label,
            b.style == toned_style(Tone::Neutral),
            !b.is_pressed,
    {
        Self { on_click: None, label, style: ButtonStyle::default(), is_pressed: false, tooltip: None }
    }

    /// Sets the click handler.
    pub fn on_click(self, on_click: C) -> (b: Self)
        ensures
            b == (Self { on_click: Some(on_click), ..self }),
    {
        Self { on_click: Some(on_click), ..self }
    }

    pub fn with_tooltip(self, tooltip: T) -> (b: Self)
        ensures
            b == (Self { tooltip: Some(tooltip), ..self }),
    {
        Self { tooltip: Some(tooltip), ..self }
    }

    pub fn success(self) -> (b: Self)
        ensures
            b == (Self { style: toned_style(Tone::Success), ..self }),
    {
        Self { style: ButtonStyle::success(), ..self }
    }

    pub fn danger(self) -> (b: Self)
        ensures
            b == (Self { style: toned_style(Tone::Danger), ..self }),
    {
        Self { style: ButtonStyle::danger(), ..self }
    }

    pub fn warning(self) -> (b: Self)
        ensures
            b == (Self { style: toned_style(Tone::Warning), ..self }),
    {
        Self { style: ButtonStyle::warning(), ..self }
    }

    pub fn accent(self) -> (b: Self)
        ensures
            b == (Self { style: toned_style(Tone::Accent), ..self }),
    {
        Self { style: ButtonStyle::accent(), ..self }
    }

    pub fn is_pressed(self, pressed: bool) -> (b: Self)
        ensures
            b == (Self { is_pressed: pressed, ..self }),
    {
        Self { is_pressed: pressed, ..self }
    }

    pub fn with_style(self, style: ButtonStyle) -> (b: Self)
        ensures
            b == (Self { style, ..self }),
    {
        Self { style, ..self }
    }

    pub fn with_size_props(self, size: WidgetSizeProps) -> (b: Self)
        ensures
            b == (Self { style: ButtonStyle { size, ..self.style }, ..self }),
    {
        let style = ButtonStyle { size, ..self.style };
        Self { style, ..self }
    }
}

impl<C, T> Button<Text, C, T> {
    /// A button labeled with a text.
    pub fn label(label: String) -> (b: Self)
        ensures
            is_plain_text(b.label, label@, Weight::Normal, false),
            b.on_click is None,
            b.tooltip is None,
            b.style == toned_style(Tone::Neutral),
            !b.is_pressed,
    {
        Self::new(Text::new(label))
    }
}

/// The size of a checkbox: medium spacing, default corners, at least 28 pixels wide and high.
pub open spec fn checkbox_size() -> WidgetSizeProps {
    WidgetSizeProps {
        padding: Some(SpacingRef::Medium),
        margin: Some(SpacingRef::Medium),
        corner_radius: Some(RadiusRef::Default),
        min_size: Some(crate::style::PxSize { width: 28, height: 28 }),
        maximize: false,
    }
}

/// A checkbox: pressing it sends the opposite of its value through `state`.
pub struct Checkbox<W, S> {
    pub state: S,
    pub style: ButtonStyle,
    pub size: WidgetSizeProps,
    pub label: W,
}

impl<W, S> Widget for Checkbox<W, S> {}

impl<W, S> Checkbox<W, S> {
    pub fn new(label: W, state: S) -> (c: Self)
        ensures
            c.state == state,
            c.label == label,
            c.style == toned_style(Tone::Neutral),
            c.size == checkbox_size(),
    {
        Self {
            state,
            style: ButtonStyle::default(),
            size: WidgetSizeProps::default().with_padding(SpacingRef::Medium).with_margin(
                SpacingRef::Medium,
            ).with_corner_radius(RadiusRef::Default).with_min_size(28, 28),
            label,
        }
    }

    pub fn with_style(self, style: ButtonStyle) -> (c: Self)
        ensures
            c == (Self { style, ..self }),
    {
        Self { style, ..self }
    }
}

impl<S> Checkbox<Text, S> {
    /// A checkbox labeled with a text.
    pub fn label(label: String, state: S) -> (c: Self)
        ensures
            is_plain_text(c.label, label@, Weight::Normal, false),
            c.state == state,
            c.style == toned_style(Tone::Neutral),
            c.size == checkbox_size(),
    {
        Self::new(Text::new(label), state)
    }
}

/// A radio button: pressing it sets its value through `state`.
pub struct Radio<S, T> {
    pub state: S,
    pub tooltip: Option<T>,
    pub style: ButtonStyle,
}

impl<S, T> Widget for Radio<S, T> {}

impl<S, T> Radio<S, T> {
    pub fn new(state: S) -> (r: Self)
        ensures
            r.state == state,
            r.tooltip is None,
            r.style == radio_style(),
    {
        Self { state, style: ButtonStyle::radio(), tooltip: None }
    }

    pub fn with_tooltip(self, tooltip: T) -> (r: Self)
        ensures
            r == (Self { tooltip: Some(tooltip), ..self }),
    {
        Self { tooltip: Some(tooltip), ..self }
    }

    pub fn with_style(self, style: ButtonStyle) -> (r: Self)
        ensures
            r == (Self { style, ..self }),
    {
        Self { style, ..self }
    }
}

impl<S, T> Radio<SelectionOption<S, usize>, T> {
    /// A radio button for entry `index` of the selection `state`: selected when the selection is
    /// `index`, and pressing it stores `index`.
    pub fn new_indexed(state: S, index: usize) -> (r: Self)
        ensures
            r.state == (SelectionOption { state, value: index }),
            r.tooltip is None,
            r.style == radio_style(),
    {
        Self::new(SelectionOption::new(state, index))
    }
}

impl<S, V: Copy, T> Radio<SelectionOption<S, V>, T> {
    /// A radio button for the value `value` of the selection `state`: selected when the
    /// selection holds `value`, and pressing it stores `value`.
    pub fn new_value(state: S, value: V) -> (r: Self)
        ensures
            r.state == (SelectionOption { state, value }),
            r.tooltip is None,
            r.style == radio_style(),
    {
        Self::new(SelectionOption::new(state, value))
    }
}


/// The boolean state of one option of a selection held in `state`: the option shows as selected
/// when the selection holds `value`, and selecting it, whatever boolean is written, stores
/// `value`.
pub struct SelectionOption<S, V> {
    pub state: S,
    pub value: V,
}

impl<S, V: Copy> SelectionOption<S, V> {
    pub fn new(state: S, value: V) -> (o: Self)
        ensures
            o.state == state,
            o.value == value,
    {
        Self { state, value }
    }

    /// What writing `selected` to the option stores in the selection: the option's value.
    pub fn write(&self, selected: bool) -> (v: V)
        ensures
            v == self.value,
    {
        self.value
    }
}

impl<S> SelectionOption<S, usize> {
    /// Whether the option shows as selected when the selection holds `current`.
    pub fn read(&self, current: usize) -> (b: bool)
        ensures
            b == (current == self.value),
    {
        current == self.value
    }
}

impl<S, V: Copy + PartialEq + PartialEqSpec> SelectionOption<S, V> {
    /// Whether the option shows as selected when the selection holds `current`, by `==` on the
    /// values.
    pub fn read_value(&self, current: &V) -> (b: bool)
        ensures
            V::obeys_eq_spec() ==> b == current.eq_spec(&self.value),
    {
        *current == self.value
    }
}

/// An entry that pressing selects, through `state`.
pub struct Selectable<W, S, T> {
    pub state: S,
    pub tooltip: Option<T>,
    pub style: ButtonStyle,
    pub label: W,
}

impl<W, S, T> Widget for Selectable<W, S, T> {}

impl<W, S, T> Selectable<W, S, T> {
    pub fn new(label: W, state: S) -> (s: Self)
        ensures
            s.state == state,
            s.tooltip is None,
            s.style == selectable_style(),
            s.label == label,
    {
        Self { state, style: ButtonStyle::selectable_entry(), label, tooltip: None }
    }

    pub fn with_tooltip(self, tooltip: T) -> (s: Self)
        ensures
            s == (Self { tooltip: Some(tooltip), ..self }),
    {
        Self { tooltip: Some(tooltip), ..self }
    }

    pub fn with_style(self, style: ButtonStyle) -> (s: Self)
        ensures
            s == (Self { style, ..self }),
    {
        Self { style, ..self }
    }
}

impl<W, S, T> Selectable<W, SelectionOption<S, usize>, T> {
    /// An entry for item `index` of the selection `state`: selected when the selection is
    /// `index`, and pressing it stores `index`.
    pub fn new_indexed(label: W, state: S, index: usize) -> (s: Self)
        ensures
            s.state == (SelectionOption { state, value: index }),
            s.tooltip is None,
            s.style == selectable_style(),
            s.label == label,
    {
        Self::new(label, SelectionOption::new(state, index))
    }
}

impl<W, S, V: Copy, T> Selectable<W, SelectionOption<S, V>, T> {
    /// An entry for the value `value` of the selection `state`: selected when the selection
    /// holds `value`, and pressing it stores `value`.
    pub fn new_value(label: W, state: S, value: V) -> (s: Self)
        ensures
            s.state == (SelectionOption { state, value }),
            s.tooltip is None,
            s.style == selectable_style(),
            s.label == label,
    {
        Self::new(label, SelectionOption::new(state, value))
    }
}

impl<S, T> Selectable<Text, S, T> {
    /// An entry labeled with a text.
    pub fn label(label: String, state: S) -> (s: Self)
        ensures
            is_plain_text(s.label, label@, Weight::Normal, false),
            s.state == state,
            s.tooltip is None,
            s.style == selectable_style(),
    {
        Self::new(Text::new(label), state)
    }
}

/// The chevron of a collapsible: the stylesheet's icon, or a given text.
#[derive(Debug, Clone)]
pub enum Chevron {
    Icon,
    Text(String),
}

/// The style of a collapsible: its header button, content background and chevron.
pub struct CollapsibleStyle {
    pub button: ButtonStyle,
    pub content: ColorRef,
    pub chevron: Chevron,
}

impl Default for CollapsibleStyle {
    fn default() -> (s: Self)
        ensures
            s.button == hidden_style(),
            s.content == ColorRef::SurfaceSecondary,
            s.chevron is Icon,
    {
        Self { button: ButtonStyle::hidden(), content: ColorRef::SurfaceSecondary, chevron: Chevron::Icon }
    }
}

impl CollapsibleStyle {
    pub fn with_chevron(self, chevron: Chevron) -> (s: Self)
        ensures
            s.button == self.button,
            s.content == self.content,
            s.chevron == chevron,
    {
        Self { chevron, ..self }
    }

    pub fn with_button_style(self, style: ButtonStyle) -> (s: Self)
        ensures
            s.button == style,
            s.content == self.content,
            s.chevron == self.chevron,
    {
        Self { button: style, ..self }
    }

    pub fn with_background(self, content: ColorRef) -> (s: Self)
        ensures
            s.button == self.button,
            s.content == content,
            s.chevron == self.chevron,
    {
        Self { content, ..self }
    }
}

/// The content of a collapsible: a widget, or a function that makes it when first expanded.
pub enum CollapsibleInner<W, F> {
    Ready(W),
    Deferred(F),
}

/// A header that can be clicked to collapse or expand the content below it.
pub struct Collapsible<L, W, F, C> {
    pub label: L,
    pub size: WidgetSizeProps,
    pub inner: CollapsibleInner<W, F>,
    pub style: CollapsibleStyle,
    pub can_collapse: bool,
    pub on_click: Option<C>,
    pub collapsed: bool,
    pub indent: bool,
}

impl<L, W, F, C> Widget for Collapsible<L, W, F, C> {}

/// A collapsible as it starts: expanded, collapsible, without indent or click handler.
pub open spec fn fresh_collapsible<L, W, F, C>(c: Collapsible<L, W, F, C>, label: L) -> bool {
    &&& c.label == label
    &&& c.size == default_size()
    &&& c.style.button == hidden_style()
    &&& c.style.content == ColorRef::SurfaceSecondary
    &&& c.style.chevron is Icon
    &&& c.can_collapse
    &&& c.on_click is None
    &&& !c.collapsed
    &&& !c.indent
}

impl<L, W, F, C> Collapsible<L, W, F, C> {
    pub fn new(label: L, inner: W) -> (c: Self)
        ensures
            fresh_collapsible(c, label),
            c.inner == CollapsibleInner::<W, F>::Ready(inner),
    {
        Self {
            size: WidgetSizeProps::default(),
            inner: CollapsibleInner::Ready(inner),
            label,
            style: CollapsibleStyle::default(),
            can_collapse: true,
            on_click: None,
            collapsed: false,
            indent: false,
        }
    }

    /// Defers making the content until the collapsible is first expanded.
    pub fn deferred(label: L, inner: F) -> (c: Self)
        ensures
            fresh_collapsible(c, label),
            c.inner == CollapsibleInner::<W, F>::Deferred(inner),
    {
        Self {
            size: WidgetSizeProps::default(),
            inner: CollapsibleInner::Deferred(inner),
            label,
            style: CollapsibleStyle::default(),
            can_collapse: true,
            on_click: None,
            collapsed: false,
            indent: false,
        }
    }

    pub fn on_click(self, on_click: C) -> (c: Self)
        ensures
            c == (Self { on_click: Some(on_click), ..self }),
    {
        Self { on_click: Some(on_click), ..self }
    }

    pub fn can_collapse(self, can_collapse: bool) -> (c: Self)
        ensures
            c == (Self { can_collapse, ..self }),
    {
        Self { can_collapse, ..self }
    }

    pub fn collapsed(self, collapsed: bool) -> (c: Self)
        ensures
            c == (Self { collapsed, ..self }),
    {
        Self { collapsed, ..self }
    }

    pub fn indent(self, indent: bool) -> (c: Self)
        ensures
            c == (Self { indent, ..self }),
    {
        Self { indent, ..self }
    }

    pub fn with_size_props(self, size: WidgetSizeProps) -> (c: Self)
        ensures
            c == (Self { size, ..self }),
    {
        Self { size, ..self }
    }

    pub fn with_style(self, style: CollapsibleStyle) -> (c: Self)
        ensures
            c.style == style,
            c.label == self.label,
            c.inner == self.inner,
            c.collapsed == self.collapsed,
    {
        Self { style, ..self }
    }
}

/// How long, in milliseconds, the cursor rests on a widget before its tooltip opens.
pub const TOOLTIP_DELAY_MS: u64 = 400;

/// The tooltip of a widget: its delay and what makes its content.
pub struct TooltipOptions<F> {
    pub delay_ms: u64,
    pub create_tooltip: F,
}

impl<F> TooltipOptions<F> {
    pub fn new(create_tooltip: F) -> (o: Self)
        ensures
            o.delay_ms == TOOLTIP_DELAY_MS,
            o.create_tooltip == create_tooltip,
    {
        Self { delay_ms: TOOLTIP_DELAY_MS, create_tooltip }
    }

    pub fn with_delay(self, delay_ms: u64) -> (o: Self)
        ensures
            o.delay_ms == delay_ms,
            o.create_tooltip == self.create_tooltip,
    {
        Self { delay_ms, ..self }
    }
}

/// A widget that shows a tooltip on hover.
pub struct Tooltip<T, F> {
    pub widget: T,
    pub options: TooltipOptions<F>,
}

impl<T, F> Widget for Tooltip<T, F> {}

impl<T, F> Tooltip<T, F> {
    pub fn new(widget: T, create_tooltip: F) -> (t: Self)
        ensures
            t.widget == widget,
            t.options.delay_ms == TOOLTIP_DELAY_MS,
            t.options.create_tooltip == create_tooltip,
    {
        Self { widget, options: TooltipOptions::new(create_tooltip) }
    }

    /// Sets the delay.
    pub fn with_delay(self, delay_ms: u64) -> (t: Self)
        ensures
            t.widget == self.widget,
            t.options.delay_ms == delay_ms,
            t.options.create_tooltip == self.options.create_tooltip,
    {
        Self { widget: self.widget, options: self.options.with_delay(delay_ms) }
    }
}

impl<W, F, C> Collapsible<Text, W, F, C> {
    /// A collapsible with a text header.
    pub fn label(text: String, inner: W) -> (c: Self)
        ensures
            is_plain_text(c.label, text@, Weight::Normal, false),
            c.size == default_size(),
            c.style.button == hidden_style(),
            c.can_collapse,
            c.on_click is None,
            !c.collapsed,
            !c.indent,
            c.inner == CollapsibleInner::<W, F>::Ready(inner),
    {
        Self::new(Text::new(text), inner)
    }
}

} // verus!

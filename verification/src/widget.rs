use vstd::prelude::*;
use crate::style::{default_size, WidgetSizeProps};

verus! {

/// A description of a part of the interface, which the runtime mounts into the world.
pub trait Widget {}

/// A widget that can be mounted from behind a box.
pub trait BoxedWidget {}

impl<T: Widget> BoxedWidget for T {}

/// A list of widgets, attached one by one as children.
pub trait WidgetCollection {}

impl<W: Widget> WidgetCollection for W {}

impl WidgetCollection for () {}

impl<W: Widget> WidgetCollection for Vec<W> {}

impl<A: Widget, B: Widget> WidgetCollection for (A, B) {}

impl<A: Widget, B: Widget, C: Widget> WidgetCollection for (A, B, C) {}

/// A widget that mounts nothing.
#[derive(Debug, Clone, Copy, PartialEq, Eq, Structural)]
pub struct EmptyWidget;

impl Widget for EmptyWidget {}

/// An explicitly named widget, for diagnostics.
#[derive(Debug, Clone)]
pub struct Named<W> {
    pub widget: W,
    pub name: String,
}

impl<W: Widget> Widget for Named<W> {}

/// Names a widget.
pub fn with_name<W: Widget>(widget: W, name: String) -> (n: Named<W>)
    ensures
        n.widget == widget,
        n.name@ == name@,
{
    Named { widget, name }
}

/// A widget shown once a future resolves.
pub struct FutureWidget<S>(pub S);

impl<S> FutureWidget<S> {
    pub fn new(future: S) -> (w: Self)
        ensures
            w.0 == future,
    {
        Self(future)
    }
}

impl<S> Widget for FutureWidget<S> {}

/// A placeholder widget, replaced by the widget that a future resolves to.
pub struct SuspenseWidget<T, F> {
    pub placeholder: T,
    pub future: F,
}

impl<T, F> SuspenseWidget<T, F> {
    pub fn new(placeholder: T, future: F) -> (w: Self)
        ensures
            w.placeholder == placeholder,
            w.future == future,
    {
        Self { placeholder, future }
    }
}

impl<T, F> Widget for SuspenseWidget<T, F> {}

/// A widget that shows the latest widget a signal yields.
pub struct SignalWidget<S>(pub S);

impl<S> SignalWidget<S> {
    pub fn new(signal: S) -> (w: Self)
        ensures
            w.0 == signal,
    {
        Self(signal)
    }
}

impl<S> Widget for SignalWidget<S> {}

/// A widget that shows the latest widget a stream yields.
pub struct StreamWidget<S>(pub S);

impl<S> StreamWidget<S> {
    pub fn new(stream: S) -> (w: Self)
        ensures
            w.0 == stream,
    {
        Self(stream)
    }
}

impl<S> Widget for StreamWidget<S> {}

/// A spinning throbber next to a text.
#[derive(Debug, Clone)]
pub struct LoadingSpinner {
    pub text: String,
}

impl LoadingSpinner {
    pub fn new(text: String) -> (s: Self)
        ensures
            s.text@ == text@,
    {
        Self { text }
    }
}

impl Widget for LoadingSpinner {}

/// The child that a signal or stream widget shows: each new widget replaces the previous one.
#[derive(Debug, Clone, Copy, PartialEq, Eq, Structural)]
pub struct ChildSlot {
    pub child: Option<u64>,
}

impl ChildSlot {
    pub fn new() -> (s: Self)
        ensures
            s.child is None,
    {
        Self { child: None }
    }

    /// Records the newly attached child and returns the previous one, which is to be detached.
    pub fn replace(&mut self, attached: u64) -> (detach: Option<u64>)
        ensures
            detach == old(self).child,
            final(self).child == Some(attached),
    {
        let previous = self.child;
        self.child = Some(attached);
        previous
    }
}

/// A widget shown for a limited time, in milliseconds, then detached.
pub struct TimedWidget<W> {
    pub widget: W,
    pub lifetime_ms: u64,
}

impl<W> TimedWidget<W> {
    pub fn new(widget: W, lifetime_ms: u64) -> (t: Self)
        ensures
            t.widget == widget,
            t.lifetime_ms == lifetime_ms,
    {
        Self { widget, lifetime_ms }
    }
}

impl<W: Widget> Widget for TimedWidget<W> {}

/// A list of items of which at most one is selected; `selection` is the handle through which the
/// selected index is read and set.
pub struct SelectList<I, S> {
    pub items: I,
    pub size: WidgetSizeProps,
    pub selection: S,
}

impl<I, S> SelectList<I, S> {
    pub fn new(selection: S, items: I) -> (l: Self)
        ensures
            l.items == items,
            l.selection == selection,
            l.size == default_size(),
    {
        Self { items, selection, size: WidgetSizeProps::default() }
    }
}

impl<I, S> Widget for SelectList<I, S> {}

/// Whether entry `index` shows as selected when the selection is `selection`.
pub fn is_selected(selection: Option<usize>, index: usize) -> (b: bool)
    ensures
        b == (selection == Some(index)),
{
    match selection {
        Some(i) => i == index,
        None => false,
    }
}

/// A button that opens a list of items to choose from; `selection` is the handle through which
/// the chosen item is sent.
pub struct Dropdown<T, I> {
    pub items: I,
    pub selection: T,
}

impl<T, I> Dropdown<T, I> {
    pub fn new(selection: T, items: I) -> (d: Self)
        ensures
            d.items == items,
            d.selection == selection,
    {
        Self { items, selection }
    }
}

impl<T, I> Widget for Dropdown<T, I> {}

/// A labeled text field bound to a value through the handle `value`.
pub struct InputField<V> {
    pub label: String,
    pub value: V,
}

impl<V> InputField<V> {
    pub fn new(label: String, value: V) -> (f: Self)
        ensures
            f.label@ == label@,
            f.value == value,
    {
        Self { label, value }
    }
}

impl<V> Widget for InputField<V> {}

} // verus!

use vstd::prelude::*;

verus! {

/// Where an item is placed along an axis.
#[derive(Debug, Clone, Copy, PartialEq, Eq, Structural)]
pub enum Align {
    Start,
    Center,
    End,
}

/// The main axis of a list.
#[derive(Debug, Clone, Copy, PartialEq, Eq, Structural)]
pub enum Direction {
    Horizontal,
    Vertical,
}

/// The alignment of a stack's items along both axes.
#[derive(Debug, Clone, Copy, PartialEq, Eq, Structural)]
pub struct LayoutAlignment {
    pub horizontal: Align,
    pub vertical: Align,
}

impl LayoutAlignment {
    pub fn new(horizontal: Align, vertical: Align) -> (a: Self)
        ensures
            a.horizontal == horizontal,
            a.vertical == vertical,
    {
        Self { horizontal, vertical }
    }

    /// Both axes centered.
    pub fn center() -> (a: Self)
        ensures
            a == centered_alignment(),
    {
        Self { horizontal: Align::Center, vertical: Align::Center }
    }
}

/// The alignment that stacks start with: both axes at the start.
pub open spec fn default_alignment() -> LayoutAlignment {
    LayoutAlignment { horizontal: Align::Start, vertical: Align::Start }
}

/// Both axes centered.
pub open spec fn centered_alignment() -> LayoutAlignment {
    LayoutAlignment { horizontal: Align::Center, vertical: Align::Center }
}

/// The layout that stacks start with: aligned at the start, neither clipping nor preserving size.
pub open spec fn default_stack_layout() -> StackLayout {
    StackLayout {
        alignment: default_alignment(),
        clip: AxisFlags { horizontal: false, vertical: false },
        preserve_size: AxisFlags { horizontal: false, vertical: false },
    }
}

/// The layout that lists start with: horizontal, not reversed, aligned at the start across,
/// neither containing margins nor stretching.
pub open spec fn default_flow_layout() -> FlowLayout {
    FlowLayout {
        direction: Direction::Horizontal,
        reverse: false,
        cross_align: Align::Start,
        contain_margins: false,
        stretch: false,
    }
}

impl Default for LayoutAlignment {
    fn default() -> (a: Self)
        ensures
            a == default_alignment(),
    {
        Self { horizontal: Align::Start, vertical: Align::Start }
    }
}

/// A flag per axis.
#[derive(Debug, Clone, Copy, PartialEq, Eq, Structural)]
pub struct AxisFlags {
    pub horizontal: bool,
    pub vertical: bool,
}

impl AxisFlags {
    pub fn new(horizontal: bool, vertical: bool) -> (f: Self)
        ensures
            f.horizontal == horizontal,
            f.vertical == vertical,
    {
        Self { horizontal, vertical }
    }
}

/// The layout of a stack: its alignment, and per axis whether it clips its content and whether
/// it keeps its minimum size while clipping.
#[derive(Debug, Clone, Copy, PartialEq, Eq, Structural)]
pub struct StackLayout {
    pub alignment: LayoutAlignment,
    pub clip: AxisFlags,
    pub preserve_size: AxisFlags,
}

impl Default for StackLayout {
    fn default() -> (l: Self)
        ensures
            l == default_stack_layout(),
    {
        Self {
            alignment: LayoutAlignment::default(),
            clip: AxisFlags::new(false, false),
            preserve_size: AxisFlags::new(false, false),
        }
    }
}

/// The layout of a list: the direction it flows in, whether it is reversed, how items are placed
/// across it, whether it contains the margins of its items and whether it stretches them.
#[derive(Debug, Clone, Copy, PartialEq, Eq, Structural)]
pub struct FlowLayout {
    pub direction: Direction,
    pub reverse: bool,
    pub cross_align: Align,
    pub contain_margins: bool,
    pub stretch: bool,
}

impl Default for FlowLayout {
    fn default() -> (l: Self)
        ensures
            l == default_flow_layout(),
    {
        Self {
            direction: Direction::Horizontal,
            reverse: false,
            cross_align: Align::Start,
            contain_margins: false,
            stretch: false,
        }
    }
}

} // verus!

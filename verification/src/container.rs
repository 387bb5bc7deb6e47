use vstd::prelude::*;
use crate::layout::{
    centered_alignment, default_alignment, default_flow_layout, default_stack_layout, Align, AxisFlags,
    Direction, FlowLayout, LayoutAlignment, StackLayout,
};
use crate::style::{default_size, Background, ColorRef, RadiusRef, SpacingRef, WidgetSizeProps};
use crate::widget::{Widget, WidgetCollection};

verus! {

/// The style of container widgets: their background.
#[derive(Debug, Clone, Copy, PartialEq, Eq, Structural)]
pub struct ContainerStyle {
    pub background: Option<Background>,
}

impl Default for ContainerStyle {
    fn default() -> (s: Self)
        ensures
            s.background is None,
    {
        Self { background: None }
    }
}

impl ContainerStyle {
    /// What mounting the style adds to the widget: its background, if it has one.
    pub fn mount(self) -> (b: Option<Background>)
        ensures
            b == self.background,
    {
        match self.background {
            Some(background) => Some(background),
            None => None,
        }
    }
}

/// A stack: its items laid over each other, aligned along both axes.
pub struct Stack<W> {
    pub items: W,
    pub layout: StackLayout,
    pub style: ContainerStyle,
    pub size: WidgetSizeProps,
}

impl<W: WidgetCollection> Widget for Stack<W> {}

impl<W> Stack<W> {
    pub fn new(items: W) -> (s: Self)
        where
            W: WidgetCollection,
        ensures
            s.items == items,
            s.layout == default_stack_layout(),
            s.style.background is None,
            s.size == default_size(),
    {
        Self {
            items,
            layout: StackLayout::default(),
            style: ContainerStyle::default(),
            size: WidgetSizeProps::default(),
        }
    }

    /// Sets the horizontal alignment.
    pub fn with_horizontal_alignment(self, align: Align) -> (s: Self)
        ensures
            s.items == self.items,
            s.layout == (StackLayout {
                alignment: LayoutAlignment { horizontal: align, ..self.layout.alignment },
                ..self.layout
            }),
            s.style == self.style,
            s.size == self.size,
    {
        let mut s = self;
        s.layout.alignment.horizontal = align;
        s
    }

    /// Sets the vertical alignment.
    pub fn with_vertical_alignment(self, align: Align) -> (s: Self)
        ensures
            s.items == self.items,
            s.layout == (StackLayout {
                alignment: LayoutAlignment { vertical: align, ..self.layout.alignment },
                ..self.layout
            }),
            s.style == self.style,
            s.size == self.size,
    {
        let mut s = self;
        s.layout.alignment.vertical = align;
        s
    }

    pub fn with_alignment(self, align: LayoutAlignment) -> (s: Self)
        ensures
            s.items == self.items,
            s.layout == (StackLayout { alignment: align, ..self.layout }),
            s.style == self.style,
            s.size == self.size,
    {
        let mut s = self;
        s.layout.alignment = align;
        s
    }

    pub fn with_background(self, background: Background) -> (s: Self)
        ensures
            s.items == self.items,
            s.layout == self.layout,
            s.style.background == Some(background),
            s.size == self.size,
    {
        let mut s = self;
        s.style.background = Some(background);
        s
    }

    pub fn with_background_opt(self, background: Option<Background>) -> (s: Self)
        ensures
            s.items == self.items,
            s.layout == self.layout,
            s.style.background == background,
            s.size == self.size,
    {
        let mut s = self;
        s.style.background = background;
        s
    }

    /// Sets per axis whether the content is clipped.
    pub fn with_clip(self, clip: AxisFlags) -> (s: Self)
        ensures
            s.items == self.items,
            s.layout == (StackLayout { clip, ..self.layout }),
            s.style == self.style,
            s.size == self.size,
    {
        let mut s = self;
        s.layout.clip = clip;
        s
    }

    /// Sets per axis whether the minimum size is kept while clipping.
    pub fn with_preserve_size(self, preserve_size: AxisFlags) -> (s: Self)
        ensures
            s.items == self.items,
            s.layout == (StackLayout { preserve_size, ..self.layout }),
            s.style == self.style,
            s.size == self.size,
    {
        let mut s = self;
        s.layout.preserve_size = preserve_size;
        s
    }

    pub fn with_style(self, style: ContainerStyle) -> (s: Self)
        ensures
            s.items == self.items,
            s.layout == self.layout,
            s.style == style,
            s.size == self.size,
    {
        let mut s = self;
        s.style = style;
        s
    }

    pub fn with_size_props(self, size: WidgetSizeProps) -> (s: Self)
        ensures
            s.items == self.items,
            s.layout == self.layout,
            s.style == self.style,
            s.size == size,
    {
        let mut s = self;
        s.size = size;
        s
    }

    pub fn with_padding(self, padding: SpacingRef) -> (s: Self)
        ensures
            s.items == self.items,
            s.layout == self.layout,
            s.style == self.style,
            s.size == (WidgetSizeProps { padding: Some(padding), ..self.size }),
    {
        let size = self.size.with_padding(padding);
        self.with_size_props(size)
    }

    pub fn with_margin(self, margin: SpacingRef) -> (s: Self)
        ensures
            s.items == self.items,
            s.layout == self.layout,
            s.style == self.style,
            s.size == (WidgetSizeProps { margin: Some(margin), ..self.size }),
    {
        let size = self.size.with_margin(margin);
        self.with_size_props(size)
    }

    pub fn with_corner_radius(self, radius: RadiusRef) -> (s: Self)
        ensures
            s.items == self.items,
            s.layout == self.layout,
            s.style == self.style,
            s.size == (WidgetSizeProps { corner_radius: Some(radius), ..self.size }),
    {
        let size = self.size.with_corner_radius(radius);
        self.with_size_props(size)
    }

    pub fn with_maximize(self, maximize: bool) -> (s: Self)
        ensures
            s.items == self.items,
            s.layout == self.layout,
            s.style == self.style,
            s.size == (WidgetSizeProps { maximize, ..self.size }),
    {
        let size = self.size.with_maximize(maximize);
        self.with_size_props(size)
    }
}

/// A list: its items one after the other along a direction.
pub struct List<W> {
    pub items: W,
    pub layout: FlowLayout,
    pub style: ContainerStyle,
    pub size: WidgetSizeProps,
}

impl<W: WidgetCollection> Widget for List<W> {}

impl<W: WidgetCollection> List<W> {
    pub fn new(items: W) -> (l: Self)
        ensures
            l.items == items,
            l.layout == default_flow_layout(),
            l.style.background is None,
            l.size == default_size(),
    {
        Self {
            items,
            layout: FlowLayout::default(),
            style: ContainerStyle::default(),
            size: WidgetSizeProps::default(),
        }
    }

    /// Sets the direction.
    pub fn with_direction(self, direction: Direction) -> (l: Self)
        ensures
            l.items == self.items,
            l.layout == (FlowLayout { direction, ..self.layout }),
            l.style == self.style,
            l.size == self.size,
    {
        let mut l = self;
        l.layout.direction = direction;
        l
    }

    pub fn with_reverse(self, reverse: bool) -> (l: Self)
        ensures
            l.items == self.items,
            l.layout == (FlowLayout { reverse, ..self.layout }),
            l.style == self.style,
            l.size == self.size,
    {
        let mut l = self;
        l.layout.reverse = reverse;
        l
    }

    /// Sets the alignment across the direction.
    pub fn with_cross_align(self, cross_align: Align) -> (l: Self)
        ensures
            l.items == self.items,
            l.layout == (FlowLayout { cross_align, ..self.layout }),
            l.style == self.style,
            l.size == self.size,
    {
        let mut l = self;
        l.layout.cross_align = cross_align;
        l
    }

    pub fn with_contain_margins(self, enable: bool) -> (l: Self)
        ensures
            l.items == self.items,
            l.layout == (FlowLayout { contain_margins: enable, ..self.layout }),
            l.style == self.style,
            l.size == self.size,
    {
        let mut l = self;
        l.layout.contain_margins = enable;
        l
    }

    pub fn with_stretch(self, enable: bool) -> (l: Self)
        ensures
            l.items == self.items,
            l.layout == (FlowLayout { stretch: enable, ..self.layout }),
            l.style == self.style,
            l.size == self.size,
    {
        let mut l = self;
        l.layout.stretch = enable;
        l
    }

    pub fn with_background(self, background: Background) -> (l: Self)
        ensures
            l.items == self.items,
            l.layout == self.layout,
            l.style.background == Some(background),
            l.size == self.size,
    {
        let mut l = self;
        l.style.background = Some(background);
        l
    }

    /// Centers the items across the direction.
    pub fn center(self) -> (l: Self)
        ensures
            l.items == self.items,
            l.layout == (FlowLayout { cross_align: Align::Center, ..self.layout }),
            l.style == self.style,
            l.size == self.size,
    {
        let mut l = self;
        l.layout.cross_align = Align::Center;
        l
    }

    pub fn with_style(self, style: ContainerStyle) -> (l: Self)
        ensures
            l.items == self.items,
            l.layout == self.layout,
            l.style == style,
            l.size == self.size,
    {
        let mut l = self;
        l.style = style;
        l
    }

    pub fn with_size_props(self, size: WidgetSizeProps) -> (l: Self)
        ensures
            l.items == self.items,
            l.layout == self.layout,
            l.style == self.style,
            l.size == size,
    {
        let mut l = self;
        l.size = size;
        l
    }
}

/// Items placed freely, each at its own offset.
pub struct Float<W> {
    pub items: W,
}

impl<W: WidgetCollection> Widget for Float<W> {}

impl<W> Float<W> {
    pub fn new(items: W) -> (f: Self)
        ensures
            f.items == items,
    {
        Self { items }
    }
}

/// A horizontal list.
pub fn row<W: WidgetCollection>(widgets: W) -> (l: List<W>)
    ensures
        l.items == widgets,
        l.layout == (FlowLayout { direction: Direction::Horizontal, ..default_flow_layout() }),
        l.style.background is None,
        l.size == default_size(),
{
    List::new(widgets).with_direction(Direction::Horizontal)
}

/// A vertical list.
pub fn col<W: WidgetCollection>(widgets: W) -> (l: List<W>)
    ensures
        l.items == widgets,
        l.layout == (FlowLayout { direction: Direction::Vertical, ..default_flow_layout() }),
        l.style.background is None,
        l.size == default_size(),
{
    List::new(widgets).with_direction(Direction::Vertical)
}

/// A stack that centers its content along both axes.
pub fn centered<W: WidgetCollection>(widget: W) -> (s: Stack<W>)
    ensures
        s.items == widget,
        s.layout == (StackLayout { alignment: centered_alignment(), ..default_stack_layout() }),
        s.style.background is None,
        s.size == default_size(),
{
    Stack::new(widget).with_horizontal_alignment(Align::Center).with_vertical_alignment(
        Align::Center,
    )
}

/// A stack that centers its content vertically.
pub fn centered_vertical<W: WidgetCollection>(widget: W) -> (s: Stack<W>)
    ensures
        s.items == widget,
        s.layout == (StackLayout {
            alignment: LayoutAlignment { vertical: Align::Center, ..default_alignment() },
            ..default_stack_layout()
        }),
        s.style.background is None,
        s.size == default_size(),
{
    Stack::new(widget).with_vertical_alignment(Align::Center)
}

/// A stack that centers its content horizontally.
pub fn centered_horizontal<W: WidgetCollection>(widget: W) -> (s: Stack<W>)
    ensures
        s.items == widget,
        s.layout == (StackLayout {
            alignment: LayoutAlignment { horizontal: Align::Center, ..default_alignment() },
            ..default_stack_layout()
        }),
        s.style.background is None,
        s.size == default_size(),
{
    Stack::new(widget).with_horizontal_alignment(Align::Center)
}

/// The size of a card: default separation around and within, default corners.
pub open spec fn card_size() -> WidgetSizeProps {
    WidgetSizeProps {
        padding: Some(SpacingRef::DefaultSeparation),
        margin: Some(SpacingRef::DefaultSeparation),
        corner_radius: Some(RadiusRef::Default),
        ..default_size()
    }
}

/// An inset content area with a margin.
pub fn card<W: WidgetCollection>(widget: W) -> (s: Stack<W>)
    ensures
        s.items == widget,
        s.layout == default_stack_layout(),
        s.style.background == Some(Background { color: ColorRef::SurfaceSecondary }),
        s.size == card_size(),
{
    Stack::new(widget).with_background(Background::new(ColorRef::SurfaceSecondary)).with_padding(
        SpacingRef::DefaultSeparation,
    ).with_margin(SpacingRef::DefaultSeparation).with_corner_radius(RadiusRef::Default)
}

/// A card on a raised surface.
pub fn raised_card<W: WidgetCollection>(widget: W) -> (s: Stack<W>)
    ensures
        s.items == widget,
        s.layout == default_stack_layout(),
        s.style.background == Some(Background { color: ColorRef::SurfaceTertiary }),
        s.size == card_size(),
{
    card(widget).with_background(Background::new(ColorRef::SurfaceTertiary))
}

/// An inset content area.
pub fn panel<W: WidgetCollection>(widget: W) -> (s: Stack<W>)
    ensures
        s.items == widget,
        s.layout == default_stack_layout(),
        s.style.background == Some(Background { color: ColorRef::SurfaceSecondary }),
        s.size == (WidgetSizeProps { padding: Some(SpacingRef::DefaultSeparation), ..default_size() }),
{
    Stack::new(widget).with_padding(SpacingRef::DefaultSeparation).with_background(
        Background::new(ColorRef::SurfaceSecondary),
    )
}

/// A stack that takes all the space it is given.
pub fn maximized<W: WidgetCollection>(widget: W) -> (s: Stack<W>)
    ensures
        s.items == widget,
        s.layout == default_stack_layout(),
        s.style.background is None,
        s.size == (WidgetSizeProps { maximize: true, ..default_size() }),
{
    Stack::new(widget).with_maximize(true)
}

/// A small raised area around a widget.
pub fn pill<W: Widget>(widget: W) -> (s: Stack<W>)
    ensures
        s.items == widget,
        s.layout == default_stack_layout(),
        s.style.background == Some(Background { color: ColorRef::SurfaceTertiary }),
        s.size == (WidgetSizeProps {
            padding: Some(SpacingRef::Small),
            margin: Some(SpacingRef::Small),
            corner_radius: Some(RadiusRef::Default),
            ..default_size()
        }),
{
    Stack::new(widget).with_background(Background::new(ColorRef::SurfaceTertiary)).with_padding(
        SpacingRef::Small,
    ).with_margin(SpacingRef::Small).with_corner_radius(RadiusRef::Default)
}

/// A scroll area around a widget, scrolling along the axes in `directions`; scroll bars show when
/// the content is larger than the space.
pub struct ScrollArea<W> {
    pub items: W,
    pub directions: AxisFlags,
    pub size: WidgetSizeProps,
    pub background: Option<Background>,
}

impl<W: Widget> Widget for ScrollArea<W> {}

impl<W> ScrollArea<W> {
    pub fn new(directions: AxisFlags, items: W) -> (s: Self)
        where
            W: Widget,
        ensures
            s.items == items,
            s.directions == directions,
            s.size == default_size(),
            s.background is None,
    {
        Self { items, directions, size: WidgetSizeProps::default(), background: None }
    }

    /// Scrolls vertically.
    pub fn vertical(items: W) -> (s: Self)
        where
            W: Widget,
        ensures
            s.items == items,
            s.directions == (AxisFlags { horizontal: false, vertical: true }),
            s.size == default_size(),
            s.background is None,
    {
        Self { items, directions: AxisFlags::new(false, true), size: WidgetSizeProps::default(), background: None }
    }

    /// Scrolls horizontally.
    pub fn horizontal(items: W) -> (s: Self)
        where
            W: Widget,
        ensures
            s.items == items,
            s.directions == (AxisFlags { horizontal: true, vertical: false }),
            s.size == default_size(),
            s.background is None,
    {
        Self { items, directions: AxisFlags::new(true, false), size: WidgetSizeProps::default(), background: None }
    }

    pub fn with_background(self, background: Background) -> (s: Self)
        ensures
            s.items == self.items,
            s.directions == self.directions,
            s.size == self.size,
            s.background == Some(background),
    {
        let mut s = self;
        s.background = Some(background);
        s
    }

    pub fn with_size_props(self, size: WidgetSizeProps) -> (s: Self)
        ensures
            s.items == self.items,
            s.directions == self.directions,
            s.size == size,
            s.background == self.background,
    {
        let mut s = self;
        s.size = size;
        s
    }
}

} // verus!

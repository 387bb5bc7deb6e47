use vstd::prelude::*;
use crate::color::Rgba8;

verus! {

/// The role of an interactive color: at rest, pressed or hovered.
#[derive(Debug, Clone, Copy, PartialEq, Eq, Structural)]
pub enum Role {
    Interactive,
    Pressed,
    Hover,
}

/// The tone of an interactive color.
#[derive(Debug, Clone, Copy, PartialEq, Eq, Structural)]
pub enum Tone {
    Neutral,
    Success,
    Danger,
    Warning,
    Accent,
}

/// A color: one of the stylesheet's named colors, resolved when the widget is mounted, or a
/// fixed value.
#[derive(Debug, Clone, Copy, PartialEq, Eq, Structural)]
pub enum ColorRef {
    Surface(Role, Tone),
    Element(Role, Tone),
    SurfaceSecondary,
    SurfaceTertiary,
    ElementPrimary,
    ElementSecondary,
    ElementAccent,
    Value(Rgba8),
}

/// A background fill.
#[derive(Debug, Clone, Copy, PartialEq, Eq, Structural)]
pub struct Background {
    pub color: ColorRef,
}

impl Background {
    pub fn new(color: ColorRef) -> (b: Self)
        ensures
            b.color == color,
    {
        Self { color }
    }
}

/// One of the stylesheet's named spacings.
#[derive(Debug, Clone, Copy, PartialEq, Eq, Structural)]
pub enum SpacingRef {
    Small,
    Medium,
    DefaultSeparation,
}

/// A corner radius: the stylesheet's default one, or fully rounded.
#[derive(Debug, Clone, Copy, PartialEq, Eq, Structural)]
pub enum RadiusRef {
    Default,
    Round,
}

/// A size in pixels.
#[derive(Debug, Clone, Copy, PartialEq, Eq, Structural)]
pub struct PxSize {
    pub width: u32,
    pub height: u32,
}

/// The size properties of a widget; what is not set is left to the layout.
#[derive(Debug, Clone, Copy, PartialEq, Eq, Structural)]
pub struct WidgetSizeProps {
    pub padding: Option<SpacingRef>,
    pub margin: Option<SpacingRef>,
    pub corner_radius: Option<RadiusRef>,
    /// A minimum size in pixels.
    pub min_size: Option<PxSize>,
    /// Whether the widget takes all the space it is given.
    pub maximize: bool,
}

/// Size properties with nothing set.
pub open spec fn default_size() -> WidgetSizeProps {
    WidgetSizeProps { padding: None, margin: None, corner_radius: None, min_size: None, maximize: false }
}

impl Default for WidgetSizeProps {
    fn default() -> (s: Self)
        ensures
            s == default_size(),
    {
        Self { padding: None, margin: None, corner_radius: None, min_size: None, maximize: false }
    }
}

impl WidgetSizeProps {
    pub fn with_padding(self, padding: SpacingRef) -> (s: Self)
        ensures
            s == (Self { padding: Some(padding), ..self }),
    {
        Self { padding: Some(padding), ..self }
    }

    pub fn with_margin(self, margin: SpacingRef) -> (s: Self)
        ensures
            s == (Self { margin: Some(margin), ..self }),
    {
        Self { margin: Some(margin), ..self }
    }

    pub fn with_corner_radius(self, radius: RadiusRef) -> (s: Self)
        ensures
            s == (Self { corner_radius: Some(radius), ..self }),
    {
        Self { corner_radius: Some(radius), ..self }
    }

    pub fn with_min_size(self, width: u32, height: u32) -> (s: Self)
        ensures
            s == (Self { min_size: Some(PxSize { width, height }), ..self }),
    {
        Self { min_size: Some(PxSize { width, height }), ..self }
    }

    pub fn with_maximize(self, maximize: bool) -> (s: Self)
        ensures
            s == (Self { maximize, ..self }),
    {
        Self { maximize, ..self }
    }
}

/// A pair of colors: the surface of a widget and the element drawn on it.
#[derive(Debug, Clone, Copy, PartialEq, Eq, Structural)]
pub struct ColorPair<T> {
    pub surface: T,
    pub element: T,
}

impl<T> ColorPair<T> {
    pub fn new(surface: T, element: T) -> (p: Self)
        ensures
            p.surface == surface,
            p.element == element,
    {
        Self { surface, element }
    }
}

/// The colors of a button at rest, pressed and hovered, and its size.
#[derive(Debug, Clone, Copy, PartialEq, Eq, Structural)]
pub struct ButtonStyle {
    pub normal: ColorPair<ColorRef>,
    pub pressed: ColorPair<ColorRef>,
    pub hover: ColorPair<ColorRef>,
    pub size: WidgetSizeProps,
}

/// A fully transparent color.
pub open spec fn clear() -> ColorRef {
    ColorRef::Value(Rgba8 { red: 0, green: 0, blue: 0, alpha: 0 })
}

/// Opaque black.
pub open spec fn opaque_black() -> ColorRef {
    ColorRef::Value(Rgba8 { red: 0, green: 0, blue: 0, alpha: 255 })
}

/// A pair of colors as a value.
pub open spec fn pair(surface: ColorRef, element: ColorRef) -> ColorPair<ColorRef> {
    ColorPair { surface, element }
}

/// The surface and element colors of a tone in a role.
pub open spec fn tone_pair(role: Role, tone: Tone) -> ColorPair<ColorRef> {
    ColorPair { surface: ColorRef::Surface(role, tone), element: ColorRef::Element(role, tone) }
}

/// The size that buttons have unless their style says otherwise.
pub open spec fn spec_default_button_size() -> WidgetSizeProps {
    WidgetSizeProps {
        padding: Some(SpacingRef::Medium),
        margin: Some(SpacingRef::Medium),
        corner_radius: Some(RadiusRef::Default),
        min_size: None,
        maximize: false,
    }
}

/// The neutral surface color of a role.
pub open spec fn neutral_surface(role: Role) -> ColorRef {
    ColorRef::Surface(role, Tone::Neutral)
}

/// The size of a radio button: compact, fully rounded, at least 20 pixels wide and high.
pub open spec fn spec_radio_size() -> WidgetSizeProps {
    WidgetSizeProps {
        padding: Some(SpacingRef::Small),
        margin: Some(SpacingRef::Small),
        corner_radius: Some(RadiusRef::Round),
        min_size: Some(PxSize { width: 20, height: 20 }),
        maximize: false,
    }
}

/// The size of compact buttons.
pub open spec fn spec_small_button_size() -> WidgetSizeProps {
    WidgetSizeProps {
        padding: Some(SpacingRef::Small),
        margin: Some(SpacingRef::Small),
        corner_radius: Some(RadiusRef::Default),
        min_size: None,
        maximize: false,
    }
}

/// The style of buttons of a tone: the tone's colors at rest, pressed and hovered, at the default
/// size.
pub open spec fn toned_style(t: Tone) -> ButtonStyle {
    ButtonStyle {
        normal: tone_pair(Role::Interactive, t),
        pressed: tone_pair(Role::Pressed, t),
        hover: tone_pair(Role::Hover, t),
        size: spec_default_button_size(),
    }
}

/// The style of a button that is invisible until hovered, when its element turns black.
pub open spec fn hidden_style() -> ButtonStyle {
    ButtonStyle {
        normal: pair(clear(), clear()),
        pressed: pair(clear(), clear()),
        hover: pair(clear(), opaque_black()),
        size: spec_small_button_size(),
    }
}

/// The style of a list entry: transparent at rest.
pub open spec fn selectable_style() -> ButtonStyle {
    ButtonStyle {
        normal: pair(clear(), ColorRef::Element(Role::Interactive, Tone::Neutral)),
        pressed: tone_pair(Role::Pressed, Tone::Neutral),
        hover: tone_pair(Role::Hover, Tone::Neutral),
        size: spec_small_button_size(),
    }
}

/// The style of a radio button: the surface stays, the element shows the state.
pub open spec fn radio_style() -> ButtonStyle {
    ButtonStyle {
        normal: pair(neutral_surface(Role::Interactive), neutral_surface(Role::Interactive)),
        pressed: pair(neutral_surface(Role::Interactive), neutral_surface(Role::Pressed)),
        hover: pair(neutral_surface(Role::Interactive), neutral_surface(Role::Hover)),
        size: spec_radio_size(),
    }
}

fn tone(role: Role, t: Tone) -> (p: ColorPair<ColorRef>)
    ensures
        p == tone_pair(role, t),
{
    ColorPair::new(ColorRef::Surface(role, t), ColorRef::Element(role, t))
}

fn small_button_size() -> (s: WidgetSizeProps)
    ensures
        s == spec_small_button_size(),
{
    WidgetSizeProps::default().with_padding(SpacingRef::Small).with_margin(
        SpacingRef::Small,
    ).with_corner_radius(RadiusRef::Default)
}

fn toned(t: Tone) -> (s: ButtonStyle)
    ensures
        s == toned_style(t),
{
    ButtonStyle {
        normal: tone(Role::Interactive, t),
        pressed: tone(Role::Pressed, t),
        hover: tone(Role::Hover, t),
        size: ButtonStyle::default().size,
    }
}

/// A fully transparent color, or opaque black.
fn black(alpha: u8) -> (c: ColorRef)
    ensures
        c == ColorRef::Value(Rgba8 { red: 0, green: 0, blue: 0, alpha }),
{
    ColorRef::Value(Rgba8 { red: 0, green: 0, blue: 0, alpha })
}

impl Default for ButtonStyle {
    fn default() -> (s: Self)
        ensures
            s == toned_style(Tone::Neutral),
    {
        Self {
            normal: tone(Role::Interactive, Tone::Neutral),
            pressed: tone(Role::Pressed, Tone::Neutral),
            hover: tone(Role::Hover, Tone::Neutral),
            size: WidgetSizeProps::default().with_padding(SpacingRef::Medium).with_margin(
                SpacingRef::Medium,
            ).with_corner_radius(RadiusRef::Default),
        }
    }
}

impl ButtonStyle {
    pub fn new(normal: ColorPair<ColorRef>, pressed: ColorPair<ColorRef>, hover: ColorPair<ColorRef>) -> (s: Self)
        ensures
            s.normal == normal,
            s.pressed == pressed,
            s.hover == hover,
            s.size == spec_default_button_size(),
    {
        Self { normal, pressed, hover, size: ButtonStyle::default().size }
    }

    /// Invisible until hovered, when its element turns black.
    pub fn hidden() -> (s: Self)
        ensures
            s == hidden_style(),
    {
        ButtonStyle {
            normal: ColorPair::new(black(0), black(0)),
            pressed: ColorPair::new(black(0), black(0)),
            hover: ColorPair::new(black(0), black(255)),
            size: small_button_size(),
        }
    }

    pub fn success() -> (s: Self)
        ensures
            s == toned_style(Tone::Success),
    {
        toned(Tone::Success)
    }

    pub fn danger() -> (s: Self)
        ensures
            s == toned_style(Tone::Danger),
    {
        toned(Tone::Danger)
    }

    pub fn warning() -> (s: Self)
        ensures
            s == toned_style(Tone::Warning),
    {
        toned(Tone::Warning)
    }

    pub fn accent() -> (s: Self)
        ensures
            s == toned_style(Tone::Accent),
    {
        toned(Tone::Accent)
    }

    /// An entry of a list: transparent at rest.
    pub fn selectable_entry() -> (s: Self)
        ensures
            s == selectable_style(),
    {
        ButtonStyle {
            normal: ColorPair::new(black(0), ColorRef::Element(Role::Interactive, Tone::Neutral)),
            pressed: tone(Role::Pressed, Tone::Neutral),
            hover: tone(Role::Hover, Tone::Neutral),
            size: small_button_size(),
        }
    }

    /// A round radio button: the surface stays, the element shows the state.
    pub fn radio() -> (s: Self)
        ensures
            s == radio_style(),
    {
        let surface = ColorRef::Surface(Role::Interactive, Tone::Neutral);
        ButtonStyle {
            normal: ColorPair::new(surface, surface),
            pressed: ColorPair::new(surface, ColorRef::Surface(Role::Pressed, Tone::Neutral)),
            hover: ColorPair::new(surface, ColorRef::Surface(Role::Hover, Tone::Neutral)),
            size: WidgetSizeProps::default().with_padding(SpacingRef::Small).with_margin(
                SpacingRef::Small,
            ).with_corner_radius(RadiusRef::Round).with_min_size(20, 20),
        }
    }

    /// The colors that show a state: pressed, or at rest.
    pub fn colors_for(&self, pressed: bool) -> (p: ColorPair<ColorRef>)
        ensures
            p == if pressed { self.pressed } else { self.normal },
    {
        if pressed { self.pressed } else { self.normal }
    }
}

} // verus!

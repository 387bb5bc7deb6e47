use vstd::prelude::*;

verus! {

/// The color model in which the palette editor edits a color.
#[derive(Debug, Clone, Copy, PartialEq, Eq, Structural)]
pub enum EditorMode {
    Oklch,
    Rgb,
}

impl EditorMode {
    /// Whether the mode is `Oklch`.
    pub fn is_oklch(&self) -> (b: bool)
        ensures
            b == (*self == EditorMode::Oklch),
    {
        match self {
            EditorMode::Oklch => true,
            EditorMode::Rgb => false,
        }
    }

    /// Whether the mode is `Rgb`.
    pub fn is_rgb(&self) -> (b: bool)
        ensures
            b == (*self == EditorMode::Rgb),
    {
        match self {
            EditorMode::Oklch => false,
            EditorMode::Rgb => true,
        }
    }
}

} // verus!

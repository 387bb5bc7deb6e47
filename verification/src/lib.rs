pub mod basic;
pub mod color;
pub mod container;
pub mod controls;
pub mod dirty;
pub mod editor;
pub mod export;
pub mod indicators;
pub mod input;
pub mod interactive;
pub mod layout;
pub mod overlay;
pub mod palettes;
pub mod render;
pub mod style;
pub mod text;
pub mod tweens;
pub mod unit;
pub mod utils;
pub mod widget;

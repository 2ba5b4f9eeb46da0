//! What the widgets report, and their colours.

use vstd::prelude::*;
use crate::renderer_2d::pack_argb;
use crate::renderer_2d::Color;

verus! {

/// Events the widgets emit.
#[derive(Debug, Clone)]
pub enum UiEvent {
    /// The button of this name was clicked.
    Click(String),
}

/// Colours of the widgets.
#[derive(Debug, Clone, Copy)]
pub struct Theme {
    pub button_bg: Color,
    pub button_bg_disabled: Color,
    pub button_hover: Color,
    pub button_pressed: Color,
    pub text_color: Color,
}

impl Default for Theme {
    /// Dark blue buttons with white text.
    fn default() -> (theme: Theme)
        ensures
            theme.button_bg.0 == pack_argb(255, 40, 40, 80),
            theme.button_bg_disabled.0 == pack_argb(255, 60, 60, 60),
            theme.button_hover.0 == pack_argb(255, 60, 60, 120),
            theme.button_pressed.0 == pack_argb(255, 20, 20, 60),
            theme.text_color.0 == 0xFFFFFFFFu32,
    {
        Theme {
            button_bg: Color::rgb(40, 40, 80),
            button_bg_disabled: Color::rgb(60, 60, 60),
            button_hover: Color::rgb(60, 60, 120),
            button_pressed: Color::rgb(20, 20, 60),
            text_color: Color::white(),
        }
    }
}

} // verus!

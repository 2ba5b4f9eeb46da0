//! How a window is to be opened.

use vstd::prelude::*;

verus! {

/// Title, size and behaviour of a window.
#[derive(Debug, Clone)]
pub struct WindowConfig {
    pub title: String,
    pub width: usize,
    pub height: usize,
    pub resizable: bool,
    pub vsync: bool,
}

impl Default for WindowConfig {
    /// A resizable 800 by 600 window called "Game Window", with vsync.
    fn default() -> (config: WindowConfig)
        ensures
            config.title@ == "Game Window"@,
            config.width == 800,
            config.height == 600,
            config.resizable,
            config.vsync,
    {
        WindowConfig {
            title: "Game Window".to_owned(),
            width: 800,
            height: 600,
            resizable: true,
            vsync: true,
        }
    }
}

} // verus!

//! Window configuration.

use vstd::prelude::*;

verus! {

/// What a window is opened with: its title and its size in pixels.
#[derive(Debug, Clone, Copy)]
pub struct Config<'a> {
    pub title: &'a str,
    pub width: u32,
    pub height: u32,
}

impl<'a> Default for Config<'a> {
    /// A 640 by 480 window with a stock title.
    fn default() -> (config: Self)
        ensures
            config.title@ == "SWR Window"@,
            config.width == 640,
            config.height == 480,
    {
        Config { title: "SWR Window", width: 640, height: 480 }
    }
}

} // verus!

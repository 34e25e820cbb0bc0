//! Window configuration, as handed to the platform when the window is made.
use vstd::prelude::*;

verus! {

#[derive(Debug, Clone, Copy, PartialEq, Eq, Hash, Structural)]
pub enum WindowMode {
    Windowed,
    Fullscreen,
}

/// Multisample anti-aliasing.
#[derive(Debug, Clone, Copy, PartialEq, Eq, Hash, Structural)]
pub enum Samples {
    Disabled,
    X2,
    X4,
    X8,
    X16,
}

impl Default for WindowMode {
    fn default() -> (r: WindowMode)
        ensures
            r == WindowMode::Windowed,
    {
        WindowMode::Windowed
    }
}

impl Default for Samples {
    fn default() -> (r: Samples)
        ensures
            r == Samples::Disabled,
    {
        Samples::Disabled
    }
}

impl Samples {
    /// The sample count the platform is asked for; none without multisampling.
    pub fn glfw_samples(&self) -> (r: Option<u32>)
        ensures
            r == match *self {
                Samples::Disabled => None,
                Samples::X2 => Some(2u32),
                Samples::X4 => Some(4u32),
                Samples::X8 => Some(8u32),
                Samples::X16 => Some(16u32),
            },
    {
        match self {
            Samples::Disabled => None,
            Samples::X2 => Some(2),
            Samples::X4 => Some(4),
            Samples::X8 => Some(8),
            Samples::X16 => Some(16),
        }
    }
}

/// Size, title and behaviour of the window.
#[derive(Debug, Clone)]
pub struct WindowConfig {
    pub width: u32,
    pub height: u32,
    pub title: String,
    pub resizable: bool,
    pub mode: WindowMode,
    pub samples: Samples,
    pub vsync: bool,
}

impl WindowConfig {
    pub fn with_width(self, width: u32) -> (r: WindowConfig)
        ensures
            r == (WindowConfig { width, ..self }),
    {
        WindowConfig { width, ..self }
    }

    pub fn with_height(self, height: u32) -> (r: WindowConfig)
        ensures
            r == (WindowConfig { height, ..self }),
    {
        WindowConfig { height, ..self }
    }

    /// Sets width and height together.
    pub fn with_size(self, size: (u32, u32)) -> (r: WindowConfig)
        ensures
            r == (WindowConfig { width: size.0, height: size.1, ..self }),
    {
        let (width, height) = size;
        WindowConfig { width, height, ..self }
    }

    pub fn with_title(self, title: &str) -> (r: WindowConfig)
        ensures
            r.title@ == title@,
            r == (WindowConfig { title: r.title, ..self }),
    {
        WindowConfig { title: title.to_owned(), ..self }
    }

    pub fn with_resizable(self, resizable: bool) -> (r: WindowConfig)
        ensures
            r == (WindowConfig { resizable, ..self }),
    {
        WindowConfig { resizable, ..self }
    }

    pub fn with_mode(self, mode: WindowMode) -> (r: WindowConfig)
        ensures
            r == (WindowConfig { mode, ..self }),
    {
        WindowConfig { mode, ..self }
    }

    pub fn with_samples(self, samples: Samples) -> (r: WindowConfig)
        ensures
            r == (WindowConfig { samples, ..self }),
    {
        WindowConfig { samples, ..self }
    }

    pub fn with_vsync(self, vsync: bool) -> (r: WindowConfig)
        ensures
            r == (WindowConfig { vsync, ..self }),
    {
        WindowConfig { vsync, ..self }
    }
}

impl Default for WindowConfig {
    /// An 800 by 600 fixed-size window titled "Paper Window", with vsync.
    fn default() -> (r: WindowConfig)
        ensures
            r.width == 800,
            r.height == 600,
            r.title@ == "Paper Window"@,
            !r.resizable,
            r.mode == WindowMode::Windowed,
            r.samples == Samples::Disabled,
            r.vsync,
    {
        proof {
            reveal_strlit("Paper Window");
        }
        WindowConfig {
            width: 800,
            height: 600,
            title: "Paper Window".to_owned(),
            resizable: false,
            mode: WindowMode::Windowed,
            samples: Samples::Disabled,
            vsync: true,
        }
    }
}

} // verus!

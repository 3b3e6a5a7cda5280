use vstd::prelude::*;

verus! {

/// One pixel value: red, green, blue and alpha channels.
#[derive(Clone, Copy, PartialEq, Eq, Structural, Debug)]
pub struct Color {
    pub r: u8,
    pub g: u8,
    pub b: u8,
    pub a: u8,
}

/// The color every framebuffer entry holds before a worker writes it:
/// an opaque mid gray.
pub open spec fn placeholder_color() -> Color {
    Color { r: 160, g: 160, b: 160, a: 255 }
}

/// The sentinel recorded for a pixel whose color evaluation failed:
/// an opaque magenta, chosen to stand out against rendered content.
pub open spec fn error_color() -> Color {
    Color { r: 255, g: 0, b: 255, a: 255 }
}

impl Color {
    /// An opaque color from its three channels.
    pub fn from_rgb(r: u8, g: u8, b: u8) -> (c: Color)
        ensures
            c == (Color { r, g, b, a: 255 }),
    {
        Color { r, g, b, a: 255 }
    }

    /// The placeholder every pixel starts out as.
    pub fn placeholder() -> (c: Color)
        ensures
            c == placeholder_color(),
    {
        Color { r: 160, g: 160, b: 160, a: 255 }
    }

    /// The sentinel for a failed per-pixel evaluation.
    pub fn error() -> (c: Color)
        ensures
            c == error_color(),
    {
        Color { r: 255, g: 0, b: 255, a: 255 }
    }
}

/// Relies on rand::random: an arbitrary value of the type, drawn from the
/// thread-local generator. Nothing can be promised of a random value.
pub assume_specification<T>[ rand::random::<T> ]() -> (r: T)
    where
        rand::distr::StandardUniform: rand::distr::Distribution<T>,
;

/// An opaque color whose three channels are drawn at random, one
/// independent draw per channel.
pub fn random_color() -> (c: Color)
    ensures
        c.a == 255,
{
    let r: u8 = rand::random::<u8>();
    let g: u8 = rand::random::<u8>();
    let b: u8 = rand::random::<u8>();
    Color::from_rgb(r, g, b)
}

} // verus!

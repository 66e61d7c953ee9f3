use vstd::prelude::*;

verus! {

/// An RGB colour as the Aura firmware takes it.
#[derive(Clone, Copy, Debug, PartialEq, Eq, Hash, Structural)]
pub struct Colour {
    pub r: u8,
    pub g: u8,
    pub b: u8,
}

/// Keyboard and light brightness levels.
#[derive(Clone, Copy, Debug, PartialEq, Eq, Hash, Structural)]
pub enum LedBrightness {
    Off,
    Low,
    Med,
    High,
}

/// Black.
impl Default for Colour {
    fn default() -> (c: Self)
        ensures
            c == (Colour { r: 0, g: 0, b: 0 }),
    {
        Colour { r: 0, g: 0, b: 0 }
    }
}

/// Medium: the level assumed where none is given.
impl Default for LedBrightness {
    fn default() -> (b: Self)
        ensures
            b == LedBrightness::Med,
    {
        LedBrightness::Med
    }
}

/// The wire value of each brightness level.
pub open spec fn brightness_level(b: LedBrightness) -> u8 {
    match b {
        LedBrightness::Off => 0,
        LedBrightness::Low => 1,
        LedBrightness::Med => 2,
        LedBrightness::High => 3,
    }
}

impl LedBrightness {
    /// The byte that carries this level in a report.
    pub fn level(self) -> (v: u8)
        ensures
            v == brightness_level(self),
    {
        match self {
            LedBrightness::Off => 0,
            LedBrightness::Low => 1,
            LedBrightness::Med => 2,
            LedBrightness::High => 3,
        }
    }
}

pub const AURA_LAPTOP_LED_MSG_LEN: usize = 17;

pub fn red() -> (c: Colour)
    ensures
        c == (Colour { r: 0xff, g: 0x00, b: 0x00 }),
{
    Colour { r: 0xff, g: 0x00, b: 0x00 }
}

pub fn green() -> (c: Colour)
    ensures
        c == (Colour { r: 0x00, g: 0xff, b: 0x00 }),
{
    Colour { r: 0x00, g: 0xff, b: 0x00 }
}

pub fn blue() -> (c: Colour)
    ensures
        c == (Colour { r: 0x00, g: 0x00, b: 0xff }),
{
    Colour { r: 0x00, g: 0x00, b: 0xff }
}

pub fn violet() -> (c: Colour)
    ensures
        c == (Colour { r: 0x9b, g: 0x26, b: 0xb6 }),
{
    Colour { r: 0x9b, g: 0x26, b: 0xb6 }
}

pub fn teal() -> (c: Colour)
    ensures
        c == (Colour { r: 0x00, g: 0x7c, b: 0x80 }),
{
    Colour { r: 0x00, g: 0x7c, b: 0x80 }
}

pub fn yellow() -> (c: Colour)
    ensures
        c == (Colour { r: 0xff, g: 0xef, b: 0x00 }),
{
    Colour { r: 0xff, g: 0xef, b: 0x00 }
}

pub fn orange() -> (c: Colour)
    ensures
        c == (Colour { r: 0xff, g: 0xa4, b: 0x00 }),
{
    Colour { r: 0xff, g: 0xa4, b: 0x00 }
}

/// The colours of the default gradient: red, violet, blue, teal, green,
/// yellow and orange.
pub open spec fn gradient_colours() -> Seq<Colour> {
    seq![
        Colour { r: 0xff, g: 0x00, b: 0x00 },
        Colour { r: 0x9b, g: 0x26, b: 0xb6 },
        Colour { r: 0x00, g: 0x00, b: 0xff },
        Colour { r: 0x00, g: 0x7c, b: 0x80 },
        Colour { r: 0x00, g: 0xff, b: 0x00 },
        Colour { r: 0xff, g: 0xef, b: 0x00 },
        Colour { r: 0xff, g: 0xa4, b: 0x00 },
    ]
}

/// The default gradient.
pub fn gradient() -> (g: [Colour; 7])
    ensures
        g@ == gradient_colours(),
{
    let g = [red(), violet(), blue(), teal(), green(), yellow(), orange()];
    assert(g@ =~= gradient_colours());
    g
}

} // verus!

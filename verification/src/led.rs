//! The lamp on the board.

use vstd::prelude::*;

verus! {

/// What the outside gamma table makes of the amount of one colour.
pub uninterp spec fn gamma_corrected(amount: u8) -> u8;

/// Calls `gamma` of `smart_leds` on one colour.
///
/// Trusted: each of the three amounts is looked up in one table of 256 entries, which
/// starts at 0, ends at 255 and never falls. The entries are left to the name.
#[verifier::external_body]
fn correct_gamma(color: (u8, u8, u8)) -> (r: (u8, u8, u8))
    ensures
        r.0 == gamma_corrected(color.0),
        r.1 == gamma_corrected(color.1),
        r.2 == gamma_corrected(color.2),
        color.0 == 0 ==> r.0 == 0,
        color.0 == 255 ==> r.0 == 255,
        forall|lower: u8| lower <= color.0 ==> #[trigger] gamma_corrected(lower) <= r.0,
{
    let one = smart_leds::RGB8::new(color.0, color.1, color.2);
    let mut corrected = smart_leds::gamma([one].into_iter());
    let c = corrected.next().unwrap();
    (c.r, c.g, c.b)
}

/// The colour that the lamp is given for a brightness: white, corrected so that equal
/// steps look equal. 0 is off, 255 is the brightest, and a higher brightness is never
/// darker than a lower one.
pub fn level_color(level: u8) -> (r: (u8, u8, u8))
    ensures
        r.0 == gamma_corrected(level),
        r.1 == r.0,
        r.2 == r.0,
        level == 0 ==> r == (0u8, 0u8, 0u8),
        level == 255 ==> r == (255u8, 255u8, 255u8),
        forall|lower: u8| lower <= level ==> #[trigger] gamma_corrected(lower) <= r.0,
{
    correct_gamma((level, level, level))
}

} // verus!

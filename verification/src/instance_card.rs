//! How a cluster card on the "Versions" page is outlined.

use vstd::prelude::*;

verus! {

/// The colour a card's border takes.
#[derive(Clone, Copy, Debug, PartialEq, Eq, Structural)]
pub enum BorderTone {
    /// The brand colour.
    Brand,
    /// The colour of a hovered component.
    Hover,
    /// The colour of a resting component.
    Normal,
}

/// The border of a card: the brand colour for the active cluster or a card
/// with keyboard focus, the hover colour under the pointer, the resting colour
/// otherwise.
pub open spec fn border_tone_spec(active: bool, focused: bool, hovered: bool) -> BorderTone {
    if active || focused {
        BorderTone::Brand
    } else if hovered {
        BorderTone::Hover
    } else {
        BorderTone::Normal
    }
}

/// The brand outline marks the active cluster and the focused card, whatever
/// the pointer does: it is taken exactly when the card is active or focused,
/// and hovering changes the border only of a card that is neither, from the
/// resting colour to the hover colour.
pub proof fn lemma_brand_outline_ignores_the_pointer(active: bool, focused: bool, hovered: bool)
    ensures
        (border_tone_spec(active, focused, hovered) == BorderTone::Brand) == (active || focused),
        active || focused ==> border_tone_spec(active, focused, true) == border_tone_spec(
            active,
            focused,
            false,
        ),
        !active && !focused ==> border_tone_spec(active, focused, true) == BorderTone::Hover
            && border_tone_spec(active, focused, false) == BorderTone::Normal,
{
}

/// The colour of a card's border.
pub fn card_border_tone(active: bool, focused: bool, hovered: bool) -> (t: BorderTone)
    ensures
        t == border_tone_spec(active, focused, hovered),
{
    if active || focused {
        BorderTone::Brand
    } else if hovered {
        BorderTone::Hover
    } else {
        BorderTone::Normal
    }
}

/// Width of a card's border in pixels: two for the active cluster, else one.
pub fn card_border_width(active: bool) -> (w: u32)
    ensures
        w == if active {
            2u32
        } else {
            1u32
        },
{
    if active {
        2
    } else {
        1
    }
}

} // verus!

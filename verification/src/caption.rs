//! Caption text published by screensaver plugins for the presentation layer
//! to draw at native pixel density.
//!
//! The caption lives in a slot owned by the host; these functions define what
//! publishing, reading and clearing do to it.

use vstd::prelude::*;

verus! {

/// `String::clear`: the string becomes empty.
pub assume_specification[ String::clear ](s: &mut String)
    ensures
        final(s)@ == Seq::<char>::empty(),
;

/// Publish caption text: the slot holds exactly `text` afterwards.
pub fn publish_caption(caption: &mut String, text: &str)
    ensures
        final(caption)@ == text@,
{
    caption.clear();
    caption.append(text);
}

/// Read the current caption (empty when none is active).
pub fn caption_text(caption: &String) -> (r: String)
    ensures
        r@ == caption@,
{
    caption.clone()
}

/// Borrow the current caption without cloning and hand it to `f`.
pub fn with_caption<F, R>(caption: &String, f: F) -> (r: R)
    where
        F: FnOnce(&str) -> R,
    requires
        forall|s: &str| s@ == caption@ ==> #[trigger] f.requires((s,)),
    ensures
        exists|s: &str| s@ == caption@ && #[trigger] f.ensures((s,), r),
{
    f(caption.as_str())
}

/// Clear any published caption.
pub fn clear_caption(caption: &mut String)
    ensures
        final(caption)@ == Seq::<char>::empty(),
{
    caption.clear();
}

} // verus!

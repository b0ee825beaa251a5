//! Compressed integer sets as a storable value type.
//!
//! The store holds `roaring::RoaringBitmap` values whole and never looks
//! inside them; their contents are named by [`bitmap_contents`], and the one
//! operation the store itself needs — copying a bitmap out of the container —
//! is trusted to preserve those contents.

use vstd::prelude::*;
use crate::values::Value;

verus! {

#[verifier::external_type_specification]
#[verifier::external_body]
pub struct ExRoaringBitmap(roaring::RoaringBitmap);

/// The set of integers a bitmap holds.  The contents are a function of the
/// bitmap value alone.
pub uninterp spec fn bitmap_contents(b: roaring::RoaringBitmap) -> Set<u32>;

/// Relies on roaring's `RoaringBitmap::clone`, which copies the bitmap's
/// containers element for element: the copy holds exactly the integers the
/// original holds.
#[verifier::external_body]
fn clone_bitmap(b: &roaring::RoaringBitmap) -> (r: roaring::RoaringBitmap)
    ensures
        bitmap_contents(r) == bitmap_contents(*b),
{
    b.clone()
}

impl Value for roaring::RoaringBitmap {
    type ViewKind = Set<u32>;

    open spec fn val_view(&self) -> Set<u32> {
        bitmap_contents(*self)
    }

    fn clone_value(&self) -> (r: Self) {
        clone_bitmap(self)
    }
}

} // verus!

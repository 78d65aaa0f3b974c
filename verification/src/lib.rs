//! Preparation of an object-detection dataset for detector training.
//!
//! A label manifest (one JSON array of per-image records) and a listing of the
//! image tree go in; per image, the name of the copy to make, the intermediate
//! record, the filtered record and the text of the label file come out. Every
//! decision of the pipeline is made here and proved against its contract; the
//! file system itself is left to the caller.

use vstd::prelude::*;

pub mod categories;
pub mod codec;
pub mod emit;
pub mod filter;
pub mod json;
pub mod locate;
pub mod names;
mod text;

verus! {

/// The views of a sequence of values, one for one.
pub open spec fn each_view<T: View>(items: Seq<T>) -> Seq<T::V> {
    Seq::new(items.len(), |i: int| items[i]@)
}

} // verus!

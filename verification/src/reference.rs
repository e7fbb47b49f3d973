//! References into the components table, and values that are either such a
//! reference or the item itself.

use vstd::prelude::*;
use vstd::string::StrSliceExecFns;
use vstd::string::StringExecFns;
use crate::text::{chars_of, last_index_of, lemma_last_index_of};

verus! {

/// Either a reference to a named component or the item itself.
#[derive(Debug)]
pub enum RefOr<T> {
    Reference { reference: String },
    Item(T),
}

/// The mathematical model of a [`RefOr`]: the reference text, or the model of
/// the item.
pub enum RefOrView<V> {
    Reference(Seq<char>),
    Item(V),
}

impl<T: View> View for RefOr<T> {
    type V = RefOrView<T::V>;

    open spec fn view(&self) -> RefOrView<T::V> {
        match *self {
            RefOr::Reference { reference } => RefOrView::Reference(reference@),
            RefOr::Item(item) => RefOrView::Item(item@),
        }
    }
}

/// The component name that a reference text points at: what follows its last
/// `/`, or the whole text where it has none.
pub open spec fn reference_name(reference: Seq<char>) -> Seq<char> {
    match last_index_of(reference, '/') {
        Some(i) => reference.skip(i + 1),
        None => reference,
    }
}

/// Computes [`reference_name`].
pub fn name_of_reference(reference: &str) -> (name: String)
    ensures
        name@ == reference_name(reference@),
{
    let chars = chars_of(reference);
    let mut i: usize = chars.len();
    while i > 0
        invariant
            i <= chars@.len(),
            chars@ == reference@,
            forall|j: int| i <= j < chars@.len() ==> chars@[j] != '/',
        decreases i,
    {
        if chars[i - 1] == '/' {
            proof {
                lemma_last_index_of(chars@, '/');
            }
            return String::from_str(reference.substring_char(i, chars.len()));
        }
        i -= 1;
    }
    proof {
        lemma_last_index_of(chars@, '/');
    }
    String::from_str(reference)
}

/// The item of a value that is known not to be a reference.
pub fn to_item<T>(the_ref: RefOr<T>) -> (item: T)
    requires
        the_ref is Item,
    ensures
        item == the_ref->Item_0,
{
    match the_ref {
        RefOr::Item(item) => item,
        RefOr::Reference { .. } => unreached(),
    }
}

/// A shared borrow of the item of a value that is known not to be a reference.
pub fn to_item_ref<T>(the_ref: &RefOr<T>) -> (item: &T)
    requires
        the_ref is Item,
    ensures
        *item == the_ref->Item_0,
{
    match the_ref {
        RefOr::Item(item) => item,
        RefOr::Reference { .. } => unreached(),
    }
}

/// A mutable borrow of the item of a value that is known not to be a
/// reference; what is written through it is what the value then holds.
pub fn to_item_mut<T>(the_ref: &mut RefOr<T>) -> (item: &mut T)
    requires
        *old(the_ref) is Item,
    ensures
        *item == (*old(the_ref))->Item_0,
        *final(the_ref) == RefOr::<T>::Item(*final(item)),
{
    match the_ref {
        RefOr::Item(item) => item,
        RefOr::Reference { .. } => unreached(),
    }
}

} // verus!

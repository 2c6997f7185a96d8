//! The list of faces found for one family.

use crate::font::FontId;
use smallvec::SmallVec;
use vstd::prelude::*;

verus! {

/// The identifiers of the faces of one family, in the order in which the
/// faces were found; kept inline while they are few.
#[verifier::external_body]
#[derive(Debug, PartialEq, Eq)]
pub struct FontIdList {
    items: SmallVec<[FontId; 4]>,
}

/// The identifiers that a list holds, first to last.
pub uninterp spec fn font_id_list_items(list: FontIdList) -> Seq<FontId>;

impl View for FontIdList {
    type V = Seq<FontId>;

    open spec fn view(&self) -> Seq<FontId> {
        font_id_list_items(*self)
    }
}

impl FontIdList {
    /// `SmallVec::new`: a list that holds nothing.
    #[verifier::external_body]
    pub(crate) fn new() -> (list: FontIdList)
        ensures
            font_id_list_items(list) == Seq::<FontId>::empty(),
    {
        FontIdList { items: SmallVec::new() }
    }

    /// `SmallVec::push`: appends one identifier after those already held. As
    /// with `Vec::push`, running out of memory is outside the contract.
    #[verifier::external_body]
    pub(crate) fn push(&mut self, id: FontId)
        ensures
            font_id_list_items(*final(self)) == font_id_list_items(*old(self)).push(id),
    {
        self.items.push(id)
    }

    /// `SmallVec::as_slice`: the identifiers held, in order, as a slice.
    #[verifier::external_body]
    pub(crate) fn as_slice(&self) -> (ids: &[FontId])
        ensures
            ids@ == font_id_list_items(*self),
    {
        self.items.as_slice()
    }

    /// The number of identifiers.
    pub fn len(&self) -> (n: usize)
        ensures
            n == self@.len(),
    {
        self.as_slice().len()
    }

    /// The identifier at `at`, if there is one.
    pub fn get(&self, at: usize) -> (id: Option<FontId>)
        ensures
            id == if at < self@.len() {
                Some(self@[at as int])
            } else {
                None::<FontId>
            },
    {
        let ids = self.as_slice();
        if at < ids.len() {
            Some(ids[at])
        } else {
            None
        }
    }
}

} // verus!

//! Short lists kept in `smallvec::SmallVec`, which stores a few items without allocating.
use crate::types::{Font, FontId};
use smallvec::SmallVec;
use vstd::prelude::*;

verus! {

/// A `smallvec::SmallVec` of fonts.
#[verifier::external_body]
pub struct FontStack {
    fonts: SmallVec<[Font; 2]>,
}

/// The fonts on the stack, in the order in which they were pushed.
pub uninterp spec fn stacked_fonts(stack: FontStack) -> Seq<Font>;

impl View for FontStack {
    type V = Seq<Font>;

    open spec fn view(&self) -> Seq<Font> {
        stacked_fonts(*self)
    }
}

impl FontStack {
    /// Calls `smallvec::SmallVec::new`, which makes an empty vector.
    #[verifier::external_body]
    pub(crate) fn new() -> (stack: FontStack)
        ensures
            stacked_fonts(stack) == Seq::<Font>::empty(),
    {
        FontStack { fonts: SmallVec::new() }
    }

    /// Calls `smallvec::SmallVec::push`, which appends the item.
    #[verifier::external_body]
    pub(crate) fn push(&mut self, font: Font)
        ensures
            stacked_fonts(*final(self)) == stacked_fonts(*old(self)).push(font),
    {
        self.fonts.push(font)
    }

    /// Calls `smallvec::SmallVec::as_slice`, which gives the items in order.
    #[verifier::external_body]
    pub(crate) fn as_slice(&self) -> (fonts: &[Font])
        ensures
            fonts@ == stacked_fonts(*self),
    {
        self.fonts.as_slice()
    }
}

/// A `smallvec::SmallVec` of font ids.
#[verifier::external_body]
pub struct FontIdList {
    font_ids: SmallVec<[FontId; 8]>,
}

/// The ids in the list, in the order in which they were pushed.
pub uninterp spec fn listed_font_ids(list: FontIdList) -> Seq<FontId>;

impl View for FontIdList {
    type V = Seq<FontId>;

    open spec fn view(&self) -> Seq<FontId> {
        listed_font_ids(*self)
    }
}

impl FontIdList {
    /// Calls `smallvec::SmallVec::new`, which makes an empty vector.
    #[verifier::external_body]
    pub(crate) fn new() -> (list: FontIdList)
        ensures
            listed_font_ids(list) == Seq::<FontId>::empty(),
    {
        FontIdList { font_ids: SmallVec::new() }
    }

    /// Calls `smallvec::SmallVec::push`, which appends the item.
    #[verifier::external_body]
    pub(crate) fn push(&mut self, font_id: FontId)
        ensures
            listed_font_ids(*final(self)) == listed_font_ids(*old(self)).push(font_id),
    {
        self.font_ids.push(font_id)
    }

    /// Calls `smallvec::SmallVec::as_slice`, which gives the items in order.
    #[verifier::external_body]
    pub(crate) fn as_slice(&self) -> (font_ids: &[FontId])
        ensures
            font_ids@ == listed_font_ids(*self),
    {
        self.font_ids.as_slice()
    }

    /// Whether the id is in the list.
    pub fn contains(&self, font_id: &FontId) -> (found: bool)
        ensures
            found == self@.contains(*font_id),
    {
        let font_ids = self.as_slice();
        let mut i: usize = 0;
        while i < font_ids.len()
            invariant
                i <= font_ids@.len(),
                font_ids@ == self@,
                forall|j: int| 0 <= j < i ==> font_ids@[j] != *font_id,
            decreases font_ids@.len() - i,
        {
            if font_ids[i] == *font_id {
                assert(self@[i as int] == *font_id);
                return true;
            }
            i += 1;
        }
        false
    }
}

} // verus!

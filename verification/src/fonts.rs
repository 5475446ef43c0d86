//! Which fonts have been asked for and what the platform answered.
use crate::types::{Font, FontId, FontView};
use vstd::prelude::*;

verus! {

/// The value of the platform's answer to a font request.
pub open spec fn resolution(answer: Result<FontId, String>) -> Result<FontId, Seq<char>> {
    match answer {
        Ok(font_id) => Ok(font_id),
        Err(message) => Err(message@),
    }
}

/// Copies an answer.
pub fn clone_font_id_result(answer: &Result<FontId, String>) -> (copy: Result<FontId, String>)
    ensures
        resolution(copy) == resolution(*answer),
        match answer {
            Ok(font_id) => copy == Ok::<FontId, String>(*font_id),
            Err(message) => copy matches Err(copied) && copied@ == message@,
        },
{
    match answer {
        Ok(font_id) => Ok(*font_id),
        Err(message) => Err(message.clone()),
    }
}

struct FontEntry {
    font: Font,
    font_id: Result<FontId, String>,
}

/// The answers to font requests, failures among them. A text system sees few distinct
/// fonts, so they are kept in a list.
pub struct FontIdCache {
    entries: Vec<FontEntry>,
}

impl View for FontIdCache {
    type V = Map<FontView, Result<FontId, Seq<char>>>;

    closed spec fn view(&self) -> Map<FontView, Result<FontId, Seq<char>>> {
        Map::new(
            |font: FontView| exists|i: int| 0 <= i < self.entries@.len() && (#[trigger] self.entries@[i]).font@ == font,
            |font: FontView|
                resolution(
                    self.entries@[choose|i: int|
                        0 <= i < self.entries@.len() && (#[trigger] self.entries@[i]).font@ == font].font_id,
                ),
        )
    }
}

impl FontIdCache {
    /// No font is listed twice.
    pub closed spec fn wf(&self) -> bool {
        forall|i: int, j: int|
            0 <= i < j < self.entries@.len() ==> (#[trigger] self.entries@[i]).font@ != (#[trigger] self.entries@[j]).font@
    }

    /// Each entry is what the cache holds for its font.
    proof fn holds_entry(&self, i: int)
        requires
            self.wf(),
            0 <= i < self.entries@.len(),
        ensures
            self@.contains_key(self.entries@[i].font@),
            self@[self.entries@[i].font@] == resolution(self.entries@[i].font_id),
    {
        let j = choose|j: int|
            0 <= j < self.entries@.len() && (#[trigger] self.entries@[j]).font@ == self.entries@[i].font@;
        assert(i == j);
    }

    /// Writing an entry for a font, in place of the one that there was or else behind the
    /// others, holds its answer for the font and changes no other.
    proof fn holds_one_more(&self, before: FontIdCache, at: int, font: FontView)
        requires
            before.wf(),
            0 <= at < self.entries@.len(),
            self.entries@[at].font@ == font,
            at < before.entries@.len() ==> before.entries@[at].font@ == font,
            forall|i: int|
                0 <= i < before.entries@.len() && i != at ==> (#[trigger] before.entries@[i]).font@ != font,
            forall|i: int|
                0 <= i < self.entries@.len() && i != at ==> i < before.entries@.len() && #[trigger] self.entries@[i]
                    == before.entries@[i],
            before.entries@.len() <= self.entries@.len(),
        ensures
            self.wf(),
            self@ == before@.insert(font, resolution(self.entries@[at].font_id)),
    {
        let expected = before@.insert(font, resolution(self.entries@[at].font_id));
        assert(self.wf());
        assert forall|k: FontView| self@.contains_key(k) == expected.contains_key(k) by {
            if before@.contains_key(k) {
                let j = choose|j: int| 0 <= j < before.entries@.len() && (#[trigger] before.entries@[j]).font@ == k;
                assert(self.entries@[j].font@ == k);
            }
            if self@.contains_key(k) {
                let j = choose|j: int| 0 <= j < self.entries@.len() && (#[trigger] self.entries@[j]).font@ == k;
                if j != at {
                    assert(before.entries@[j].font@ == k);
                }
            }
        }
        assert forall|k: FontView| self@.contains_key(k) implies self@[k] == expected[k] by {
            let j = choose|j: int| 0 <= j < self.entries@.len() && (#[trigger] self.entries@[j]).font@ == k;
            self.holds_entry(j);
            if j != at {
                before.holds_entry(j);
            }
        }
        assert(self@ =~= expected);
    }

    pub fn new() -> (cache: FontIdCache)
        ensures
            cache.wf(),
            cache@ == Map::<FontView, Result<FontId, Seq<char>>>::empty(),
    {
        let cache = FontIdCache { entries: Vec::new() };
        assert(cache@ =~= Map::empty());
        cache
    }

    fn position(&self, font: &Font) -> (position: Option<usize>)
        ensures
            match position {
                Some(i) => i < self.entries@.len() && self.entries@[i as int].font@ == font@,
                None => forall|i: int| 0 <= i < self.entries@.len() ==> (#[trigger] self.entries@[i]).font@ != font@,
            },
    {
        let mut i: usize = 0;
        while i < self.entries.len()
            invariant
                i <= self.entries@.len(),
                forall|j: int| 0 <= j < i ==> (#[trigger] self.entries@[j]).font@ != font@,
            decreases self.entries@.len() - i,
        {
            if self.entries[i].font.same_as(font) {
                return Some(i);
            }
            i += 1;
        }
        None
    }

    /// The answer that is held for the font, if any.
    pub fn get(&self, font: &Font) -> (answer: Option<Result<FontId, String>>)
        requires
            self.wf(),
        ensures
            match answer {
                Some(font_id) => self@.contains_key(font@) && resolution(font_id) == self@[font@],
                None => !self@.contains_key(font@),
            },
            match answer {
                Some(Ok(font_id)) => self@[font@] == Ok::<FontId, Seq<char>>(font_id),
                Some(Err(message)) => self@[font@] == Err::<FontId, Seq<char>>(message@),
                None => true,
            },
    {
        match self.position(font) {
            Some(i) => {
                proof {
                    self.holds_entry(i as int);
                }
                Some(clone_font_id_result(&self.entries[i].font_id))
            },
            None => None,
        }
    }

    /// Holds the answer for the font, in place of an earlier one.
    pub fn insert(&mut self, font: Font, font_id: Result<FontId, String>)
        requires
            old(self).wf(),
        ensures
            final(self).wf(),
            final(self)@ == old(self)@.insert(font@, resolution(font_id)),
            match font_id {
                Ok(given) => final(self)@[font@] == Ok::<FontId, Seq<char>>(given),
                Err(message) => final(self)@[font@] == Err::<FontId, Seq<char>>(message@),
            },
    {
        let ghost before = *self;
        let ghost key = font@;
        match self.position(&font) {
            Some(i) => {
                self.entries.set(i, FontEntry { font, font_id });
                proof {
                    self.holds_one_more(before, i as int, key);
                }
            },
            None => {
                self.entries.push(FontEntry { font, font_id });
                proof {
                    self.holds_one_more(before, before.entries@.len() as int, key);
                }
            },
        }
    }

    /// Forgets every answer.
    pub fn clear(&mut self)
        ensures
            final(self).wf(),
            final(self)@ == Map::<FontView, Result<FontId, Seq<char>>>::empty(),
    {
        self.entries.clear();
        assert(self@ =~= Map::empty());
    }

    /// A font that was answered with the id, if there is one.
    pub fn font_with_id(&self, id: FontId) -> (found: Option<Font>)
        requires
            self.wf(),
        ensures
            match found {
                Some(font) => self@.contains_key(font@) && self@[font@] == Ok::<FontId, Seq<char>>(id),
                None => forall|font: FontView|
                    #[trigger] self@.contains_key(font) ==> self@[font] != Ok::<FontId, Seq<char>>(id),
            },
    {
        let mut i: usize = 0;
        while i < self.entries.len()
            invariant
                self.wf(),
                i <= self.entries@.len(),
                forall|j: int| 0 <= j < i ==> resolution((#[trigger] self.entries@[j]).font_id) != Ok::<FontId, Seq<char>>(id),
            decreases self.entries@.len() - i,
        {
            let entry = &self.entries[i];
            if let Ok(font_id) = &entry.font_id {
                if *font_id == id {
                    proof {
                        self.holds_entry(i as int);
                    }
                    return Some(entry.font.clone());
                }
            }
            i += 1;
        }
        proof {
            assert forall|font: FontView| #[trigger] self@.contains_key(font) implies self@[font]
                != Ok::<FontId, Seq<char>>(id) by {
                let j = choose|j: int| 0 <= j < self.entries@.len() && (#[trigger] self.entries@[j]).font@ == font;
                self.holds_entry(j);
            }
        }
        None
    }
}

} // verus!

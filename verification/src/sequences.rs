//! What the text system does to sequences: dropping repetitions, joining and sorting names.
use crate::types::Font;
use itertools::Itertools;
use vstd::prelude::*;

verus! {

/// The elements of `items` in order, each only where it occurs first.
pub open spec fn first_occurrences<T>(items: Seq<T>) -> Seq<T>
    decreases items.len(),
{
    if items.len() == 0 {
        Seq::empty()
    } else if items.drop_last().contains(items.last()) {
        first_occurrences(items.drop_last())
    } else {
        first_occurrences(items.drop_last()).push(items.last())
    }
}

/// Dropping repetitions keeps every element and leaves no element twice.
pub proof fn first_occurrences_keep_each_once<T>(items: Seq<T>)
    ensures
        first_occurrences(items).no_duplicates(),
        forall|item: T| first_occurrences(items).contains(item) <==> items.contains(item),
        first_occurrences(items).len() <= items.len(),
    decreases items.len(),
{
    if items.len() > 0 {
        let init = items.drop_last();
        first_occurrences_keep_each_once(init);
        assert(items =~= init.push(items.last()));
        assert forall|item: T| first_occurrences(items).contains(item) <==> items.contains(item) by {
            contains_after_push(init, items.last(), item);
            contains_after_push(first_occurrences(init), items.last(), item);
            assert(first_occurrences(init).contains(item) <==> init.contains(item));
        }
        if !init.contains(items.last()) {
            assert(!first_occurrences(init).contains(items.last()));
        }
    }
}

/// What is left stands in the order of the items, each where it occurs first.
pub proof fn first_occurrences_stand_in_order<T>(items: Seq<T>) -> (places: Seq<int>)
    ensures
        places.len() == first_occurrences(items).len(),
        forall|i: int|
            0 <= i < places.len() ==> {
                &&& 0 <= #[trigger] places[i] < items.len()
                &&& items[places[i]] == first_occurrences(items)[i]
                &&& !items.take(places[i]).contains(items[places[i]])
            },
        forall|i: int, j: int| 0 <= i < j < places.len() ==> #[trigger] places[i] < #[trigger] places[j],
    decreases items.len(),
{
    if items.len() == 0 {
        Seq::empty()
    } else {
        let init = items.drop_last();
        let earlier = first_occurrences_stand_in_order(init);
        assert forall|i: int| 0 <= i < earlier.len() implies items[#[trigger] earlier[i]] == init[earlier[i]]
            && items.take(earlier[i]) == init.take(earlier[i]) by {
            assert(items.take(earlier[i]) =~= init.take(earlier[i]));
        }
        if init.contains(items.last()) {
            earlier
        } else {
            assert(items.take(items.len() - 1) =~= init);
            earlier.push(items.len() - 1)
        }
    }
}

/// Dropping repetitions leaves a sequence without repetitions as it is.
pub proof fn first_occurrences_of_unique<T>(items: Seq<T>)
    requires
        items.no_duplicates(),
    ensures
        first_occurrences(items) == items,
    decreases items.len(),
{
    if items.len() > 0 {
        let init = items.drop_last();
        first_occurrences_of_unique(init);
        assert(items =~= init.push(items.last()));
    }
}

/// The value of a text-and-flag key.
pub open spec fn key_views(keys: Seq<(String, bool)>) -> Seq<(Seq<char>, bool)> {
    keys.map_values(|key: (String, bool)| (key.0@, key.1))
}

/// Calls `itertools::Itertools::unique`.
///
/// Its documentation says that it filters out elements already produced, compared by
/// equality, and returns the rest in order, the first of each set of duplicates being
/// the one retained. Two keys are equal when their texts and their flags are.
#[verifier::external_body]
pub(crate) fn unique_keys(keys: Vec<(String, bool)>) -> (unique: Vec<(String, bool)>)
    ensures
        key_views(unique@) == first_occurrences(key_views(keys@)),
{
    keys.into_iter().unique().collect()
}

/// Calls `<String as From<char>>::from`, which makes a string of the one character.
#[verifier::external_body]
pub(crate) fn text_of_char(character: char) -> (text: String)
    ensures
        text@ == seq![character],
{
    String::from(character)
}

/// How many bytes the character takes in UTF-8.
pub open spec fn utf8_len(character: char) -> usize {
    if character as u32 <= 0x7f {
        1
    } else if character as u32 <= 0x7ff {
        2
    } else if character as u32 <= 0xffff {
        3
    } else {
        4
    }
}

/// The UTF-8 form of a text of one character is as long as that of the character.
pub(crate) proof fn utf8_len_of_one(character: char)
    ensures
        vstd::utf8::encode_utf8(seq![character]).len() == utf8_len(character),
{
    reveal_with_fuel(vstd::utf8::encode_utf8, 2);
    assert(seq![character].drop_first() =~= Seq::empty());
}

/// The parts one after the other, with the separator between each two of them.
pub open spec fn joined(parts: Seq<Seq<char>>, separator: Seq<char>) -> Seq<char>
    decreases parts.len(),
{
    if parts.len() == 0 {
        Seq::empty()
    } else if parts.len() == 1 {
        parts[0]
    } else {
        joined(parts.drop_last(), separator) + separator + parts.last()
    }
}

/// One part stands alone; and what is joined of some parts and then of others is joined by one more
/// separator.
pub proof fn joined_parts_add_up(parts: Seq<Seq<char>>, more: Seq<Seq<char>>, separator: Seq<char>)
    ensures
        parts.len() == 0 ==> joined(parts, separator).len() == 0,
        parts.len() == 1 ==> joined(parts, separator) == parts[0],
        parts.len() > 0 && more.len() > 0 ==> joined(parts + more, separator) == joined(parts, separator) + separator
            + joined(more, separator),
    decreases more.len(),
{
    if parts.len() > 0 && more.len() > 0 {
        let all = parts + more;
        let init = more.drop_last();
        assert(all.drop_last() =~= parts + init);
        assert(all.last() == more.last());
        if init.len() > 0 {
            joined_parts_add_up(parts, init, separator);
            assert(joined(all, separator) =~= joined(parts, separator) + separator + joined(more, separator));
        } else {
            assert(parts + init =~= parts);
        }
    }
}

/// The family names stand in the order of the fonts.
pub proof fn families_stand_in_order(fonts: Seq<Font>)
    ensures
        families(fonts).len() == fonts.len(),
        forall|i: int| 0 <= i < fonts.len() ==> families(fonts)[i] == (#[trigger] fonts[i]).family@,
{
}

/// The family names of the fonts.
pub open spec fn families(fonts: Seq<Font>) -> Seq<Seq<char>> {
    fonts.map_values(|font: Font| font.family@)
}

/// Calls `itertools::Itertools::join` on the family names of the fonts.
///
/// Its documentation says that it combines all elements into one `String`, separated by
/// the separator.
#[verifier::external_body]
pub(crate) fn join_families(fonts: &[Font], separator: &str) -> (text: String)
    ensures
        text@ == joined(families(fonts@), separator@),
{
    fonts.iter().map(|font| &font.family).join(separator)
}

/// Whether text `a` is equal to `b` or comes before it, comparing code points from the left.
pub open spec fn text_le(a: Seq<char>, b: Seq<char>) -> bool
    decreases a.len(),
{
    if a.len() == 0 {
        true
    } else if b.len() == 0 {
        false
    } else if a[0] != b[0] {
        (a[0] as u32) < (b[0] as u32)
    } else {
        text_le(a.drop_first(), b.drop_first())
    }
}

/// Whether text `a` comes before `b`: at the first place where they differ, its code point is the
/// smaller one, or it ends there.
pub open spec fn comes_before(a: Seq<char>, b: Seq<char>) -> bool {
    exists|at: int|
        {
            &&& 0 <= at <= a.len()
            &&& at < b.len()
            &&& #[trigger] a.take(at) == b.take(at)
            &&& at == a.len() || (a[at] as u32) < (b[at] as u32)
        }
}

/// A text that is no later than another, and not the same, comes before it.
pub proof fn no_later_is_before_or_the_same(a: Seq<char>, b: Seq<char>)
    ensures
        text_le(a, b) <==> a == b || comes_before(a, b),
    decreases a.len(),
{
    if a.len() == 0 {
        if b.len() > 0 {
            assert(a.take(0) =~= b.take(0));
        } else {
            assert(a =~= b);
        }
    } else if b.len() == 0 {
        assert(!comes_before(a, b));
    } else {
        let (rest_a, rest_b) = (a.drop_first(), b.drop_first());
        if a[0] != b[0] {
            assert(a.take(0) =~= b.take(0));
            if comes_before(a, b) {
                let at = choose|at: int|
                    {
                        &&& 0 <= at <= a.len()
                        &&& at < b.len()
                        &&& #[trigger] a.take(at) == b.take(at)
                        &&& at == a.len() || (a[at] as u32) < (b[at] as u32)
                    };
                if at > 0 {
                    assert(a.take(at)[0] == b.take(at)[0]);
                }
            }
        } else {
            no_later_is_before_or_the_same(rest_a, rest_b);
            assert(a =~= seq![a[0]] + rest_a);
            assert(b =~= seq![b[0]] + rest_b);
            if comes_before(rest_a, rest_b) {
                let at = choose|at: int|
                    {
                        &&& 0 <= at <= rest_a.len()
                        &&& at < rest_b.len()
                        &&& #[trigger] rest_a.take(at) == rest_b.take(at)
                        &&& at == rest_a.len() || (rest_a[at] as u32) < (rest_b[at] as u32)
                    };
                assert(a.take(at + 1) =~= seq![a[0]] + rest_a.take(at));
                assert(b.take(at + 1) =~= seq![b[0]] + rest_b.take(at));
                assert(a.take(at + 1) == b.take(at + 1));
            }
            if comes_before(a, b) {
                let at = choose|at: int|
                    {
                        &&& 0 <= at <= a.len()
                        &&& at < b.len()
                        &&& #[trigger] a.take(at) == b.take(at)
                        &&& at == a.len() || (a[at] as u32) < (b[at] as u32)
                    };
                assert(at > 0);
                assert(rest_a.take(at - 1) =~= a.take(at).drop_first());
                assert(rest_b.take(at - 1) =~= b.take(at).drop_first());
                assert(rest_a.take(at - 1) == rest_b.take(at - 1));
            }
        }
    }
}

/// Two texts that are each no later than the other are the same text.
pub proof fn text_le_is_antisymmetric(a: Seq<char>, b: Seq<char>)
    requires
        text_le(a, b),
        text_le(b, a),
    ensures
        a == b,
    decreases a.len(),
{
    if a.len() > 0 && b.len() > 0 {
        text_le_is_antisymmetric(a.drop_first(), b.drop_first());
        assert(a =~= seq![a[0]] + a.drop_first());
        assert(b =~= seq![b[0]] + b.drop_first());
    }
    assert(a =~= b);
}

/// The texts of the strings.
pub open spec fn texts(strings: Seq<String>) -> Seq<Seq<char>> {
    strings.map_values(|s: String| s@)
}

/// Whether one of the strings has the text.
pub open spec fn has_text(strings: Seq<String>, text: Seq<char>) -> bool {
    exists|i: int| 0 <= i < strings.len() && (#[trigger] strings[i])@ == text
}

/// Strings have the text of each of them, and of no other.
pub proof fn strings_have_their_texts(strings: Seq<String>, text: Seq<char>)
    ensures
        forall|i: int| 0 <= i < strings.len() ==> has_text(strings, (#[trigger] strings[i])@),
        (forall|i: int| 0 <= i < strings.len() ==> (#[trigger] strings[i])@ != text) ==> !has_text(strings, text),
{
}

/// The texts stand in the order of the strings.
pub proof fn texts_stand_in_order(strings: Seq<String>)
    ensures
        texts(strings).len() == strings.len(),
        forall|i: int| 0 <= i < strings.len() ==> texts(strings)[i] == (#[trigger] strings[i])@,
{
}

/// Whether each text is no later than those after it.
pub open spec fn sorted(items: Seq<Seq<char>>) -> bool {
    forall|i: int, j: int| 0 <= i <= j < items.len() ==> text_le(#[trigger] items[i], #[trigger] items[j])
}

/// Calls `<[String]>::sort_unstable`.
///
/// Its documentation says that it sorts the slice, which keeps the elements and puts them
/// in ascending order; that of strings is by the code points from the left.
#[verifier::external_body]
pub(crate) fn sort_strings(strings: &mut Vec<String>)
    ensures
        sorted(texts(final(strings)@)),
        texts(final(strings)@).to_multiset() == texts(old(strings)@).to_multiset(),
{
    strings.sort_unstable()
}

/// Whether `unique` holds the texts of `items`, each once, in ascending order.
pub open spec fn is_sorted_set_of(unique: Seq<Seq<char>>, items: Seq<Seq<char>>) -> bool {
    &&& sorted(unique)
    &&& unique.no_duplicates()
    &&& forall|text: Seq<char>| unique.contains(text) <==> items.contains(text)
}

/// There is only one ascending sequence that holds the texts of `items` each once.
pub proof fn sorted_sets_are_equal(a: Seq<Seq<char>>, b: Seq<Seq<char>>, items: Seq<Seq<char>>)
    requires
        is_sorted_set_of(a, items),
        is_sorted_set_of(b, items),
    ensures
        a == b,
{
    ascending_with_same_elements(a, b);
}

proof fn ascending_with_same_elements(a: Seq<Seq<char>>, b: Seq<Seq<char>>)
    requires
        sorted(a),
        sorted(b),
        a.no_duplicates(),
        b.no_duplicates(),
        forall|text: Seq<char>| a.contains(text) <==> b.contains(text),
    ensures
        a == b,
    decreases a.len(),
{
    if a.len() == 0 {
        if b.len() > 0 {
            assert(b.contains(b[0]));
        }
        assert(a =~= b);
    } else {
        assert(a.contains(a[0]));
        let j = choose|j: int| 0 <= j < b.len() && b[j] == a[0];
        assert(b.contains(b[0]));
        let i = choose|i: int| 0 <= i < a.len() && a[i] == b[0];
        assert(text_le(a[0], a[i]));
        assert(text_le(b[0], b[j]));
        text_le_is_antisymmetric(a[0], b[0]);
        assert forall|text: Seq<char>| a.drop_first().contains(text) <==> b.drop_first().contains(text) by {
            contains_after_first(a, text);
            contains_after_first(b, text);
        }
        ascending_with_same_elements(a.drop_first(), b.drop_first());
        assert(a =~= seq![a[0]] + a.drop_first());
        assert(b =~= seq![b[0]] + b.drop_first());
    }
}

pub(crate) proof fn contains_after_first<T>(items: Seq<T>, item: T)
    requires
        items.len() > 0,
        items.no_duplicates(),
    ensures
        items.drop_first().contains(item) <==> items.contains(item) && item != items[0],
{
    let rest = items.drop_first();
    if rest.contains(item) {
        let i = choose|i: int| 0 <= i < rest.len() && rest[i] == item;
        assert(items[i + 1] == item);
    }
    if items.contains(item) && item != items[0] {
        let i = choose|i: int| 0 <= i < items.len() && items[i] == item;
        assert(rest[i - 1] == item);
    }
}

/// Sorts the strings and drops repetitions.
pub fn sorted_unique(strings: Vec<String>) -> (unique: Vec<String>)
    ensures
        is_sorted_set_of(texts(unique@), texts(strings@)),
        forall|text: Seq<char>| #[trigger] has_text(unique@, text) <==> has_text(strings@, text),
        forall|i: int, j: int|
            0 <= i < j < unique@.len() ==> comes_before((#[trigger] unique@[i])@, (#[trigger] unique@[j])@),
{
    let mut rest = strings;
    sort_strings(&mut rest);
    let ghost all = texts(rest@);
    let mut unique: Vec<String> = Vec::new();
    let mut i: usize = 0;
    while i < rest.len()
        invariant
            i <= rest.len(),
            all == texts(rest@),
            sorted(all),
            sorted(texts(unique@)),
            texts(unique@).no_duplicates(),
            unique.len() == 0 <==> i == 0,
            i > 0 ==> unique@.last()@ == all[i - 1],
            forall|text: Seq<char>| texts(unique@).contains(text) <==> all.take(i as int).contains(text),
        decreases rest.len() - i,
    {
        let ghost before = texts(unique@);
        let ghost seen = all.take(i as int);
        let name = rest[i].clone();
        let ghost text = name@;
        assert(all.take(i + 1) =~= seen.push(text));
        if unique.len() == 0 || unique[unique.len() - 1] != name {
            proof {
                assert forall|j: int| 0 <= j < before.len() implies before[j] != text && text_le(before[j], text) by {
                    assert(before.contains(before[j]));
                    let k = choose|k: int| 0 <= k < seen.len() && seen[k] == before[j];
                    assert(all[k] == before[j]);
                    assert(text_le(all[k], all[i as int]));
                    if before[j] == text {
                        assert(text_le(all[k], all[i - 1]) && text_le(all[i - 1], all[i as int]));
                        text_le_is_antisymmetric(all[i - 1], text);
                    }
                }
            }
            unique.push(name);
            assert(texts(unique@) =~= before.push(text));
            proof {
                text_le_is_reflexive(text);
                assert forall|t: Seq<char>| texts(unique@).contains(t) <==> all.take(i + 1).contains(t) by {
                    contains_after_push(before, text, t);
                    contains_after_push(seen, text, t);
                }
            }
        } else {
            proof {
                assert(before.last() == text);
                assert forall|t: Seq<char>| texts(unique@).contains(t) <==> all.take(i + 1).contains(t) by {
                    contains_after_push(seen, text, t);
                    assert(before.contains(before.last()));
                }
            }
        }
        i += 1;
    }
    proof {
        assert(all.take(i as int) =~= all);
        assert forall|text: Seq<char>| texts(unique@).contains(text) <==> texts(strings@).contains(text) by {
            all.to_multiset_ensures();
            texts(strings@).to_multiset_ensures();
            assert(all.contains(text) <==> all.to_multiset().count(text) > 0);
            assert(texts(strings@).contains(text) <==> texts(strings@).to_multiset().count(text) > 0);
        }
        sorted_sets_by_place(unique@, strings@);
    }
    unique
}

proof fn has_text_as_texts(strings: Seq<String>, text: Seq<char>)
    ensures
        has_text(strings, text) <==> texts(strings).contains(text),
{
    let all = texts(strings);
    if has_text(strings, text) {
        let i = choose|i: int| 0 <= i < strings.len() && (#[trigger] strings[i])@ == text;
        assert(all[i] == text);
    }
    if all.contains(text) {
        let i = choose|i: int| 0 <= i < all.len() && all[i] == text;
        assert(strings[i]@ == text);
    }
}

/// What is sorted and made unique, told by the places of the texts.
proof fn sorted_sets_by_place(unique: Seq<String>, strings: Seq<String>)
    requires
        is_sorted_set_of(texts(unique), texts(strings)),
    ensures
        forall|text: Seq<char>| #[trigger] has_text(unique, text) <==> has_text(strings, text),
        forall|i: int, j: int|
            0 <= i < j < unique.len() ==> comes_before((#[trigger] unique[i])@, (#[trigger] unique[j])@),
{
    let (unique_texts, all_texts) = (texts(unique), texts(strings));
    assert forall|text: Seq<char>| #[trigger] has_text(unique, text) <==> has_text(strings, text) by {
        has_text_as_texts(unique, text);
        has_text_as_texts(strings, text);
    }
    assert forall|i: int, j: int| 0 <= i < j < unique.len() implies comes_before(
        (#[trigger] unique[i])@,
        (#[trigger] unique[j])@,
    ) by {
        assert(text_le(unique_texts[i], unique_texts[j]));
        assert(unique_texts[i] != unique_texts[j]);
        no_later_is_before_or_the_same(unique[i]@, unique[j]@);
    }
}

proof fn text_le_is_reflexive(a: Seq<char>)
    ensures
        text_le(a, a),
    decreases a.len(),
{
    if a.len() > 0 {
        text_le_is_reflexive(a.drop_first());
    }
}

pub(crate) proof fn contains_after_push<T>(items: Seq<T>, last: T, item: T)
    ensures
        items.push(last).contains(item) <==> items.contains(item) || item == last,
{
    if items.contains(item) {
        let i = choose|i: int| 0 <= i < items.len() && items[i] == item;
        assert(items.push(last)[i] == item);
    }
    if item == last {
        assert(items.push(last)[items.len() as int] == item);
    }
    if items.push(last).contains(item) {
        let i = choose|i: int| 0 <= i < items.push(last).len() && items.push(last)[i] == item;
        if i < items.len() {
            assert(items[i] == item);
        }
    }
}

/// What is left of a sequence with one more item.
pub(crate) proof fn filter_after_push<T>(items: Seq<T>, last: T, keep: spec_fn(T) -> bool)
    ensures
        items.push(last).filter(keep) == if keep(last) {
            items.filter(keep).push(last)
        } else {
            items.filter(keep)
        },
{
    reveal(Seq::filter);
    assert(items.push(last).drop_last() =~= items);
}

pub(crate) proof fn contains_after_filter<T>(items: Seq<T>, keep: spec_fn(T) -> bool, item: T)
    ensures
        items.filter(keep).contains(item) <==> items.contains(item) && keep(item),
    decreases items.len(),
{
    reveal(Seq::filter);
    if items.len() > 0 {
        let init = items.drop_last();
        contains_after_filter(init, keep, item);
        assert(items =~= init.push(items.last()));
        contains_after_push(init, items.last(), item);
        contains_after_push(init.filter(keep), items.last(), item);
    }
}

pub(crate) proof fn contains_in_either<T>(first: Seq<T>, second: Seq<T>, item: T)
    ensures
        (first + second).contains(item) <==> first.contains(item) || second.contains(item),
{
    let both = first + second;
    if first.contains(item) {
        let i = choose|i: int| 0 <= i < first.len() && first[i] == item;
        assert(both[i] == item);
    }
    if second.contains(item) {
        let i = choose|i: int| 0 <= i < second.len() && second[i] == item;
        assert(both[first.len() + i] == item);
    }
    if both.contains(item) {
        let i = choose|i: int| 0 <= i < both.len() && both[i] == item;
        if i < first.len() {
            assert(first[i] == item);
        } else {
            assert(second[i - first.len()] == item);
        }
    }
}

} // verus!

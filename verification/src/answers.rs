//! How the caches relate to what the platform answers.
use crate::caches::{pooled, FontIdWithSize, LineWrapper, PoolEvent};
use crate::fonts::resolution;
use crate::platform::PlatformTextSystem;
use crate::questions::{glyph_advance_was_found, glyph_bounds_were_found, glyph_was_rasterized};
use crate::sequences::{contains_after_push, contains_in_either};
use crate::surroundings::Action;
use crate::types::{
    Bounds, DevicePixels, Font, FontId, FontMetrics, FontUnits, FontView, GlyphId, Pixels, RenderGlyphParams, Scaled,
    Size, TextError,
};
use vstd::prelude::*;

verus! {

/// The answers that are kept, and what was done to what is shared with the platform.
#[verifier::reject_recursive_types(K)]
pub struct Knowledge<K, V> {
    pub answers: Map<K, V>,
    pub record: Seq<Action>,
}

/// Answers to font requests.
pub type FontKnowledge = Knowledge<FontView, Result<FontId, Seq<char>>>;

/// Answers to requests for metrics, by font id.
pub type MetricsKnowledge = Knowledge<usize, FontMetrics>;

/// Answers to requests for raster bounds.
pub type RasterKnowledge = Knowledge<RenderGlyphParams, Bounds<DevicePixels>>;

/// The fonts to try for a font, best first: itself, then the fallbacks.
pub open spec fn candidates(font: FontView, fallbacks: Seq<Font>) -> Seq<FontView> {
    seq![font] + fallbacks.map_values(|fallback: Font| fallback@)
}

/// Whether the platform can be asked for the font and give the answer.
pub open spec fn was_asked<P: PlatformTextSystem>(
    platform: P,
    font: FontView,
    answer: Result<FontId, Seq<char>>,
) -> bool {
    exists|requested: Font, font_id: Result<FontId, String>|
        #![trigger call_ensures(P::font_id, (&platform, &requested), font_id)]
        {
            &&& requested@ == font
            &&& resolution(font_id) == answer
            &&& call_ensures(P::font_id, (&platform, &requested), font_id)
        }
}

/// What was asked is what the platform was given and answered: a font of that family with these
/// attributes, and the id or the message of the failure.
pub proof fn an_answer_is_what_the_platform_gave<P: PlatformTextSystem>(
    platform: P,
    font: FontView,
    answer: Result<FontId, Seq<char>>,
)
    requires
        was_asked(platform, font, answer),
    ensures
        exists|requested: Font, given: Result<FontId, String>|
            {
                &&& #[trigger] call_ensures(P::font_id, (&platform, &requested), given)
                &&& requested.family@ == font.family
                &&& requested.attributes@ == font.attributes
                &&& match given {
                    Ok(font_id) => answer == Ok::<FontId, Seq<char>>(font_id),
                    Err(message) => answer == Err::<FontId, Seq<char>>(message@),
                }
            },
{
}

/// Asking for those of the fonts that no answer is known to, in order, each once.
pub open spec fn font_questions(known: Map<FontView, Result<FontId, Seq<char>>>, fonts: Seq<FontView>) -> Seq<Action>
    decreases fonts.len(),
{
    if fonts.len() == 0 {
        Seq::empty()
    } else if known.contains_key(fonts.last()) || fonts.drop_last().contains(fonts.last()) {
        font_questions(known, fonts.drop_last())
    } else {
        font_questions(known, fonts.drop_last()).push(Action::FontAsked(fonts.last()))
    }
}

/// Whether `after` holds what `before` did and, for those of the fonts that `before` had no
/// answer to, what the platform answered; and these were what the platform was asked for.
pub open spec fn learned<P: PlatformTextSystem>(
    platform: P,
    before: FontKnowledge,
    after: FontKnowledge,
    fonts: Seq<FontView>,
) -> bool {
    &&& forall|font: FontView| #[trigger]
        after.answers.contains_key(font) <==> before.answers.contains_key(font) || fonts.contains(font)
    &&& forall|font: FontView| #[trigger]
        before.answers.contains_key(font) ==> after.answers[font] == before.answers[font]
    &&& forall|font: FontView| #[trigger]
        after.answers.contains_key(font) && !before.answers.contains_key(font) ==> was_asked(
            platform,
            font,
            after.answers[font],
        )
    &&& after.record == before.record + font_questions(before.answers, fonts)
}

/// Whether the fonts were tried in order up to the first that loads, and that is the result;
/// there is none if every font was tried in vain.
pub open spec fn was_resolved<P: PlatformTextSystem>(
    platform: P,
    before: FontKnowledge,
    after: FontKnowledge,
    fonts: Seq<FontView>,
    resolved: Option<FontId>,
) -> bool {
    exists|tried: int| #[trigger] was_resolved_after(platform, before, after, fonts, tried, resolved)
}

/// Whether trying the first `tried` of the fonts gave the result.
pub open spec fn was_resolved_after<P: PlatformTextSystem>(
    platform: P,
    before: FontKnowledge,
    after: FontKnowledge,
    fonts: Seq<FontView>,
    tried: int,
    resolved: Option<FontId>,
) -> bool {
    &&& 1 <= tried <= fonts.len()
    &&& learned(platform, before, after, fonts.take(tried))
    &&& forall|i: int| 0 <= i < tried - 1 ==> after.answers[#[trigger] fonts[i]] is Err
    &&& match resolved {
        Some(font_id) => after.answers[fonts[tried - 1]] == Ok::<FontId, Seq<char>>(font_id),
        None => tried == fonts.len() && after.answers[fonts[tried - 1]] is Err,
    }
}

/// The platform is not asked for fonts to which answers are known.
proof fn known_fonts_are_not_asked_for(known: Map<FontView, Result<FontId, Seq<char>>>, fonts: Seq<FontView>)
    requires
        forall|i: int| 0 <= i < fonts.len() ==> known.contains_key(#[trigger] fonts[i]),
    ensures
        font_questions(known, fonts) == Seq::<Action>::empty(),
    decreases fonts.len(),
{
    if fonts.len() > 0 {
        assert(fonts.last() == fonts[fonts.len() - 1]);
        assert forall|i: int| 0 <= i < fonts.drop_last().len() implies known.contains_key(
            #[trigger] fonts.drop_last()[i],
        ) by {
            assert(fonts.drop_last()[i] == fonts[i]);
        }
        known_fonts_are_not_asked_for(known, fonts.drop_last());
    }
}

/// The first of the fonts is asked for first, if no answer to it is known.
proof fn the_first_font_is_asked_for_first(known: Map<FontView, Result<FontId, Seq<char>>>, fonts: Seq<FontView>)
    requires
        fonts.len() > 0,
        !known.contains_key(fonts[0]),
    ensures
        font_questions(known, fonts).len() > 0,
        font_questions(known, fonts)[0] == Action::FontAsked(fonts[0]),
    decreases fonts.len(),
{
    let init = fonts.drop_last();
    if init.len() > 0 {
        the_first_font_is_asked_for_first(known, init);
    } else {
        assert(font_questions(known, init) =~= Seq::empty());
    }
}

/// The questions for some fonts and then for others are those for all of them.
proof fn questions_add_up(
    known: Map<FontView, Result<FontId, Seq<char>>>,
    known_then: Map<FontView, Result<FontId, Seq<char>>>,
    fonts: Seq<FontView>,
    more_fonts: Seq<FontView>,
)
    requires
        forall|font: FontView| #[trigger]
            known_then.contains_key(font) <==> known.contains_key(font) || fonts.contains(font),
    ensures
        font_questions(known, fonts + more_fonts) == font_questions(known, fonts) + font_questions(
            known_then,
            more_fonts,
        ),
    decreases more_fonts.len(),
{
    let all = fonts + more_fonts;
    if more_fonts.len() == 0 {
        assert(all =~= fonts);
        assert(font_questions(known, fonts) + font_questions(known_then, more_fonts) =~= font_questions(known, fonts));
    } else {
        let init = more_fonts.drop_last();
        let font = more_fonts.last();
        questions_add_up(known, known_then, fonts, init);
        assert(all.drop_last() =~= fonts + init);
        assert(all.last() == font);
        contains_in_either(fonts, init, font);
        assert(known_then.contains_key(font) <==> known.contains_key(font) || fonts.contains(font));
        assert(font_questions(known, all) =~= font_questions(known, fonts) + font_questions(known_then, more_fonts));
    }
}

/// What is learned of some fonts and then of others is what is learned of all of them.
pub proof fn learning_adds_up<P: PlatformTextSystem>(
    platform: P,
    before: FontKnowledge,
    between: FontKnowledge,
    after: FontKnowledge,
    fonts: Seq<FontView>,
    more_fonts: Seq<FontView>,
)
    requires
        learned(platform, before, between, fonts),
        learned(platform, between, after, more_fonts),
    ensures
        learned(platform, before, after, fonts + more_fonts),
{
    let all = fonts + more_fonts;
    assert forall|font: FontView| #[trigger]
        after.answers.contains_key(font) <==> before.answers.contains_key(font) || all.contains(font) by {
        assert(between.answers.contains_key(font) <==> before.answers.contains_key(font) || fonts.contains(font));
        contains_in_either(fonts, more_fonts, font);
    }
    assert forall|font: FontView| #[trigger] before.answers.contains_key(font) implies after.answers[font]
        == before.answers[font] by {
        assert(between.answers.contains_key(font));
    }
    assert forall|font: FontView| #[trigger]
        after.answers.contains_key(font) && !before.answers.contains_key(font) implies was_asked(
        platform,
        font,
        after.answers[font],
    ) by {
        if between.answers.contains_key(font) {
            assert(after.answers[font] == between.answers[font]);
        }
    }
    questions_add_up(before.answers, between.answers, fonts, more_fonts);
    assert(after.record =~= before.record + font_questions(before.answers, all));
}

/// A font to which an answer is kept is not asked for again: neither the answers nor what was
/// asked change.
pub proof fn a_known_font_is_not_asked_for_again<P: PlatformTextSystem>(
    platform: P,
    before: FontKnowledge,
    after: FontKnowledge,
    font: FontView,
)
    requires
        learned(platform, before, after, seq![font]),
        before.answers.contains_key(font),
    ensures
        after == before,
{
    known_fonts_are_not_asked_for(before.answers, seq![font]);
    assert forall|other: FontView| after.answers.contains_key(other) implies before.answers.contains_key(other) by {}
    assert(after.answers =~= before.answers);
    assert(after.record =~= before.record);
}

/// Whether the font was answered: from the cache, asking nothing, or else from the platform,
/// asking once, into the cache.
pub open spec fn font_was_answered<P: PlatformTextSystem>(
    platform: P,
    before: FontKnowledge,
    after: FontKnowledge,
    font: FontView,
    answer: Result<FontId, Seq<char>>,
) -> bool {
    &&& learned(platform, before, after, seq![font])
    &&& answer == after.answers[font]
}

/// An answer to a font, be it an id or a failure, is given again as long as it is kept: the
/// platform is asked nothing, whatever it would answer now, and nothing changes.
pub proof fn a_kept_answer_is_given_again<P: PlatformTextSystem>(
    platform: P,
    before: FontKnowledge,
    between: FontKnowledge,
    later: FontKnowledge,
    after: FontKnowledge,
    font: FontView,
    answer: Result<FontId, Seq<char>>,
    answer_again: Result<FontId, Seq<char>>,
)
    requires
        font_was_answered(platform, before, between, font, answer),
        between.answers.submap_of(later.answers),
        font_was_answered(platform, later, after, font, answer_again),
    ensures
        answer_again == answer,
        after == later,
{
    assert(seq![font][0] == font);
    assert(seq![font].contains(font));
    assert(between.answers.contains_key(font));
    assert(between.answers.dom().contains(font));
    assert(later.answers.contains_key(font));
    a_known_font_is_not_asked_for_again(platform, later, after, font);
}

/// Learning keeps what was known.
pub proof fn learning_keeps_answers<P: PlatformTextSystem>(
    platform: P,
    before: FontKnowledge,
    after: FontKnowledge,
    fonts: Seq<FontView>,
)
    requires
        learned(platform, before, after, fonts),
    ensures
        before.answers.submap_of(after.answers),
{
    assert forall|font: FontView| before.answers.dom().contains(font) implies after.answers.dom().contains(font)
        && before.answers[font] == after.answers[font] by {
        assert(before.answers.contains_key(font));
        assert(after.answers.contains_key(font));
    }
}

/// Where a search among fonts stands, given the answers that are known.
pub enum SearchView {
    /// This is the id of the first font that loads.
    Resolved(FontId),
    /// No answer is known to this font, and those before it fail to load.
    Ask(FontView),
    /// Every font fails to load.
    Unresolved,
}

/// Where a search among the fonts, in order, stands.
pub open spec fn search(answers: Map<FontView, Result<FontId, Seq<char>>>, fonts: Seq<FontView>) -> SearchView
    decreases fonts.len(),
{
    if fonts.len() == 0 {
        SearchView::Unresolved
    } else if !answers.contains_key(fonts[0]) {
        SearchView::Ask(fonts[0])
    } else {
        match answers[fonts[0]] {
            Ok(font_id) => SearchView::Resolved(font_id),
            Err(_) => search(answers, fonts.drop_first()),
        }
    }
}

/// A search stands where the first of the fonts that does not fail to load stands.
pub proof fn a_search_stands_at_the_first_that_does_not_fail(
    answers: Map<FontView, Result<FontId, Seq<char>>>,
    fonts: Seq<FontView>,
    at: int,
)
    requires
        0 <= at <= fonts.len(),
        forall|i: int| 0 <= i < at ==> answers.contains_key(#[trigger] fonts[i]) && answers[fonts[i]] is Err,
    ensures
        search(answers, fonts) == search(answers, fonts.skip(at)),
    decreases at,
{
    if at > 0 {
        let rest = fonts.drop_first();
        assert(answers.contains_key(fonts[0]) && answers[fonts[0]] is Err);
        assert forall|i: int| 0 <= i < at - 1 implies answers.contains_key(#[trigger] rest[i])
            && answers[rest[i]] is Err by {
            assert(rest[i] == fonts[i + 1]);
        }
        a_search_stands_at_the_first_that_does_not_fail(answers, rest, at - 1);
        assert(rest.skip(at - 1) =~= fonts.skip(at));
    } else {
        assert(fonts.skip(0) =~= fonts);
    }
}

/// Once fonts are resolved, a search among them stands at the result.
pub proof fn a_search_ends_as_resolving_does<P: PlatformTextSystem>(
    platform: P,
    before: FontKnowledge,
    after: FontKnowledge,
    fonts: Seq<FontView>,
    resolved: Option<FontId>,
)
    requires
        was_resolved(platform, before, after, fonts, resolved),
    ensures
        search(after.answers, fonts) == match resolved {
            Some(font_id) => SearchView::Resolved(font_id),
            None => SearchView::Unresolved,
        },
{
    let tried = choose|tried: int| #[trigger] was_resolved_after(platform, before, after, fonts, tried, resolved);
    assert forall|i: int| 0 <= i < tried implies after.answers.contains_key(#[trigger] fonts[i]) by {
        assert(fonts.take(tried)[i] == fonts[i]);
        assert(fonts.take(tried).contains(fonts[i]));
    }
    let at = if resolved is Some {
        tried - 1
    } else {
        tried
    };
    a_search_stands_at_the_first_that_does_not_fail(after.answers, fonts, at);
    if resolved is Some {
        assert(fonts.skip(at)[0] == fonts[at]);
    }
}

/// Whether the fonts were resolved one after the other, to these ids.
pub open spec fn were_resolved<P: PlatformTextSystem>(
    platform: P,
    before: FontKnowledge,
    after: FontKnowledge,
    fonts: Seq<Font>,
    fallbacks: Seq<Font>,
    resolved: Seq<FontId>,
) -> bool {
    exists|steps: Seq<FontKnowledge>|
        {
            &&& steps.first() == before
            &&& steps.last() == after
            &&& #[trigger] were_resolved_through(platform, steps, fonts, fallbacks, resolved)
        }
}

/// Whether resolving each of the fonts led from one of the steps to the next.
pub open spec fn were_resolved_through<P: PlatformTextSystem>(
    platform: P,
    steps: Seq<FontKnowledge>,
    fonts: Seq<Font>,
    fallbacks: Seq<Font>,
    resolved: Seq<FontId>,
) -> bool {
    &&& resolved.len() == fonts.len()
    &&& steps.len() == fonts.len() + 1
    &&& forall|i: int|
        0 <= i < fonts.len() ==> was_resolved(
            platform,
            steps[i],
            steps[i + 1],
            candidates((#[trigger] fonts[i])@, fallbacks),
            Some(resolved[i]),
        )
}

/// Resolving one font more continues the sequence.
pub proof fn one_more_was_resolved<P: PlatformTextSystem>(
    platform: P,
    before: FontKnowledge,
    between: FontKnowledge,
    after: FontKnowledge,
    fonts: Seq<Font>,
    fallbacks: Seq<Font>,
    resolved: Seq<FontId>,
    font: Font,
    font_id: FontId,
)
    requires
        were_resolved(platform, before, between, fonts, fallbacks, resolved),
        was_resolved(platform, between, after, candidates(font@, fallbacks), Some(font_id)),
    ensures
        were_resolved(platform, before, after, fonts.push(font), fallbacks, resolved.push(font_id)),
{
    let steps = choose|steps: Seq<FontKnowledge>|
        {
            &&& steps.first() == before
            &&& steps.last() == between
            &&& #[trigger] were_resolved_through(platform, steps, fonts, fallbacks, resolved)
        };
    let all_steps = steps.push(after);
    let all_fonts = fonts.push(font);
    assert forall|i: int| 0 <= i < all_fonts.len() implies was_resolved(
        platform,
        all_steps[i],
        all_steps[i + 1],
        candidates((#[trigger] all_fonts[i])@, fallbacks),
        Some(resolved.push(font_id)[i]),
    ) by {
        if i < fonts.len() {
            assert(all_fonts[i] == fonts[i]);
        }
    }
    assert(were_resolved_through(platform, all_steps, all_fonts, fallbacks, resolved.push(font_id)));
}

/// Whether the id is that of the font, or of the first fallback in the stack that loads.
pub open spec fn loads_first(
    answers: Map<FontView, Result<FontId, Seq<char>>>,
    font: FontView,
    fallbacks: Seq<Font>,
    font_id: FontId,
) -> bool {
    &&& answers.contains_key(font)
    &&& answers[font] == Ok::<FontId, Seq<char>>(font_id) || exists|k: int|
        {
            &&& 0 <= k < fallbacks.len()
            &&& answers[font] is Err
            &&& forall|i: int|
                0 <= i < k ==> answers.contains_key((#[trigger] fallbacks[i])@) && answers[fallbacks[i]@] is Err
            &&& answers.contains_key((#[trigger] fallbacks[k])@)
            &&& answers[fallbacks[k]@] == Ok::<FontId, Seq<char>>(font_id)
        }
}

/// What loads first is the font if it loads, and otherwise the fallback before which all fail.
pub proof fn what_loads_first_is_alone(
    answers: Map<FontView, Result<FontId, Seq<char>>>,
    font: FontView,
    fallbacks: Seq<Font>,
    font_id: FontId,
    at: int,
)
    requires
        loads_first(answers, font, fallbacks, font_id),
    ensures
        answers[font] matches Ok(given) ==> font_id == given,
        0 <= at < fallbacks.len() && answers[font] is Err && (forall|i: int|
            0 <= i < at ==> answers.contains_key((#[trigger] fallbacks[i])@) && answers[fallbacks[i]@] is Err)
            && answers.contains_key(fallbacks[at]@) ==> (answers[fallbacks[at]@] matches Ok(given) ==> font_id == given),
        answers[font] is Ok || exists|i: int|
            0 <= i < fallbacks.len() && answers.contains_key((#[trigger] fallbacks[i])@)
                && answers[fallbacks[i]@] is Ok,
{
    if answers[font] is Err {
        let k = choose|k: int|
            {
                &&& 0 <= k < fallbacks.len()
                &&& forall|i: int|
                    0 <= i < k ==> answers.contains_key((#[trigger] fallbacks[i])@) && answers[fallbacks[i]@] is Err
                &&& answers.contains_key((#[trigger] fallbacks[k])@)
                &&& answers[fallbacks[k]@] == Ok::<FontId, Seq<char>>(font_id)
            };
        if 0 <= at < k {
            assert(answers[fallbacks[at]@] is Err);
        }
    }
}

/// Only one id loads first.
pub proof fn one_loads_first(
    answers: Map<FontView, Result<FontId, Seq<char>>>,
    font: FontView,
    fallbacks: Seq<Font>,
    font_id: FontId,
    other: FontId,
)
    requires
        loads_first(answers, font, fallbacks, font_id),
        loads_first(answers, font, fallbacks, other),
    ensures
        font_id == other,
{
    if answers[font] is Err {
        let k = choose|k: int|
            {
                &&& 0 <= k < fallbacks.len()
                &&& answers[font] is Err
                &&& forall|i: int|
                    0 <= i < k ==> answers.contains_key((#[trigger] fallbacks[i])@) && answers[fallbacks[i]@] is Err
                &&& answers.contains_key((#[trigger] fallbacks[k])@)
                &&& answers[fallbacks[k]@] == Ok::<FontId, Seq<char>>(font_id)
            };
        what_loads_first_is_alone(answers, font, fallbacks, other, k);
    } else {
        what_loads_first_is_alone(answers, font, fallbacks, other, 0);
    }
}

/// What loads first by some answers does so by all that keep them.
proof fn what_loads_first_stays_so(
    answers: Map<FontView, Result<FontId, Seq<char>>>,
    more: Map<FontView, Result<FontId, Seq<char>>>,
    font: FontView,
    fallbacks: Seq<Font>,
    font_id: FontId,
)
    requires
        loads_first(answers, font, fallbacks, font_id),
        answers.submap_of(more),
    ensures
        loads_first(more, font, fallbacks, font_id),
{
    assert forall|known: FontView| #[trigger] answers.contains_key(known) implies more.contains_key(known)
        && more[known] == answers[known] by {
        assert(answers.dom().contains(known));
        assert(more.dom().contains(known));
    }
    if answers[font] is Err {
        let k = choose|k: int|
            {
                &&& 0 <= k < fallbacks.len()
                &&& answers[font] is Err
                &&& forall|i: int|
                    0 <= i < k ==> answers.contains_key((#[trigger] fallbacks[i])@) && answers[fallbacks[i]@] is Err
                &&& answers.contains_key((#[trigger] fallbacks[k])@)
                &&& answers[fallbacks[k]@] == Ok::<FontId, Seq<char>>(font_id)
            };
        assert forall|i: int| 0 <= i < k implies more.contains_key((#[trigger] fallbacks[i])@)
            && more[fallbacks[i]@] is Err by {
            assert(answers.contains_key(fallbacks[i]@));
        }
        assert(more.contains_key(fallbacks[k]@));
    }
}

/// Fonts that are resolved one after the other are each resolved to the first that loads, of the
/// font and its fallbacks, and the answers to them are kept.
pub proof fn each_font_is_resolved_to_the_first_that_loads<P: PlatformTextSystem>(
    platform: P,
    before: FontKnowledge,
    after: FontKnowledge,
    fonts: Seq<Font>,
    fallbacks: Seq<Font>,
    resolved: Seq<FontId>,
)
    requires
        were_resolved(platform, before, after, fonts, fallbacks, resolved),
    ensures
        resolved.len() == fonts.len(),
        before.answers.submap_of(after.answers),
        forall|n: int|
            0 <= n < fonts.len() ==> loads_first(after.answers, (#[trigger] fonts[n])@, fallbacks, resolved[n]),
    decreases fonts.len(),
{
    let steps = choose|steps: Seq<FontKnowledge>|
        {
            &&& steps.first() == before
            &&& steps.last() == after
            &&& #[trigger] were_resolved_through(platform, steps, fonts, fallbacks, resolved)
        };
    if fonts.len() > 0 {
        let last = fonts.len() - 1;
        let fewer_steps = steps.drop_last();
        let between = steps[last];
        assert forall|i: int| 0 <= i < last implies was_resolved(
            platform,
            fewer_steps[i],
            fewer_steps[i + 1],
            candidates((#[trigger] fonts.drop_last()[i])@, fallbacks),
            Some(resolved.drop_last()[i]),
        ) by {
            assert(fonts.drop_last()[i] == fonts[i]);
        }
        assert(were_resolved_through(platform, fewer_steps, fonts.drop_last(), fallbacks, resolved.drop_last()));
        assert(fewer_steps.last() == between);
        each_font_is_resolved_to_the_first_that_loads(
            platform,
            before,
            between,
            fonts.drop_last(),
            fallbacks,
            resolved.drop_last(),
        );
        let candidate_fonts = candidates(fonts[last]@, fallbacks);
        assert(was_resolved(platform, between, after, candidate_fonts, Some(resolved[last])));
        let tried = choose|tried: int| #[trigger]
            was_resolved_after(platform, between, after, candidate_fonts, tried, Some(resolved[last]));
        learning_keeps_answers(platform, between, after, candidate_fonts.take(tried));
        the_first_that_loads_is_used(platform, between, after, fonts[last]@, fallbacks, Some(resolved[last]));
        assert(loads_first(after.answers, fonts[last]@, fallbacks, resolved[last]));
        assert forall|n: int| 0 <= n < fonts.len() implies loads_first(
            after.answers,
            (#[trigger] fonts[n])@,
            fallbacks,
            resolved[n],
        ) by {
            if n < last {
                assert(fonts.drop_last()[n] == fonts[n]);
                what_loads_first_stays_so(between.answers, after.answers, fonts[n]@, fallbacks, resolved[n]);
            }
        }
    }
}

/// Once fonts have been tried, trying them again asks the platform nothing and gives the
/// same result.
pub proof fn resolving_again_changes_nothing<P: PlatformTextSystem>(
    platform: P,
    before: FontKnowledge,
    after: FontKnowledge,
    later: FontKnowledge,
    fonts: Seq<FontView>,
    resolved: Option<FontId>,
    resolved_again: Option<FontId>,
)
    requires
        was_resolved(platform, before, after, fonts, resolved),
        was_resolved(platform, after, later, fonts, resolved_again),
    ensures
        later == after,
        resolved_again == resolved,
{
    let tried = choose|tried: int| #[trigger] was_resolved_after(platform, before, after, fonts, tried, resolved);
    let again = choose|tried: int| #[trigger] was_resolved_after(platform, after, later, fonts, tried, resolved_again);
    assert forall|i: int| 0 <= i < tried implies after.answers.contains_key(#[trigger] fonts[i])
        && later.answers[fonts[i]] == after.answers[fonts[i]] by {
        assert(fonts.take(tried)[i] == fonts[i]);
        assert(fonts.take(tried).contains(fonts[i]));
        assert(after.answers.contains_key(fonts[i]));
    }
    if again < tried {
        assert(later.answers[fonts[again - 1]] == after.answers[fonts[again - 1]]);
        assert(after.answers[fonts[again - 1]] is Err);
    }
    if tried < again {
        assert(later.answers[fonts[tried - 1]] == after.answers[fonts[tried - 1]]);
        assert(later.answers[fonts[tried - 1]] is Err);
    }
    assert forall|font: FontView| later.answers.contains_key(font) implies after.answers.contains_key(font) by {
        if fonts.take(again).contains(font) {
            let i = choose|i: int| 0 <= i < fonts.take(again).len() && fonts.take(again)[i] == font;
            assert(fonts[i] == font);
        }
    }
    assert(later.answers =~= after.answers);
    assert forall|i: int| 0 <= i < fonts.take(again).len() implies after.answers.contains_key(
        #[trigger] fonts.take(again)[i],
    ) by {
        assert(fonts.take(again)[i] == fonts[i]);
    }
    known_fonts_are_not_asked_for(after.answers, fonts.take(again));
    assert(later.record =~= after.record);
}

/// When nothing is cached, as after fonts were installed, the platform is asked for the font
/// itself again, before any other.
pub proof fn nothing_cached_is_asked_again<P: PlatformTextSystem>(
    platform: P,
    before: FontKnowledge,
    after: FontKnowledge,
    font: FontView,
    fallbacks: Seq<Font>,
    resolved: Option<FontId>,
)
    requires
        before.answers == Map::<FontView, Result<FontId, Seq<char>>>::empty(),
        was_resolved(platform, before, after, candidates(font, fallbacks), resolved),
    ensures
        after.answers.contains_key(font),
        was_asked(platform, font, after.answers[font]),
        after.record.len() > before.record.len(),
        after.record[before.record.len() as int] == Action::FontAsked(font),
{
    let fonts = candidates(font, fallbacks);
    let tried = choose|tried: int| #[trigger] was_resolved_after(platform, before, after, fonts, tried, resolved);
    assert(fonts.take(tried)[0] == font);
    assert(fonts.take(tried).contains(font));
    assert(after.answers.contains_key(font) && !before.answers.contains_key(font));
    the_first_font_is_asked_for_first(before.answers, fonts.take(tried));
}

/// A font that loads is used itself, and no fallback is tried.
pub proof fn a_loadable_font_needs_no_fallback<P: PlatformTextSystem>(
    platform: P,
    before: FontKnowledge,
    after: FontKnowledge,
    font: FontView,
    fallbacks: Seq<Font>,
    resolved: Option<FontId>,
)
    requires
        was_resolved(platform, before, after, candidates(font, fallbacks), resolved),
        after.answers[font] is Ok,
    ensures
        resolved == Some(after.answers[font]->Ok_0),
        learned(platform, before, after, seq![font]),
{
    let fonts = candidates(font, fallbacks);
    let tried = choose|tried: int| #[trigger] was_resolved_after(platform, before, after, fonts, tried, resolved);
    assert(fonts[0] == font);
    if tried > 1 {
        assert(after.answers[fonts[0]] is Err);
    }
    assert(fonts.take(tried) =~= seq![font]);
}

/// Which fonts were tried and failed, told by the places of the fallbacks in the stack: the font and
/// the first of the fallbacks.
proof fn tried_fonts_by_place<P: PlatformTextSystem>(
    platform: P,
    before: FontKnowledge,
    after: FontKnowledge,
    font: FontView,
    fallbacks: Seq<Font>,
    tried: int,
    resolved: Option<FontId>,
)
    requires
        was_resolved_after(platform, before, after, candidates(font, fallbacks), tried, resolved),
    ensures
        1 <= tried <= fallbacks.len() + 1,
        after.answers.contains_key(font),
        tried > 1 ==> after.answers[font] is Err,
        forall|i: int| 0 <= i < tried - 1 ==> after.answers.contains_key((#[trigger] fallbacks[i])@),
        forall|i: int| 0 <= i < tried - 2 ==> after.answers[(#[trigger] fallbacks[i])@] is Err,
        match resolved {
            Some(font_id) => if tried == 1 {
                after.answers[font] == Ok::<FontId, Seq<char>>(font_id)
            } else {
                after.answers[fallbacks[tried - 2]@] == Ok::<FontId, Seq<char>>(font_id)
            },
            None => {
                &&& tried == fallbacks.len() + 1
                &&& after.answers[font] is Err
                &&& tried > 1 ==> after.answers[fallbacks[tried - 2]@] is Err
            },
        },
        forall|asked: FontView| #[trigger]
            after.answers.contains_key(asked) && !before.answers.contains_key(asked) ==> asked == font || exists|k: int|
                0 <= k < tried - 1 && (#[trigger] fallbacks[k])@ == asked,
{
    let fonts = candidates(font, fallbacks);
    let first = fonts.take(tried);
    assert(fonts.len() == fallbacks.len() + 1);
    assert(fonts[0] == font);
    assert(first[0] == font);
    assert(first.contains(font));
    if tried > 1 {
        assert(after.answers[fonts[0]] is Err);
        assert(fonts[tried - 1] == fallbacks[tried - 2]@);
    }
    assert forall|i: int| 0 <= i < tried - 1 implies after.answers.contains_key((#[trigger] fallbacks[i])@) by {
        assert(first[i + 1] == fallbacks[i]@);
        assert(first.contains(fallbacks[i]@));
    }
    assert forall|i: int| 0 <= i < tried - 2 implies after.answers[(#[trigger] fallbacks[i])@] is Err by {
        assert(fonts[i + 1] == fallbacks[i]@);
    }
    assert forall|asked: FontView| #[trigger]
        after.answers.contains_key(asked) && !before.answers.contains_key(asked) && asked != font implies exists|k: int|
        0 <= k < tried - 1 && (#[trigger] fallbacks[k])@ == asked by {
        assert(first.contains(asked));
        let j = choose|j: int| 0 <= j < first.len() && first[j] == asked;
        assert(fallbacks[j - 1]@ == asked);
    }
}

/// The first that loads is used: the font itself if it does, or else the fallback of which all
/// those before it in the stack, and the font, fail to load; and none exactly if all of them fail.
/// Nothing is asked for but these, so that a fallback is tried only when all before it failed.
pub proof fn the_first_that_loads_is_used<P: PlatformTextSystem>(
    platform: P,
    before: FontKnowledge,
    after: FontKnowledge,
    font: FontView,
    fallbacks: Seq<Font>,
    resolved: Option<FontId>,
)
    requires
        was_resolved(platform, before, after, candidates(font, fallbacks), resolved),
    ensures
        after.answers.contains_key(font),
        after.answers[font] matches Ok(font_id) ==> resolved == Some(font_id),
        forall|k: int|
            0 <= k < fallbacks.len() && after.answers[font] is Err && (forall|i: int|
                0 <= i < k ==> after.answers.contains_key((#[trigger] fallbacks[i])@)
                    && after.answers[fallbacks[i]@] is Err) && after.answers.contains_key((#[trigger] fallbacks[k])@)
                ==> (after.answers[fallbacks[k]@] matches Ok(font_id) ==> resolved == Some(font_id)),
        match resolved {
            Some(font_id) => after.answers[font] == Ok::<FontId, Seq<char>>(font_id) || exists|k: int|
                {
                    &&& 0 <= k < fallbacks.len()
                    &&& after.answers[font] is Err
                    &&& forall|i: int|
                        0 <= i < k ==> after.answers.contains_key((#[trigger] fallbacks[i])@)
                            && after.answers[fallbacks[i]@] is Err
                    &&& after.answers.contains_key((#[trigger] fallbacks[k])@)
                    &&& after.answers[fallbacks[k]@] == Ok::<FontId, Seq<char>>(font_id)
                },
            None => {
                &&& after.answers[font] is Err
                &&& forall|i: int|
                    0 <= i < fallbacks.len() ==> after.answers.contains_key((#[trigger] fallbacks[i])@)
                        && after.answers[fallbacks[i]@] is Err
            },
        },
        forall|asked: FontView| #[trigger]
            after.answers.contains_key(asked) && !before.answers.contains_key(asked) ==> asked == font || exists|k: int|
                {
                    &&& 0 <= k < fallbacks.len()
                    &&& (#[trigger] fallbacks[k])@ == asked
                    &&& after.answers[font] is Err
                    &&& forall|i: int|
                        0 <= i < k ==> after.answers.contains_key((#[trigger] fallbacks[i])@)
                            && after.answers[fallbacks[i]@] is Err
                },
{
    let tried = choose|tried: int| #[trigger]
        was_resolved_after(platform, before, after, candidates(font, fallbacks), tried, resolved);
    tried_fonts_by_place(platform, before, after, font, fallbacks, tried, resolved);
    assert forall|k: int|
        0 <= k < fallbacks.len() && after.answers[font] is Err && (forall|i: int|
            0 <= i < k ==> after.answers.contains_key((#[trigger] fallbacks[i])@) && after.answers[fallbacks[i]@] is Err)
            && after.answers.contains_key((#[trigger] fallbacks[k])@) && after.answers[fallbacks[k]@] is Ok implies resolved
        == Some(after.answers[fallbacks[k]@]->Ok_0) by {
        if tried > 1 && tried - 2 < k {
            assert(after.answers[fallbacks[tried - 2]@] is Err);
        }
        if k < tried - 2 {
            assert(after.answers[fallbacks[k]@] is Err);
        }
    }
    if tried > 1 {
        assert(after.answers.contains_key(fallbacks[tried - 2]@));
    }
}

/// The questions stand in the order of the fonts: each is for a font to which no answer was known,
/// where it occurs first; and there is one for each of these.
pub proof fn unknown_fonts_are_asked_for_in_order(
    known: Map<FontView, Result<FontId, Seq<char>>>,
    fonts: Seq<FontView>,
) -> (places: Seq<int>)
    ensures
        places.len() == font_questions(known, fonts).len(),
        forall|i: int|
            0 <= i < places.len() ==> {
                &&& 0 <= #[trigger] places[i] < fonts.len()
                &&& font_questions(known, fonts)[i] == Action::FontAsked(fonts[places[i]])
                &&& !known.contains_key(fonts[places[i]])
                &&& !fonts.take(places[i]).contains(fonts[places[i]])
            },
        forall|i: int, j: int| 0 <= i < j < places.len() ==> #[trigger] places[i] < #[trigger] places[j],
        forall|font: FontView| #[trigger]
            fonts.contains(font) && !known.contains_key(font) ==> font_questions(known, fonts).contains(
                Action::FontAsked(font),
            ),
    decreases fonts.len(),
{
    if fonts.len() == 0 {
        Seq::empty()
    } else {
        let init = fonts.drop_last();
        let last = fonts.len() - 1;
        let earlier = unknown_fonts_are_asked_for_in_order(known, init);
        let questions = font_questions(known, init);
        assert(init.push(fonts.last()) =~= fonts);
        assert forall|i: int| 0 <= i < earlier.len() implies fonts[#[trigger] earlier[i]] == init[earlier[i]] && fonts.take(
            earlier[i],
        ) == init.take(earlier[i]) by {
            assert(fonts.take(earlier[i]) =~= init.take(earlier[i]));
        }
        assert forall|font: FontView| #[trigger] fonts.contains(font) && !known.contains_key(font) implies font_questions(
            known,
            fonts,
        ).contains(Action::FontAsked(font)) by {
            contains_after_push(init, fonts.last(), font);
            contains_after_push(questions, Action::FontAsked(fonts.last()), Action::FontAsked(font));
        }
        if known.contains_key(fonts.last()) || init.contains(fonts.last()) {
            earlier
        } else {
            assert(fonts.take(last) =~= init);
            earlier.push(last)
        }
    }
}

/// Learning asks for each font that was not known once, and for nothing else; what was asked before
/// stays on record.
pub proof fn each_unknown_font_is_asked_for_once<P: PlatformTextSystem>(
    platform: P,
    before: FontKnowledge,
    after: FontKnowledge,
    fonts: Seq<FontView>,
)
    requires
        learned(platform, before, after, fonts),
    ensures
        before.record.len() <= after.record.len(),
        after.record.take(before.record.len() as int) == before.record,
        forall|i: int|
            before.record.len() <= i < after.record.len() ==> {
                &&& #[trigger] after.record[i] matches Action::FontAsked(font)
                &&& fonts.contains(font)
                &&& !before.answers.contains_key(font)
            },
        forall|i: int, j: int|
            before.record.len() <= i < j < after.record.len() ==> #[trigger] after.record[i]
                != #[trigger] after.record[j],
        forall|font: FontView| #[trigger]
            after.answers.contains_key(font) && !before.answers.contains_key(font) ==> exists|i: int|
                before.record.len() <= i < after.record.len() && #[trigger] after.record[i] == Action::FontAsked(font),
{
    let questions = font_questions(before.answers, fonts);
    let places = unknown_fonts_are_asked_for_in_order(before.answers, fonts);
    let start = before.record.len() as int;
    assert(after.record.take(start) =~= before.record);
    assert forall|i: int| start <= i < after.record.len() implies #[trigger] after.record[i] == questions[i - start]
        && questions[i - start] == Action::FontAsked(fonts[places[i - start]]) && !before.answers.contains_key(
        fonts[places[i - start]],
    ) by {
        assert(0 <= places[i - start] < fonts.len());
    }
    assert forall|i: int, j: int| start <= i < j < after.record.len() implies #[trigger] after.record[i]
        != #[trigger] after.record[j] by {
        let (p, q) = (places[i - start], places[j - start]);
        assert(p < q);
        assert(after.record[i] == Action::FontAsked(fonts[p]));
        assert(after.record[j] == Action::FontAsked(fonts[q]));
        assert(fonts.take(q)[p] == fonts[p]);
    }
    assert forall|font: FontView| #[trigger]
        after.answers.contains_key(font) && !before.answers.contains_key(font) implies exists|i: int|
        start <= i < after.record.len() && #[trigger] after.record[i] == Action::FontAsked(font) by {
        assert(fonts.contains(font));
        let i = choose|i: int| 0 <= i < questions.len() && questions[i] == Action::FontAsked(font);
        assert(after.record[start + i] == questions[i]);
    }
}

/// An id that a font was resolved to is cached as the answer to one of the fonts that were
/// tried, so that the id leads back to a font.
pub proof fn a_resolved_id_has_a_font<P: PlatformTextSystem>(
    platform: P,
    before: FontKnowledge,
    after: FontKnowledge,
    fonts: Seq<FontView>,
    font_id: FontId,
)
    requires
        was_resolved(platform, before, after, fonts, Some(font_id)),
    ensures
        exists|font: FontView|
            {
                &&& fonts.contains(font)
                &&& #[trigger] after.answers.contains_key(font)
                &&& after.answers[font] == Ok::<FontId, Seq<char>>(font_id)
            },
{
    let tried = choose|tried: int| #[trigger]
        was_resolved_after(platform, before, after, fonts, tried, Some(font_id));
    let font = fonts[tried - 1];
    assert(fonts.take(tried)[tried - 1] == font);
    assert(fonts.take(tried).contains(font));
    assert(after.answers.contains_key(font));
}

/// Whether the font's metrics were read: from the cache, asking nothing, or else from the
/// platform, asking once, into the cache.
pub open spec fn metrics_were_read<P: PlatformTextSystem>(
    platform: P,
    before: MetricsKnowledge,
    after: MetricsKnowledge,
    font_id: FontId,
    metrics: FontMetrics,
) -> bool {
    if before.answers.contains_key(font_id.0) {
        metrics == before.answers[font_id.0] && after == before
    } else {
        &&& call_ensures(P::font_metrics, (&platform, font_id), metrics)
        &&& after == (Knowledge {
            answers: before.answers.insert(font_id.0, metrics),
            record: before.record.push(Action::MetricsAsked(font_id)),
        })
    }
}

/// Metrics that were read once are the same ever after, and the platform is not asked again.
pub proof fn metrics_are_asked_for_once<P: PlatformTextSystem>(
    platform: P,
    before: MetricsKnowledge,
    after: MetricsKnowledge,
    later: MetricsKnowledge,
    font_id: FontId,
    metrics: FontMetrics,
    metrics_again: FontMetrics,
)
    requires
        metrics_were_read(platform, before, after, font_id, metrics),
        metrics_were_read(platform, after, later, font_id, metrics_again),
    ensures
        metrics_again == metrics,
        later == after,
{
}

/// Whether the raster bounds were read: from the cache, asking nothing, or else from the
/// platform, asking once, and into the cache unless the platform failed.
pub open spec fn raster_bounds_were_read<P: PlatformTextSystem>(
    platform: P,
    before: RasterKnowledge,
    after: RasterKnowledge,
    params: RenderGlyphParams,
    bounds: Result<Bounds<DevicePixels>, String>,
) -> bool {
    if before.answers.contains_key(params) {
        bounds == Ok::<Bounds<DevicePixels>, String>(before.answers[params]) && after == before
    } else {
        &&& call_ensures(P::glyph_raster_bounds, (&platform, &params), bounds)
        &&& after == (Knowledge {
            answers: match bounds {
                Ok(given) => before.answers.insert(params, given),
                Err(_) => before.answers,
            },
            record: before.record.push(Action::RasterBoundsAsked(params)),
        })
    }
}

/// Raster bounds that were read once are the same ever after, and the platform is not asked
/// again; a failure is not remembered, and the platform is asked again.
pub proof fn raster_bounds_are_asked_for_once<P: PlatformTextSystem>(
    platform: P,
    before: RasterKnowledge,
    after: RasterKnowledge,
    later: RasterKnowledge,
    params: RenderGlyphParams,
    bounds: Result<Bounds<DevicePixels>, String>,
    bounds_again: Result<Bounds<DevicePixels>, String>,
)
    requires
        raster_bounds_were_read(platform, before, after, params, bounds),
        raster_bounds_were_read(platform, after, later, params, bounds_again),
    ensures
        bounds is Ok ==> bounds_again == bounds && later == after,
        bounds is Err ==> {
            &&& after.answers == before.answers
            &&& call_ensures(P::glyph_raster_bounds, (&platform, &params), bounds_again)
            &&& later.record == after.record.push(Action::RasterBoundsAsked(params))
        },
{
}

/// A glyph is rasterized within the bounds, origin and size, that are read for the same parameters:
/// those are what the platform is told last, and what is read afterwards too. Without bounds it is
/// not rasterized.
pub proof fn a_glyph_is_rasterized_within_its_bounds<P: PlatformTextSystem>(
    platform: P,
    before: RasterKnowledge,
    between: RasterKnowledge,
    record: Seq<Action>,
    later: RasterKnowledge,
    params: RenderGlyphParams,
    bounds: Result<Bounds<DevicePixels>, String>,
    rasterized: Result<(Size<DevicePixels>, Vec<u8>), String>,
    bounds_again: Result<Bounds<DevicePixels>, String>,
)
    requires
        raster_bounds_were_read(platform, before, between, params, bounds),
        glyph_was_rasterized(platform, between.record, record, &params, bounds, rasterized),
        raster_bounds_were_read(platform, Knowledge { answers: between.answers, record }, later, params, bounds_again),
    ensures
        rasterized is Ok ==> bounds is Ok,
        bounds matches Ok(given) ==> {
            &&& between.answers.contains_key(params)
            &&& between.answers[params].origin == given.origin
            &&& between.answers[params].size == given.size
            &&& record == between.record.push(Action::Rasterized(params, between.answers[params]))
            &&& call_ensures(P::rasterize_glyph, (&platform, &params, between.answers[params]), rasterized)
            &&& bounds_again == Ok::<Bounds<DevicePixels>, String>(between.answers[params])
        },
        bounds matches Err(message) ==> {
            &&& record == between.record
            &&& rasterized == Err::<(Size<DevicePixels>, Vec<u8>), String>(message)
        },
{
}

/// Whether what was found of a glyph was scaled: by the metrics of the font if it was found,
/// which are read then and only then.
pub open spec fn was_scaled<P: PlatformTextSystem, T>(
    platform: P,
    before: MetricsKnowledge,
    after: MetricsKnowledge,
    font_id: FontId,
    font_size: Pixels,
    found: Result<T, TextError>,
    scaled: Result<Scaled<T>, TextError>,
) -> bool {
    match found {
        Err(error) => scaled == Err::<Scaled<T>, TextError>(error) && after == before,
        Ok(value) => exists|metrics: FontMetrics| #[trigger]
            metrics_were_read(platform, before, after, font_id, metrics) && scaled == Ok::<Scaled<T>, TextError>(
                Scaled { value, units_per_em: metrics.units_per_em, font_size },
            ),
    }
}

/// Whether the character's bounds were measured: those of its glyph were looked up, and scaled.
pub open spec fn bounds_were_measured<P: PlatformTextSystem>(
    platform: P,
    before: MetricsKnowledge,
    after: MetricsKnowledge,
    font_id: FontId,
    font_size: Pixels,
    character: char,
    measured: Result<Scaled<Bounds<FontUnits>>, TextError>,
) -> bool {
    exists|found: Result<Bounds<FontUnits>, TextError>, between: Seq<Action>|
        {
            &&& #[trigger] glyph_bounds_were_found(platform, before.record, between, font_id, character, found)
            &&& was_scaled(
                platform,
                Knowledge { answers: before.answers, record: between },
                after,
                font_id,
                font_size,
                found,
                measured,
            )
        }
}

/// Whether the character's advance was measured: that of its glyph was looked up, and scaled.
pub open spec fn advance_was_measured<P: PlatformTextSystem>(
    platform: P,
    before: MetricsKnowledge,
    after: MetricsKnowledge,
    font_id: FontId,
    font_size: Pixels,
    character: char,
    measured: Result<Scaled<Size<FontUnits>>, TextError>,
) -> bool {
    exists|found: Result<Size<FontUnits>, TextError>, between: Seq<Action>|
        {
            &&& #[trigger] glyph_advance_was_found(platform, before.record, between, font_id, character, found)
            &&& was_scaled(
                platform,
                Knowledge { answers: before.answers, record: between },
                after,
                font_id,
                font_size,
                found,
                measured,
            )
        }
}

/// The width of what was measured.
pub open spec fn width_of_bounds(
    measured: Result<Scaled<Bounds<FontUnits>>, TextError>,
) -> Result<Scaled<FontUnits>, TextError> {
    match measured {
        Ok(bounds) => Ok(
            Scaled {
                value: bounds.value.size.width,
                units_per_em: bounds.units_per_em,
                font_size: bounds.font_size,
            },
        ),
        Err(error) => Err(error),
    }
}

/// The width of what was measured.
pub open spec fn width_of_size(
    measured: Result<Scaled<Size<FontUnits>>, TextError>,
) -> Result<Scaled<FontUnits>, TextError> {
    match measured {
        Ok(size) => Ok(
            Scaled { value: size.value.width, units_per_em: size.units_per_em, font_size: size.font_size },
        ),
        Err(error) => Err(error),
    }
}

/// What is measured of a character is what the platform gives for its glyph, together with the units
/// per em of the font's metrics and the font size that was asked for; and its width is that of the
/// bounds, scaled by the same.
pub proof fn measured_bounds_are_scaled_by_the_font<P: PlatformTextSystem>(
    platform: P,
    before: MetricsKnowledge,
    after: MetricsKnowledge,
    font_id: FontId,
    font_size: Pixels,
    character: char,
    measured: Result<Scaled<Bounds<FontUnits>>, TextError>,
)
    requires
        bounds_were_measured(platform, before, after, font_id, font_size, character, measured),
    ensures
        measured matches Ok(given) ==> {
            &&& given.font_size == font_size
            &&& after.answers.contains_key(font_id.0)
            &&& given.units_per_em == after.answers[font_id.0].units_per_em
            &&& before.answers.contains_key(font_id.0) ==> given.units_per_em == before.answers[font_id.0].units_per_em
            &&& exists|glyph_id: GlyphId|
                {
                    &&& #[trigger] call_ensures(P::glyph_for_char, (&platform, font_id, character), Some(glyph_id))
                    &&& call_ensures(P::typographic_bounds, (&platform, font_id, glyph_id), Ok(given.value))
                }
            &&& width_of_bounds(measured) matches Ok(width) && width.value == given.value.size.width && width.units_per_em
                == after.answers[font_id.0].units_per_em && width.font_size == font_size
        },
        measured matches Err(error) ==> {
            &&& width_of_bounds(measured) == Err::<Scaled<FontUnits>, TextError>(error)
            &&& after.answers == before.answers
            &&& error matches TextError::GlyphNotFound(missing) ==> missing == character
        },
{
    let (found, between) = choose|found: Result<Bounds<FontUnits>, TextError>, between: Seq<Action>|
        {
            &&& #[trigger] glyph_bounds_were_found(platform, before.record, between, font_id, character, found)
            &&& was_scaled(
                platform,
                Knowledge { answers: before.answers, record: between },
                after,
                font_id,
                font_size,
                found,
                measured,
            )
        };
    if let Ok(value) = found {
        let glyph = choose|glyph: Option<GlyphId>| #[trigger]
            call_ensures(P::glyph_for_char, (&platform, font_id, character), glyph) && match glyph {
                None => false,
                Some(glyph_id) => exists|answer: Result<Bounds<FontUnits>, String>| #[trigger]
                    call_ensures(P::typographic_bounds, (&platform, font_id, glyph_id), answer) && answer == Ok::<
                        Bounds<FontUnits>,
                        String,
                    >(value),
            };
        let glyph_id = glyph->Some_0;
        assert(call_ensures(P::glyph_for_char, (&platform, font_id, character), Some(glyph_id)));
    }
}

/// What is measured of a character's advance is what the platform gives for its glyph, together with
/// the units per em of the font's metrics and the font size that was asked for; and its width is
/// that of the advance, scaled by the same.
pub proof fn measured_advances_are_scaled_by_the_font<P: PlatformTextSystem>(
    platform: P,
    before: MetricsKnowledge,
    after: MetricsKnowledge,
    font_id: FontId,
    font_size: Pixels,
    character: char,
    measured: Result<Scaled<Size<FontUnits>>, TextError>,
)
    requires
        advance_was_measured(platform, before, after, font_id, font_size, character, measured),
    ensures
        measured matches Ok(given) ==> {
            &&& given.font_size == font_size
            &&& after.answers.contains_key(font_id.0)
            &&& given.units_per_em == after.answers[font_id.0].units_per_em
            &&& before.answers.contains_key(font_id.0) ==> given.units_per_em == before.answers[font_id.0].units_per_em
            &&& exists|glyph_id: GlyphId|
                {
                    &&& #[trigger] call_ensures(P::glyph_for_char, (&platform, font_id, character), Some(glyph_id))
                    &&& call_ensures(P::advance, (&platform, font_id, glyph_id), Ok(given.value))
                }
            &&& width_of_size(measured) matches Ok(width) && width.value == given.value.width && width.units_per_em
                == after.answers[font_id.0].units_per_em && width.font_size == font_size
        },
        measured matches Err(error) ==> {
            &&& width_of_size(measured) == Err::<Scaled<FontUnits>, TextError>(error)
            &&& after.answers == before.answers
            &&& error matches TextError::GlyphNotFound(missing) ==> missing == character
        },
{
    let (found, between) = choose|found: Result<Size<FontUnits>, TextError>, between: Seq<Action>|
        {
            &&& #[trigger] glyph_advance_was_found(platform, before.record, between, font_id, character, found)
            &&& was_scaled(
                platform,
                Knowledge { answers: before.answers, record: between },
                after,
                font_id,
                font_size,
                found,
                measured,
            )
        };
    if let Ok(value) = found {
        let glyph = choose|glyph: Option<GlyphId>| #[trigger]
            call_ensures(P::glyph_for_char, (&platform, font_id, character), glyph) && match glyph {
                None => false,
                Some(glyph_id) => exists|answer: Result<Size<FontUnits>, String>| #[trigger]
                    call_ensures(P::advance, (&platform, font_id, glyph_id), answer) && answer == Ok::<
                        Size<FontUnits>,
                        String,
                    >(value),
            };
        let glyph_id = glyph->Some_0;
        assert(call_ensures(P::glyph_for_char, (&platform, font_id, character), Some(glyph_id)));
    }
}

/// The pool without the wrapper that is used next for the font and size; with an entry for
/// them in any case.
pub open spec fn pool_after_taking<W>(
    pool: Map<FontIdWithSize, Seq<LineWrapper<W>>>,
    key: FontIdWithSize,
) -> Map<FontIdWithSize, Seq<LineWrapper<W>>> {
    if pooled(pool, key) > 0 {
        pool.insert(key, pool[key].drop_last())
    } else {
        pool.insert(key, Seq::empty())
    }
}

/// The pool with the wrapper put back.
pub open spec fn pool_after_putting_back<W>(
    pool: Map<FontIdWithSize, Seq<LineWrapper<W>>>,
    wrapper: LineWrapper<W>,
) -> Map<FontIdWithSize, Seq<LineWrapper<W>>> {
    pool.insert(wrapper.key(), pool[wrapper.key()].push(wrapper))
}

/// The pool of line wrappers, what was done to it, and what a maker of wrappers made.
#[verifier::reject_recursive_types(W)]
pub struct WrapperSupply<W> {
    pub pool: Map<FontIdWithSize, Seq<LineWrapper<W>>>,
    pub record: Seq<PoolEvent>,
    pub made: Seq<FontIdWithSize>,
}

/// Whether the wrapper was handed out: the one that was put back last, making none; or, exactly
/// if there was none, one that was made.
pub open spec fn wrapper_was_handed_out<W, F: Fn(FontId, Pixels) -> W>(
    function: F,
    before: WrapperSupply<W>,
    after: WrapperSupply<W>,
    key: FontIdWithSize,
    wrapper: LineWrapper<W>,
) -> bool {
    &&& wrapper.key() == key
    &&& after.pool == pool_after_taking(before.pool, key)
    &&& if pooled(before.pool, key) > 0 {
        &&& wrapper == before.pool[key].last()
        &&& after.record == before.record.push(PoolEvent::Reused(key))
        &&& after.made == before.made
    } else {
        &&& call_ensures(function, (key.font_id, key.font_size), wrapper.state)
        &&& after.record == before.record.push(PoolEvent::Made(key))
        &&& after.made == before.made.push(key)
    }
}

/// Putting a pooled wrapper back undoes taking it.
pub proof fn putting_back_undoes_taking<W>(pool: Map<FontIdWithSize, Seq<LineWrapper<W>>>, key: FontIdWithSize)
    requires
        pool.contains_key(key),
        pool[key].len() > 0,
        pool[key].last().key() == key,
    ensures
        pool_after_putting_back(pool_after_taking(pool, key), pool[key].last()) == pool,
{
    assert(pool[key].drop_last().push(pool[key].last()) =~= pool[key]);
    assert(pool_after_putting_back(pool_after_taking(pool, key), pool[key].last()) =~= pool);
}

/// A wrapper that was put back is the next one taken for its font and size.
pub proof fn taking_undoes_putting_back<W>(pool: Map<FontIdWithSize, Seq<LineWrapper<W>>>, wrapper: LineWrapper<W>)
    requires
        pool.contains_key(wrapper.key()),
    ensures
        pool_after_putting_back(pool, wrapper)[wrapper.key()].last() == wrapper,
        pool_after_taking(pool_after_putting_back(pool, wrapper), wrapper.key()) == pool,
{
    let key = wrapper.key();
    assert(pool[key].push(wrapper).drop_last() =~= pool[key]);
    assert(pool_after_taking(pool_after_putting_back(pool, wrapper), key) =~= pool);
}

} // verus!

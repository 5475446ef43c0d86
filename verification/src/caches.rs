//! What the platform is asked only once: font metrics and raster bounds. And what is handed
//! out and taken back: line wrappers.
use crate::types::{Bounds, DevicePixels, FontId, Pixels, RenderGlyphParams};
use crate::wrapper_maker::WrapperMaker;
use std::collections::HashMap;
use vstd::prelude::*;

verus! {

broadcast use vstd::std_specs::hash::group_hash_axioms;

/// The font, the glyph and the font size of the parameters, in one number.
pub open spec fn glyph_key(params: RenderGlyphParams) -> u128 {
    (params.font_id.0 as u128 * 0x1_0000_0000_0000_0000 + params.glyph_id.0 as u128 * 0x1_0000_0000
        + params.font_size.0 as u128) as u128
}

/// What the parameters say beyond the font, the glyph and the font size, in one number.
pub open spec fn variant_key(params: RenderGlyphParams) -> u64 {
    (params.scale_factor as u64 * 0x1_0000_0000 + params.subpixel_x as u64 * 0x100_0000 + params.subpixel_y as u64
        * 0x1_0000 + params.dilation as u64 * 0x100 + (if params.is_emoji {
        2u64
    } else {
        0u64
    }) + (if params.subpixel_rendering {
        1u64
    } else {
        0u64
    })) as u64
}

/// Parameters with the same two numbers are the same.
pub proof fn glyph_keys_are_injective(a: RenderGlyphParams, b: RenderGlyphParams)
    requires
        glyph_key(a) == glyph_key(b),
        variant_key(a) == variant_key(b),
    ensures
        a == b,
{
    assert(glyph_key(a) == (a.font_id.0 * 0x1_0000_0000 + a.glyph_id.0) * 0x1_0000_0000 + a.font_size.0);
    assert(glyph_key(b) == (b.font_id.0 * 0x1_0000_0000 + b.glyph_id.0) * 0x1_0000_0000 + b.font_size.0);
    digits_are_unique(
        a.font_id.0 * 0x1_0000_0000 + a.glyph_id.0,
        a.font_size.0 as int,
        b.font_id.0 * 0x1_0000_0000 + b.glyph_id.0,
        b.font_size.0 as int,
        0x1_0000_0000,
    );
    digits_are_unique(
        a.font_id.0 as int,
        a.glyph_id.0 as int,
        b.font_id.0 as int,
        b.glyph_id.0 as int,
        0x1_0000_0000,
    );
    variant_keys_are_injective(a, b);
}

proof fn variant_keys_are_injective(a: RenderGlyphParams, b: RenderGlyphParams)
    requires
        variant_key(a) == variant_key(b),
    ensures
        a.scale_factor == b.scale_factor,
        a.subpixel_x == b.subpixel_x,
        a.subpixel_y == b.subpixel_y,
        a.dilation == b.dilation,
        a.is_emoji == b.is_emoji,
        a.subpixel_rendering == b.subpixel_rendering,
{
    let flags_a = (if a.is_emoji { 2int } else { 0int }) + (if a.subpixel_rendering { 1int } else { 0int });
    let flags_b = (if b.is_emoji { 2int } else { 0int }) + (if b.subpixel_rendering { 1int } else { 0int });
    let scale_a = a.scale_factor as int;
    let scale_b = b.scale_factor as int;
    let x_a = scale_a * 0x100 + a.subpixel_x;
    let x_b = scale_b * 0x100 + b.subpixel_x;
    let y_a = x_a * 0x100 + a.subpixel_y;
    let y_b = x_b * 0x100 + b.subpixel_y;
    let dilation_a = y_a * 0x100 + a.dilation;
    let dilation_b = y_b * 0x100 + b.dilation;
    assert(variant_key(a) == dilation_a * 0x100 + flags_a);
    assert(variant_key(b) == dilation_b * 0x100 + flags_b);
    digits_are_unique(dilation_a, flags_a, dilation_b, flags_b, 0x100);
    digits_are_unique(y_a, a.dilation as int, y_b, b.dilation as int, 0x100);
    digits_are_unique(x_a, a.subpixel_y as int, x_b, b.subpixel_y as int, 0x100);
    digits_are_unique(scale_a, a.subpixel_x as int, scale_b, b.subpixel_x as int, 0x100);
}

/// A number determines its last digit and what stands before it.
proof fn digits_are_unique(high_a: int, low_a: int, high_b: int, low_b: int, base: int)
    by (nonlinear_arith)
    requires
        0 <= low_a < base,
        0 <= low_b < base,
        high_a * base + low_a == high_b * base + low_b,
    ensures
        high_a == high_b,
        low_a == low_b,
{
}

/// The raster bounds that the platform gave.
pub struct RasterBoundsCache {
    by_glyph: HashMap<u128, HashMap<u64, Bounds<DevicePixels>>>,
}

impl View for RasterBoundsCache {
    type V = Map<RenderGlyphParams, Bounds<DevicePixels>>;

    closed spec fn view(&self) -> Map<RenderGlyphParams, Bounds<DevicePixels>> {
        Map::new(
            |params: RenderGlyphParams|
                self.by_glyph@.contains_key(glyph_key(params)) && self.by_glyph@[glyph_key(params)]@.contains_key(
                    variant_key(params),
                ),
            |params: RenderGlyphParams| self.by_glyph@[glyph_key(params)]@[variant_key(params)],
        )
    }
}

impl RasterBoundsCache {
    pub fn new() -> (cache: RasterBoundsCache)
        ensures
            cache@ == Map::<RenderGlyphParams, Bounds<DevicePixels>>::empty(),
    {
        let cache = RasterBoundsCache { by_glyph: HashMap::new() };
        assert(cache@ =~= Map::empty());
        cache
    }

    fn keys(params: &RenderGlyphParams) -> (keys: (u128, u64))
        ensures
            keys == (glyph_key(*params), variant_key(*params)),
    {
        let glyph = params.font_id.0 as u128 * 0x1_0000_0000_0000_0000 + params.glyph_id.0 as u128 * 0x1_0000_0000
            + params.font_size.0 as u128;
        let emoji = if params.is_emoji {
            2u64
        } else {
            0u64
        };
        let subpixel = if params.subpixel_rendering {
            1u64
        } else {
            0u64
        };
        let variant = params.scale_factor as u64 * 0x1_0000_0000 + params.subpixel_x as u64 * 0x100_0000
            + params.subpixel_y as u64 * 0x1_0000 + params.dilation as u64 * 0x100 + emoji + subpixel;
        (glyph, variant)
    }

    /// The bounds that are held for the parameters, if any.
    pub fn get(&self, params: &RenderGlyphParams) -> (bounds: Option<Bounds<DevicePixels>>)
        ensures
            match bounds {
                Some(bounds) => self@.contains_key(*params) && bounds == self@[*params],
                None => !self@.contains_key(*params),
            },
    {
        let (glyph, variant) = Self::keys(params);
        match self.by_glyph.get(&glyph) {
            Some(variants) => match variants.get(&variant) {
                Some(bounds) => Some(*bounds),
                None => None,
            },
            None => None,
        }
    }

    /// Holds the bounds for the parameters.
    pub fn insert(&mut self, params: RenderGlyphParams, bounds: Bounds<DevicePixels>)
        ensures
            final(self)@ == old(self)@.insert(params, bounds),
    {
        let ghost before = *self;
        let (glyph, variant) = Self::keys(&params);
        let mut variants = match self.by_glyph.remove(&glyph) {
            Some(variants) => variants,
            None => HashMap::new(),
        };
        variants.insert(variant, bounds);
        self.by_glyph.insert(glyph, variants);
        proof {
            assert forall|other: RenderGlyphParams|
                glyph_key(other) == glyph && variant_key(other) == variant implies other == params by {
                glyph_keys_are_injective(other, params);
            }
            assert(self@ =~= before@.insert(params, bounds));
        }
    }
}

/// The font and the size that a line wrapper is for.
#[derive(Clone, Copy, Debug, PartialEq, Eq, Hash, Structural)]
pub struct FontIdWithSize {
    pub font_id: FontId,
    pub font_size: Pixels,
}

/// Computes the wrapped layout of text in one font and size; `state` is what the wrapper
/// itself keeps between lines.
#[derive(Debug)]
pub struct LineWrapper<W> {
    pub font_id: FontId,
    pub font_size: Pixels,
    pub state: W,
}

impl<W> LineWrapper<W> {
    /// The pool entry that the wrapper belongs to.
    pub open spec fn key(self) -> FontIdWithSize {
        FontIdWithSize { font_id: self.font_id, font_size: self.font_size }
    }
}

/// The font and the size in one number.
pub open spec fn wrapper_key(key: FontIdWithSize) -> u128 {
    (key.font_id.0 as u128 * 0x1_0000_0000 + key.font_size.0 as u128) as u128
}

/// Something done to the pool of line wrappers.
pub enum PoolEvent {
    /// No wrapper for the font and size was in the pool; one was made and handed out.
    Made(FontIdWithSize),
    /// A wrapper was taken out of the pool and handed out.
    Reused(FontIdWithSize),
    /// A wrapper was put into the pool.
    Returned(FontIdWithSize),
}

/// How many wrappers were made for the font and size.
pub open spec fn wrappers_made(record: Seq<PoolEvent>, key: FontIdWithSize) -> int
    decreases record.len(),
{
    if record.len() == 0 {
        0
    } else {
        wrappers_made(record.drop_last(), key) + if record.last() == PoolEvent::Made(key) {
            1int
        } else {
            0int
        }
    }
}

/// How many wrappers for the font and size are handed out and not returned.
pub open spec fn handles(record: Seq<PoolEvent>, key: FontIdWithSize) -> int
    decreases record.len(),
{
    if record.len() == 0 {
        0
    } else {
        handles(record.drop_last(), key) + if record.last() == PoolEvent::Made(key) || record.last()
            == PoolEvent::Reused(key) {
            1int
        } else if record.last() == PoolEvent::Returned(key) {
            -1int
        } else {
            0int
        }
    }
}

/// How many wrappers for the font and size were handed out at most at once.
pub open spec fn most_handles(record: Seq<PoolEvent>, key: FontIdWithSize) -> int
    decreases record.len(),
{
    if record.len() == 0 {
        0
    } else if most_handles(record.drop_last(), key) < handles(record, key) {
        handles(record, key)
    } else {
        most_handles(record.drop_last(), key)
    }
}

/// Whether no more wrappers for the font and size were ever returned than handed out.
pub open spec fn returns_are_matched(record: Seq<PoolEvent>, key: FontIdWithSize) -> bool
    decreases record.len(),
{
    if record.len() == 0 {
        true
    } else {
        returns_are_matched(record.drop_last(), key) && handles(record, key) >= 0
    }
}

/// How many wrappers for the font and size are in the pool.
pub open spec fn pooled<W>(pool: Map<FontIdWithSize, Seq<LineWrapper<W>>>, key: FontIdWithSize) -> int {
    if pool.contains_key(key) {
        pool[key].len() as int
    } else {
        0
    }
}

/// Whether, for each font and size, the wrappers that were made are those handed out and those
/// in the pool, and are as many as were handed out at most at once.
pub open spec fn wrappers_are_counted<W>(
    pool: Map<FontIdWithSize, Seq<LineWrapper<W>>>,
    record: Seq<PoolEvent>,
) -> bool {
    forall|key: FontIdWithSize| #[trigger]
        returns_are_matched(record, key) ==> {
            &&& wrappers_made(record, key) == handles(record, key) + pooled(pool, key)
            &&& wrappers_made(record, key) == most_handles(record, key)
        }
}

/// Handing a wrapper out or putting one back keeps the count.
proof fn wrappers_stay_counted<W>(
    before: Map<FontIdWithSize, Seq<LineWrapper<W>>>,
    after: Map<FontIdWithSize, Seq<LineWrapper<W>>>,
    record: Seq<PoolEvent>,
    last: PoolEvent,
    key: FontIdWithSize,
)
    requires
        wrappers_are_counted(before, record),
        forall|other: FontIdWithSize| other != key ==> pooled(after, other) == #[trigger] pooled(before, other),
        match last {
            PoolEvent::Made(at) => at == key && pooled(before, key) == 0 && pooled(after, key) == 0,
            PoolEvent::Reused(at) => at == key && pooled(before, key) > 0 && pooled(after, key) == pooled(before, key)
                - 1,
            PoolEvent::Returned(at) => at == key && pooled(after, key) == pooled(before, key) + 1,
        },
    ensures
        wrappers_are_counted(after, record.push(last)),
{
    let more = record.push(last);
    assert(more.drop_last() =~= record);
    assert forall|other: FontIdWithSize| #[trigger] returns_are_matched(more, other) implies {
        &&& wrappers_made(more, other) == handles(more, other) + pooled(after, other)
        &&& wrappers_made(more, other) == most_handles(more, other)
    } by {
        assert(returns_are_matched(record, other));
        assert(pooled(before, other) >= 0);
        if other != key {
            assert(pooled(after, other) == pooled(before, other));
        }
        handles_are_at_most_the_most(record, other);
    }
}

proof fn handles_are_at_most_the_most(record: Seq<PoolEvent>, key: FontIdWithSize)
    ensures
        handles(record, key) <= most_handles(record, key),
{
}

/// Line wrappers that are not in use, by font and size.
#[verifier::reject_recursive_types(W)]
pub struct WrapperPool<W> {
    wrappers: HashMap<u128, Vec<LineWrapper<W>>>,
    record: Ghost<Seq<PoolEvent>>,
}

impl<W> View for WrapperPool<W> {
    type V = Map<FontIdWithSize, Seq<LineWrapper<W>>>;

    closed spec fn view(&self) -> Map<FontIdWithSize, Seq<LineWrapper<W>>> {
        Map::new(
            |key: FontIdWithSize| self.wrappers@.contains_key(wrapper_key(key)),
            |key: FontIdWithSize| self.wrappers@[wrapper_key(key)]@,
        )
    }
}

impl<W> WrapperPool<W> {
    /// What was done to the pool, first to last.
    pub closed spec fn record(&self) -> Seq<PoolEvent> {
        self.record@
    }

    pub fn new() -> (pool: WrapperPool<W>)
        ensures
            pool@ == Map::<FontIdWithSize, Seq<LineWrapper<W>>>::empty(),
            pool.record() == Seq::<PoolEvent>::empty(),
    {
        let pool = WrapperPool { wrappers: HashMap::new(), record: Ghost(Seq::empty()) };
        assert(pool@ =~= Map::empty());
        pool
    }

    fn number(key: FontIdWithSize) -> (number: u128)
        ensures
            number == wrapper_key(key),
    {
        key.font_id.0 as u128 * 0x1_0000_0000 + key.font_size.0 as u128
    }

    /// Whether there is an entry for the font and size.
    pub fn contains(&self, key: FontIdWithSize) -> (found: bool)
        ensures
            found == self@.contains_key(key),
    {
        self.wrappers.contains_key(&Self::number(key))
    }

    /// Takes the wrapper that was put back last; makes one if there is none, and an entry for
    /// the font and size if there is none.
    pub fn take_or_make<F: Fn(FontId, Pixels) -> W>(
        &mut self,
        key: FontIdWithSize,
        maker: &mut WrapperMaker<F>,
    ) -> (wrapper: LineWrapper<W>)
        requires
            call_requires(old(maker).function(), (key.font_id, key.font_size)),
        ensures
            final(maker).function() == old(maker).function(),
            if pooled(old(self)@, key) > 0 {
                &&& wrapper == old(self)@[key].last()
                &&& final(self)@ == old(self)@.insert(key, old(self)@[key].drop_last())
                &&& final(self).record() == old(self).record().push(PoolEvent::Reused(key))
                &&& final(maker).record() == old(maker).record()
            } else {
                &&& wrapper.key() == key
                &&& call_ensures(old(maker).function(), (key.font_id, key.font_size), wrapper.state)
                &&& final(self)@ == old(self)@.insert(key, Seq::empty())
                &&& final(self).record() == old(self).record().push(PoolEvent::Made(key))
                &&& final(maker).record() == old(maker).record().push(key)
            },
            wrappers_are_counted(old(self)@, old(self).record()) ==> wrappers_are_counted(
                final(self)@,
                final(self).record(),
            ),
    {
        let ghost before = *self;
        let number = Self::number(key);
        let mut wrappers = match self.wrappers.remove(&number) {
            Some(wrappers) => wrappers,
            None => Vec::new(),
        };
        let ghost pooled_wrappers = wrappers@;
        assert(pooled(before@, key) == pooled_wrappers.len());
        let taken = wrappers.pop();
        let ghost left = wrappers@;
        self.wrappers.insert(number, wrappers);
        let ghost last = if taken is Some {
            PoolEvent::Reused(key)
        } else {
            PoolEvent::Made(key)
        };
        proof {
            self.record@ = self.record@.push(last);
            assert(self@ =~= before@.insert(key, left));
            assert(taken is Some ==> left =~= pooled_wrappers.drop_last());
            assert(taken is None ==> left =~= Seq::empty());
            if wrappers_are_counted(before@, before.record()) {
                wrappers_stay_counted(before@, self@, before.record(), last, key);
            }
        }
        match taken {
            Some(wrapper) => wrapper,
            None => LineWrapper {
                font_id: key.font_id,
                font_size: key.font_size,
                state: maker.make(key.font_id, key.font_size),
            },
        }
    }

    /// Puts a wrapper back where it was taken from.
    pub fn put_back(&mut self, wrapper: LineWrapper<W>)
        requires
            old(self)@.contains_key(wrapper.key()),
        ensures
            final(self)@ == old(self)@.insert(wrapper.key(), old(self)@[wrapper.key()].push(wrapper)),
            final(self).record() == old(self).record().push(PoolEvent::Returned(wrapper.key())),
            wrappers_are_counted(old(self)@, old(self).record()) ==> wrappers_are_counted(
                final(self)@,
                final(self).record(),
            ),
    {
        let ghost before = *self;
        let ghost key = wrapper.key();
        let number = Self::number(FontIdWithSize { font_id: wrapper.font_id, font_size: wrapper.font_size });
        let mut wrappers = match self.wrappers.remove(&number) {
            Some(wrappers) => wrappers,
            None => Vec::new(),
        };
        wrappers.push(wrapper);
        let ghost left = wrappers@;
        self.wrappers.insert(number, wrappers);
        proof {
            self.record@ = self.record@.push(PoolEvent::Returned(key));
            assert(self@ =~= before@.insert(key, left));
            if wrappers_are_counted(before@, before.record()) {
                wrappers_stay_counted(before@, self@, before.record(), PoolEvent::Returned(key), key);
            }
        }
    }
}

} // verus!

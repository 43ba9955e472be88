//! Which layouts of memory a graphics device can share.

use super::device::has_flags;
use super::format::{map_drm_format, mapped_format, Format, FormatError};
use vstd::prelude::*;

verus! {

/// What the tiling of a frame has to allow: to be read by transfers and by blits, with linear
/// filtering.
pub const FRAME_FORMAT_FEATURES: u32 = 0x5400;

/// Memory can be exported.
pub const EXTERNAL_EXPORTABLE: u32 = 0x2;

/// Memory can be imported.
pub const EXTERNAL_IMPORTABLE: u32 = 0x4;

/// Memory is shared through buffers of the kernel.
pub const HANDLE_DMA_BUF: u32 = 0x200;

/// What a driver tells of a modifier.
#[derive(Clone, Copy, Debug, PartialEq, Eq, Structural)]
pub struct ModifierInfo {
    pub modifier: u64,
    pub plane_count: u32,
    pub tiling_features: u32,
    /// The driver knows images with the modifier.
    pub known: bool,
    pub external_features: u32,
    pub handle_types: u32,
}

/// Frames with the modifier can be shared in the required way.
pub open spec fn is_supported(m: ModifierInfo, required: u32) -> bool {
    &&& m.known
    &&& m.plane_count == 1
    &&& has_flags(m.tiling_features, FRAME_FORMAT_FEATURES)
    &&& has_flags(m.external_features, required)
    &&& has_flags(m.handle_types, HANDLE_DMA_BUF)
}

/// Whether frames with the modifier can be shared in the required way.
pub fn supports_dma_buf_modifier(m: &ModifierInfo, required: u32) -> (r: bool)
    ensures
        r == is_supported(*m, required),
{
    m.known && m.plane_count == 1 && m.tiling_features & FRAME_FORMAT_FEATURES
        == FRAME_FORMAT_FEATURES && m.external_features & required == required && m.handle_types
        & HANDLE_DMA_BUF == HANDLE_DMA_BUF
}

/// The modifiers with which frames can be shared in the required way, of the first `n`.
pub open spec fn supported_of(all: Seq<ModifierInfo>, required: u32, n: nat) -> Seq<u64>
    decreases n,
{
    if n == 0 {
        Seq::empty()
    } else if is_supported(all[n - 1], required) {
        supported_of(all, required, (n - 1) as nat).push(all[n - 1].modifier)
    } else {
        supported_of(all, required, (n - 1) as nat)
    }
}

/// The modifiers with which frames can be shared in the required way.
pub fn supported_modifiers(all: &Vec<ModifierInfo>, required: u32) -> (r: Vec<u64>)
    ensures
        r@ == supported_of(all@, required, all@.len()),
{
    let mut r: Vec<u64> = Vec::new();
    for i in 0..all.len()
        invariant
            r@ == supported_of(all@, required, i as nat),
    {
        if supports_dma_buf_modifier(&all[i], required) {
            r.push(all[i].modifier);
        }
    }
    r
}

/// Whether a modifier is among others.
pub fn has_modifier(modifiers: &Vec<u64>, modifier: u64) -> (r: bool)
    ensures
        r == modifiers@.contains(modifier),
{
    for i in 0..modifiers.len()
        invariant
            forall|j: int| 0 <= j < i ==> modifiers@[j] != modifier,
    {
        if modifiers[i] == modifier {
            assert(modifiers@[i as int] == modifier);
            return true;
        }
    }
    false
}

/// The modifiers of the first that are also among the second, in their order.
pub open spec fn common_of(first: Seq<u64>, second: Seq<u64>) -> Seq<u64>
    decreases first.len(),
{
    if first.len() == 0 {
        Seq::empty()
    } else if second.contains(first.last()) {
        common_of(first.drop_last(), second).push(first.last())
    } else {
        common_of(first.drop_last(), second)
    }
}

/// The modifiers of the first that are also among the second, in their order.
pub fn common_modifiers(first: &Vec<u64>, second: &Vec<u64>) -> (r: Vec<u64>)
    ensures
        r@ == common_of(first@, second@),
{
    let mut r: Vec<u64> = Vec::new();
    assert(first@.take(0) =~= Seq::empty());
    for i in 0..first.len()
        invariant
            r@ == common_of(first@.take(i as int), second@),
    {
        assert(first@.take(i + 1).drop_last() =~= first@.take(i as int));
        assert(first@.take(i + 1).last() == first@[i as int]);
        if has_modifier(second, first[i]) {
            r.push(first[i]);
        }
    }
    assert(first@.take(first@.len() as int) =~= first@);
    r
}

/// A common modifier is one of both, and every modifier of both is common.
pub proof fn common_modifiers_are_shared(first: Seq<u64>, second: Seq<u64>, m: u64)
    ensures
        common_of(first, second).contains(m) <==> first.contains(m) && second.contains(m),
    decreases first.len(),
{
    if first.len() > 0 {
        let shorter = first.drop_last();
        common_modifiers_are_shared(shorter, second, m);
        let before = common_of(shorter, second);
        if first.contains(m) && first.last() != m {
            let i = choose|i: int| 0 <= i < first.len() && first[i] == m;
            assert(shorter[i] == m);
        }
        if shorter.contains(m) {
            let i = choose|i: int| 0 <= i < shorter.len() && shorter[i] == m;
            assert(first[i] == m);
        }
        if second.contains(first.last()) {
            let after = before.push(first.last());
            if before.contains(m) {
                let i = choose|i: int| 0 <= i < before.len() && before[i] == m;
                assert(after[i] == m);
            }
            if after.contains(m) && m != first.last() {
                let i = choose|i: int| 0 <= i < after.len() && after[i] == m;
                assert(before[i] == m);
            }
            assert(after[before.len() as int] == first.last());
        }
        if first.last() == m {
            assert(first[first.len() - 1] == m);
        }
    }
}

/// What is known of the modifiers of formats, by what they are required for.
#[derive(Debug)]
pub struct ModifierCache {
    pub supports_drm_modifier: bool,
    pub entries: Vec<(u32, u32, Vec<u64>)>,
}

/// What to do to learn the modifiers of a format.
#[derive(Debug)]
pub enum Lookup {
    /// They are known.
    Known(Vec<u64>),
    /// The driver has to be asked about the format.
    Ask(Format),
    Failed(FormatError),
}

/// The place, from `from` on, at which the modifiers of a format are kept.
pub open spec fn cached_at(
    entries: Seq<(u32, u32, Vec<u64>)>,
    format: u32,
    required: u32,
    from: int,
) -> Option<int>
    decreases entries.len() - from,
{
    if from < 0 || from >= entries.len() {
        None
    } else if entries[from].0 == format && entries[from].1 == required {
        Some(from)
    } else {
        cached_at(entries, format, required, from + 1)
    }
}

/// The modifiers of a format that are kept.
pub open spec fn cached(cache: ModifierCache, format: u32, required: u32) -> Option<Seq<u64>> {
    match cached_at(cache.entries@, format, required, 0) {
        Some(i) => Some(cache.entries@[i].2@),
        None => None,
    }
}

/// A copy of modifiers.
fn copied(modifiers: &Vec<u64>) -> (r: Vec<u64>)
    ensures
        r@ == modifiers@,
{
    let mut r: Vec<u64> = Vec::new();
    for i in 0..modifiers.len()
        invariant
            r@ =~= modifiers@.take(i as int),
    {
        r.push(modifiers[i]);
    }
    assert(r@ =~= modifiers@);
    r
}

/// What is kept is not lost where more is kept behind it.
proof fn lemma_kept(
    entries: Seq<(u32, u32, Vec<u64>)>,
    more: (u32, u32, Vec<u64>),
    format: u32,
    required: u32,
    from: int,
)
    requires
        0 <= from <= entries.len(),
    ensures
        cached_at(entries.push(more), format, required, from) == match cached_at(
            entries,
            format,
            required,
            from,
        ) {
            Some(i) => Some(i),
            None => if more.0 == format && more.1 == required {
                Some(entries.len() as int)
            } else {
                None
            },
        },
        cached_at(entries, format, required, from) matches Some(i) ==> from <= i < entries.len(),
    decreases entries.len() - from,
{
    if from < entries.len() {
        lemma_kept(entries, more, format, required, from + 1);
    } else {
        assert(cached_at(entries.push(more), format, required, from + 1) is None);
    }
}

impl ModifierCache {
    pub fn new(supports_drm_modifier: bool) -> (r: ModifierCache)
        ensures
            r.supports_drm_modifier == supports_drm_modifier,
            r.entries@.len() == 0,
    {
        ModifierCache { supports_drm_modifier, entries: Vec::new() }
    }

    /// What to do to learn the modifiers of a format. A device without modifiers has none, whatever
    /// the format.
    pub fn lookup(&self, format: u32, required: u32) -> (r: Lookup)
        ensures
            match cached(*self, format, required) {
                Some(modifiers) => r matches Lookup::Known(known) && known@ == modifiers,
                None => if !self.supports_drm_modifier {
                    r matches Lookup::Known(known) && known@.len() == 0
                } else {
                    match mapped_format(format) {
                        Ok(mapped) => r == Lookup::Ask(mapped),
                        Err(error) => r == Lookup::Failed(error),
                    }
                },
            },
    {
        let mut i: usize = 0;
        while i < self.entries.len()
            invariant
                i <= self.entries@.len(),
                cached_at(self.entries@, format, required, 0) == cached_at(
                    self.entries@,
                    format,
                    required,
                    i as int,
                ),
            decreases self.entries.len() - i,
        {
            if self.entries[i].0 == format && self.entries[i].1 == required {
                return Lookup::Known(copied(&self.entries[i].2));
            }
            i = i + 1;
        }
        if !self.supports_drm_modifier {
            return Lookup::Known(Vec::new());
        }
        match map_drm_format(format) {
            Ok(mapped) => Lookup::Ask(mapped),
            Err(error) => Lookup::Failed(error),
        }
    }

    /// Keeps what the driver has told of a format, and gives the modifiers that are of use.
    pub fn learn(&mut self, format: u32, required: u32, told: &Vec<ModifierInfo>) -> (r: Vec<u64>)
        requires
            cached(*old(self), format, required) is None,
        ensures
            r@ == supported_of(told@, required, told@.len()),
            cached(*final(self), format, required) == Some(r@),
            final(self).supports_drm_modifier == old(self).supports_drm_modifier,
            forall|f: u32, q: u32|
                (f, q) != (format, required) ==> #[trigger] cached(*final(self), f, q) == cached(
                    *old(self),
                    f,
                    q,
                ),
    {
        let modifiers = supported_modifiers(told, required);
        let kept = copied(&modifiers);
        let ghost before = self.entries@;
        let ghost more = (format, required, kept);
        self.entries.push((format, required, kept));
        proof {
            lemma_kept(before, more, format, required, 0);
            assert forall|f: u32, q: u32| (f, q) != (format, required) implies #[trigger] cached(
                *self,
                f,
                q,
            ) == cached(*old(self), f, q) by {
                lemma_kept(before, more, f, q, 0);
            }
        }
        modifiers
    }
}

/// Frames can be shared exactly when the driver knows them in a single plane, reads and filters them,
/// shares them in the required way, and does so through buffers of the kernel.
pub proof fn shared_frames_meet_all_needs(m: ModifierInfo, required: u32)
    ensures
        is_supported(m, required) <==> m.known && m.plane_count == 1 && m.tiling_features & 0x5400
            == 0x5400 && m.external_features & required == required && m.handle_types & 0x200
            == 0x200,
{
}

/// What can be shared of the first modifiers does not depend on those behind them.
proof fn lemma_supported(first: Seq<ModifierInfo>, m: ModifierInfo, required: u32, n: nat)
    requires
        n <= first.len(),
    ensures
        supported_of(first.push(m), required, n) == supported_of(first, required, n),
    decreases n,
{
    if n > 0 {
        lemma_supported(first, m, required, (n - 1) as nat);
        assert(first.push(m)[n - 1] == first[n - 1]);
    }
}

/// Each modifier is judged on its own, and those that can be shared keep their order.
pub proof fn modifiers_are_judged_one_by_one(
    first: Seq<ModifierInfo>,
    m: ModifierInfo,
    required: u32,
)
    ensures
        supported_of(Seq::empty(), required, 0) == Seq::<u64>::empty(),
        is_supported(m, required) ==> supported_of(
            first.push(m),
            required,
            (first.len() + 1) as nat,
        ) == supported_of(first, required, first.len()).push(m.modifier),
        !is_supported(m, required) ==> supported_of(
            first.push(m),
            required,
            (first.len() + 1) as nat,
        ) == supported_of(first, required, first.len()),
{
    lemma_supported(first, m, required, first.len());
}

/// Common modifiers keep the order that they have among the first ones.
pub proof fn common_modifiers_keep_their_order(first: Seq<u64>, second: Seq<u64>, m: u64)
    ensures
        common_of(Seq::empty(), second) == Seq::<u64>::empty(),
        second.contains(m) ==> common_of(first.push(m), second) == common_of(first, second).push(m),
        !second.contains(m) ==> common_of(first.push(m), second) == common_of(first, second),
{
    assert(first.push(m).drop_last() =~= first);
}

/// What is kept for a format and a need is found first where it is kept, and nothing is found only
/// where nothing is kept.
pub proof fn kept_modifiers_are_found(
    entries: Seq<(u32, u32, Vec<u64>)>,
    format: u32,
    required: u32,
    from: int,
)
    requires
        0 <= from <= entries.len(),
    ensures
        cached_at(entries, format, required, from) matches Some(i) ==> from <= i < entries.len()
            && entries[i].0 == format && entries[i].1 == required && forall|j: int|
            from <= j < i ==> (#[trigger] entries[j]).0 != format || entries[j].1 != required,
        cached_at(entries, format, required, from) is None ==> forall|j: int|
            from <= j < entries.len() ==> (#[trigger] entries[j]).0 != format || entries[j].1
                != required,
    decreases entries.len() - from,
{
    if from < entries.len() {
        kept_modifiers_are_found(entries, format, required, from + 1);
    }
}

/// What is known of a format is what was kept of it.
pub proof fn known_modifiers_are_those_kept(cache: ModifierCache, format: u32, required: u32)
    ensures
        cached(cache, format, required) matches Some(m) ==> exists|i: int|
            0 <= i < cache.entries@.len() && (#[trigger] cache.entries@[i]).0 == format
                && cache.entries@[i].1 == required && cache.entries@[i].2@ == m,
        cached(cache, format, required) is None ==> forall|i: int|
            0 <= i < cache.entries@.len() ==> (#[trigger] cache.entries@[i]).0 != format
                || cache.entries@[i].1 != required,
{
    kept_modifiers_are_found(cache.entries@, format, required, 0);
}

} // verus!

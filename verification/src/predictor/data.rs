//! What was learned of an output, and how it is kept.

use crate::maps::levels::Levels;
use crate::text::chars::same;
use crate::text::decimal::{append_number, digits_of};
use vstd::prelude::*;

verus! {

/// A brightness at a level of ambient light and a lightness of the screen.
#[derive(Clone, Copy, Debug, PartialEq, Eq, Structural)]
pub struct Entry {
    pub als: u64,
    pub luma: u8,
    pub brightness: u64,
}

impl Entry {
    pub fn new(als: u64, luma: u8, brightness: u64) -> (r: Entry)
        ensures
            r == (Entry { als, luma, brightness }),
    {
        Entry { als, luma, brightness }
    }
}

/// An entry of old, for a named level of ambient light.
#[derive(Debug)]
pub struct LegacyEntryV1 {
    pub lux: String,
    pub luma: u8,
    pub brightness: u64,
}

/// What was learned of an output.
#[derive(Debug)]
pub struct Data {
    pub output_name: String,
    pub entries: Vec<Entry>,
    pub legacy_entries_v1: Option<Vec<LegacyEntryV1>>,
}

/// The level of ambient light of a stored entry: a number, or a name of old.
#[derive(Debug)]
pub enum StoredAls {
    Value(u64),
    Profile(String),
}

#[derive(Debug)]
pub struct StoredEntry {
    pub als: StoredAls,
    pub luma: u8,
    pub brightness: u64,
}

/// What was stored of an output.
#[derive(Debug)]
pub struct StoredData {
    pub output_name: String,
    pub entries: Vec<StoredEntry>,
    pub legacy_entries_v1: Option<Vec<LegacyEntryV1>>,
}

pub ghost struct LegacyView {
    pub lux: Seq<char>,
    pub luma: u8,
    pub brightness: u64,
}

pub ghost struct DataView {
    pub output_name: Seq<char>,
    pub entries: Seq<Entry>,
    pub legacy: Option<Seq<LegacyView>>,
}

pub ghost enum StoredAlsView {
    Value(u64),
    Profile(Seq<char>),
}

pub ghost struct StoredEntryView {
    pub als: StoredAlsView,
    pub luma: u8,
    pub brightness: u64,
}

pub ghost struct StoredView {
    pub output_name: Seq<char>,
    pub entries: Seq<StoredEntryView>,
    pub legacy: Option<Seq<LegacyView>>,
}

impl View for LegacyEntryV1 {
    type V = LegacyView;

    open spec fn view(&self) -> LegacyView {
        LegacyView { lux: self.lux@, luma: self.luma, brightness: self.brightness }
    }
}

/// What entries of old are.
pub open spec fn legacy_views(entries: Seq<LegacyEntryV1>) -> Seq<LegacyView> {
    entries.map_values(|e: LegacyEntryV1| e@)
}

/// What the entries of old are, where there are any.
pub open spec fn legacy_view(entries: Option<Vec<LegacyEntryV1>>) -> Option<Seq<LegacyView>> {
    match entries {
        Some(entries) => Some(legacy_views(entries@)),
        None => None,
    }
}

impl View for Data {
    type V = DataView;

    open spec fn view(&self) -> DataView {
        DataView {
            output_name: self.output_name@,
            entries: self.entries@,
            legacy: legacy_view(self.legacy_entries_v1),
        }
    }
}

impl View for StoredEntry {
    type V = StoredEntryView;

    open spec fn view(&self) -> StoredEntryView {
        StoredEntryView {
            als: match self.als {
                StoredAls::Value(value) => StoredAlsView::Value(value),
                StoredAls::Profile(profile) => StoredAlsView::Profile(profile@),
            },
            luma: self.luma,
            brightness: self.brightness,
        }
    }
}

/// What stored entries are.
pub open spec fn stored_views(entries: Seq<StoredEntry>) -> Seq<StoredEntryView> {
    entries.map_values(|e: StoredEntry| e@)
}

impl View for StoredData {
    type V = StoredView;

    open spec fn view(&self) -> StoredView {
        StoredView {
            output_name: self.output_name@,
            entries: stored_views(self.entries@),
            legacy: legacy_view(self.legacy_entries_v1),
        }
    }
}

/// Which levels of ambient light a name stands for: those from a level to the next one,
/// or from the last level on.
#[derive(Clone, Copy, Debug, PartialEq, Eq, Structural)]
pub enum Bucket {
    /// It is always dark.
    Dark,
    Between { lower: u64, upper: u64 },
    /// There is no level above, but one below.
    Above { lower: u64, previous: u64 },
    Alone { lower: u64 },
}

/// The first level, from the place `from` on, with the given name.
pub open spec fn level_named(
    levels: Seq<(u64, String)>,
    name: Seq<char>,
    from: int,
) -> Option<int>
    decreases levels.len() - from,
{
    if from < 0 || from >= levels.len() {
        None
    } else if levels[from].1@ == name {
        Some(from)
    } else {
        level_named(levels, name, from + 1)
    }
}

/// Which levels of ambient light a name stands for. The name `none` was used where there
/// was no ambient light.
pub open spec fn bucket_of(levels: Seq<(u64, String)>, name: Seq<char>) -> Option<Bucket> {
    if name == "none"@ {
        Some(Bucket::Dark)
    } else {
        match level_named(levels, name, 0) {
            None => None,
            Some(i) => Some(
                if i + 1 < levels.len() {
                    Bucket::Between { lower: levels[i].0, upper: levels[i + 1].0 }
                } else if i > 0 {
                    Bucket::Above { lower: levels[i].0, previous: levels[i - 1].0 }
                } else {
                    Bucket::Alone { lower: levels[i].0 }
                },
            ),
        }
    }
}

/// Which levels of ambient light a name stands for.
pub fn bucket(thresholds: &Levels<String>, name: &str) -> (r: Option<Bucket>)
    ensures
        r == bucket_of(thresholds.entries@, name@),
{
    if same(name, "none") {
        return Some(Bucket::Dark);
    }
    let ghost levels = thresholds.entries@;
    let n = thresholds.entries.len();
    let mut i: usize = 0;
    while i < n
        invariant
            i <= n,
            n == thresholds.entries@.len(),
            levels == thresholds.entries@,
            name@ != "none"@,
            level_named(levels, name@, 0) == level_named(levels, name@, i as int),
        decreases n - i,
    {
        if same(thresholds.entries[i].1.as_str(), name) {
            let lower = thresholds.entries[i].0;
            return Some(
                if i + 1 < n {
                    Bucket::Between { lower, upper: thresholds.entries[i + 1].0 }
                } else if i > 0 {
                    Bucket::Above { lower, previous: thresholds.entries[i - 1].0 }
                } else {
                    Bucket::Alone { lower }
                },
            );
        }
        i = i + 1;
    }
    None
}

/// Which levels of ambient light a stored entry is for, where it has a name for them that
/// is known.
pub open spec fn entry_bucket(levels: Seq<(u64, String)>, e: StoredEntryView) -> Option<Bucket> {
    match e.als {
        StoredAlsView::Value(_) => None,
        StoredAlsView::Profile(profile) => bucket_of(levels, profile),
    }
}

/// What becomes of a stored entry, where `middle` is the middle of the levels that its name
/// stands for. An entry with an unknown name is dropped.
pub open spec fn migrated_entry(
    levels: Seq<(u64, String)>,
    e: StoredEntryView,
    middle: u64,
) -> Option<Entry> {
    match e.als {
        StoredAlsView::Value(value) => Some(
            Entry { als: value, luma: e.luma, brightness: e.brightness },
        ),
        StoredAlsView::Profile(profile) => match bucket_of(levels, profile) {
            None => None,
            Some(Bucket::Dark) => Some(Entry { als: 0, luma: e.luma, brightness: e.brightness }),
            Some(_) => Some(Entry { als: middle, luma: e.luma, brightness: e.brightness }),
        },
    }
}

/// What is kept of a stored entry that has a name for its level of ambient light.
pub open spec fn kept_legacy(e: StoredEntryView) -> Option<LegacyView> {
    match e.als {
        StoredAlsView::Value(_) => None,
        StoredAlsView::Profile(profile) => Some(
            LegacyView { lux: profile, luma: e.luma, brightness: e.brightness },
        ),
    }
}

/// What becomes of the first `n` stored entries.
pub open spec fn migrated_entries(
    levels: Seq<(u64, String)>,
    entries: Seq<StoredEntryView>,
    middles: Seq<u64>,
    n: nat,
) -> Seq<Entry>
    decreases n,
{
    if n == 0 {
        Seq::empty()
    } else {
        let before = migrated_entries(levels, entries, middles, (n - 1) as nat);
        match migrated_entry(levels, entries[n - 1], middles[n - 1]) {
            Some(entry) => before.push(entry),
            None => before,
        }
    }
}

/// What is kept of the first `n` stored entries, behind what was kept already.
pub open spec fn kept_entries(
    legacy: Option<Seq<LegacyView>>,
    entries: Seq<StoredEntryView>,
    n: nat,
) -> Option<Seq<LegacyView>>
    decreases n,
{
    if n == 0 {
        legacy
    } else {
        let before = kept_entries(legacy, entries, (n - 1) as nat);
        match kept_legacy(entries[n - 1]) {
            Some(entry) => match before {
                Some(kept) => Some(kept.push(entry)),
                None => Some(seq![entry]),
            },
            None => before,
        }
    }
}

/// One of the first `n` stored entries has a name for its level of ambient light.
pub open spec fn has_names(entries: Seq<StoredEntryView>, n: nat) -> bool
    decreases n,
{
    n > 0 && (has_names(entries, (n - 1) as nat) || kept_legacy(entries[n - 1]) is Some)
}

/// What was learned, from what was stored of it.
pub open spec fn restored(
    output_name: Seq<char>,
    stored: StoredView,
    levels: Seq<(u64, String)>,
    middles: Seq<u64>,
) -> DataView {
    let n = stored.entries.len();
    DataView {
        output_name,
        entries: migrated_entries(levels, stored.entries, middles, n),
        legacy: kept_entries(stored.legacy, stored.entries, n),
    }
}

/// How what was learned is stored.
pub open spec fn stored_form(data: DataView) -> StoredView {
    StoredView {
        output_name: data.output_name,
        entries: data.entries.map_values(
            |e: Entry|
                StoredEntryView {
                    als: StoredAlsView::Value(e.als),
                    luma: e.luma,
                    brightness: e.brightness,
                },
        ),
        legacy: data.legacy,
    }
}

impl StoredEntry {
    /// Which levels of ambient light the entry is for, where it has a name for them that is
    /// known.
    pub fn bucket(&self, thresholds: &Levels<String>) -> (r: Option<Bucket>)
        ensures
            r == entry_bucket(thresholds.entries@, self@),
    {
        match &self.als {
            StoredAls::Value(_) => None,
            StoredAls::Profile(profile) => bucket(thresholds, profile.as_str()),
        }
    }

    /// What becomes of the entry and what is kept of it, where `middle` is the middle of the
    /// levels that its name stands for.
    pub fn migrate(&self, thresholds: &Levels<String>, middle: u64) -> (r: (
        Option<Entry>,
        Option<LegacyEntryV1>,
    ))
        ensures
            r.0 == migrated_entry(thresholds.entries@, self@, middle),
            r.1 is Some <==> kept_legacy(self@) is Some,
            r.1 matches Some(legacy) ==> kept_legacy(self@) == Some(legacy@),
    {
        match &self.als {
            StoredAls::Value(value) => (
                Some(Entry::new(*value, self.luma, self.brightness)),
                None,
            ),
            StoredAls::Profile(profile) => {
                let legacy = LegacyEntryV1 {
                    lux: profile.clone(),
                    luma: self.luma,
                    brightness: self.brightness,
                };
                let entry = match bucket(thresholds, profile.as_str()) {
                    None => None,
                    Some(Bucket::Dark) => Some(Entry::new(0, self.luma, self.brightness)),
                    Some(_) => Some(Entry::new(middle, self.luma, self.brightness)),
                };
                (entry, Some(legacy))
            },
        }
    }
}

impl Data {
    /// Nothing was learned yet.
    pub fn new(output_name: &str) -> (r: Data)
        ensures
            r@ == (DataView { output_name: output_name@, entries: Seq::empty(), legacy: None }),
    {
        Data {
            output_name: output_name.to_string(),
            entries: Vec::new(),
            legacy_entries_v1: None,
        }
    }

    /// What was learned, from what was stored of it, and whether it is stored in another
    /// form from now on. `middles` holds, for each stored entry, the middle of the levels
    /// that its name stands for.
    pub fn from_stored(
        output_name: &str,
        stored: StoredData,
        thresholds: &Levels<String>,
        middles: &Vec<u64>,
    ) -> (r: (Data, bool))
        requires
            middles@.len() == stored.entries@.len(),
        ensures
            r.0@ == restored(output_name@, stored@, thresholds.entries@, middles@),
            r.1 == has_names(stored@.entries, stored@.entries.len()),
    {
        let ghost levels = thresholds.entries@;
        let ghost all = stored@.entries;
        let ghost first = stored@.legacy;
        let mut migrated = false;
        let mut kept = stored.legacy_entries_v1;
        let mut entries: Vec<Entry> = Vec::new();
        for i in 0..stored.entries.len()
            invariant
                middles@.len() == stored.entries@.len(),
                levels == thresholds.entries@,
                all == stored_views(stored.entries@),
                entries@ == migrated_entries(levels, all, middles@, i as nat),
                legacy_view(kept) == kept_entries(first, all, i as nat),
                migrated == has_names(all, i as nat),
        {
            assert(all[i as int] == stored.entries@[i as int]@);
            let ghost before = legacy_view(kept);
            let (entry, legacy) = stored.entries[i].migrate(thresholds, middles[i]);
            if let Some(legacy) = legacy {
                migrated = true;
                let ghost more = legacy@;
                match kept {
                    Some(mut list) => {
                        let ghost earlier = list@;
                        list.push(legacy);
                        assert(legacy_views(list@) =~= legacy_views(earlier).push(more));
                        kept = Some(list);
                    },
                    None => {
                        let mut list: Vec<LegacyEntryV1> = Vec::new();
                        list.push(legacy);
                        assert(legacy_views(list@) =~= seq![more]);
                        kept = Some(list);
                    },
                }
            }
            if let Some(entry) = entry {
                entries.push(entry);
            }
        }
        (
            Data { output_name: output_name.to_string(), entries, legacy_entries_v1: kept },
            migrated,
        )
    }
}

/// The entries that are for other conditions.
pub open spec fn for_other_conditions(entries: Seq<Entry>, als: u64, luma: u8) -> Seq<Entry>
    decreases entries.len(),
{
    if entries.len() == 0 {
        Seq::empty()
    } else {
        let before = for_other_conditions(entries.drop_last(), als, luma);
        let entry = entries.last();
        if entry.als == als && entry.luma == luma {
            before
        } else {
            before.push(entry)
        }
    }
}

impl Data {
    /// Learns a brightness, which takes the place of what was learned under the same conditions.
    pub fn learn(&mut self, entry: Entry)
        ensures
            final(self)@ == (DataView {
                entries: for_other_conditions(old(self)@.entries, entry.als, entry.luma).push(
                    entry,
                ),
                ..old(self)@
            }),
            final(self).entries@.len() > 0 && final(self).entries@.last() == entry,
            final(self).output_name@ == old(self).output_name@,
            legacy_view(final(self).legacy_entries_v1) == legacy_view(old(self).legacy_entries_v1),
    {
        let ghost all = self.entries@;
        let mut entries: Vec<Entry> = Vec::new();
        assert(all.take(0) =~= Seq::empty());
        for i in 0..self.entries.len()
            invariant
                all == self.entries@,
                *self == *old(self),
                entries@ == for_other_conditions(all.take(i as int), entry.als, entry.luma),
        {
            let known = self.entries[i];
            assert(all.take(i + 1).drop_last() =~= all.take(i as int));
            assert(all.take(i + 1).last() == known);
            if known.als != entry.als || known.luma != entry.luma {
                entries.push(known);
            }
        }
        assert(all.take(all.len() as int) =~= all);
        entries.push(entry);
        self.entries = entries;
    }
}

/// Nothing that was learned under other conditions is lost, and nothing else stays.
pub proof fn other_conditions_stay(entries: Seq<Entry>, als: u64, luma: u8, e: Entry)
    ensures
        for_other_conditions(entries, als, luma).contains(e) <==> entries.contains(e) && (e.als != als
            || e.luma != luma),
    decreases entries.len(),
{
    if entries.len() > 0 {
        let shorter = entries.drop_last();
        let last = entries.last();
        let before = for_other_conditions(shorter, als, luma);
        other_conditions_stay(shorter, als, luma, e);
        assert(entries =~= shorter.push(last));
        assert(entries.contains(e) <==> shorter.contains(e) || e == last) by {
            vstd::seq_lib::lemma_seq_contains_after_push(shorter, last, e);
        }
        assert(before.push(last).contains(e) <==> before.contains(e) || e == last) by {
            vstd::seq_lib::lemma_seq_contains_after_push(before, last, e);
        }
    }
}

/// Storing what was learned and restoring it gives it back, entries of old included, and no
/// other form is needed then.
pub proof fn restoring_gives_back(data: DataView, levels: Seq<(u64, String)>, middles: Seq<u64>)
    requires
        middles.len() == data.entries.len(),
    ensures
        restored(data.output_name, stored_form(data), levels, middles) == data,
        !has_names(stored_form(data).entries, data.entries.len()),
{
    let stored = stored_form(data).entries;
    lemma_values_stay(data, levels, middles, data.entries.len());
    assert(data.entries.take(data.entries.len() as int) =~= data.entries);
}

proof fn lemma_values_stay(
    data: DataView,
    levels: Seq<(u64, String)>,
    middles: Seq<u64>,
    n: nat,
)
    requires
        n <= data.entries.len(),
    ensures
        migrated_entries(levels, stored_form(data).entries, middles, n) == data.entries.take(
            n as int,
        ),
        kept_entries(data.legacy, stored_form(data).entries, n) == data.legacy,
        !has_names(stored_form(data).entries, n),
    decreases n,
{
    if n > 0 {
        lemma_values_stay(data, levels, middles, (n - 1) as nat);
        assert(data.entries.take(n as int) =~= data.entries.take(n - 1).push(data.entries[n - 1]));
    } else {
        assert(data.entries.take(0) =~= Seq::empty());
    }
}

/// An entry is never lost without a trace: what is not restored as an entry is kept as one
/// of old.
pub proof fn nothing_is_lost(levels: Seq<(u64, String)>, e: StoredEntryView, middle: u64)
    ensures
        migrated_entry(levels, e, middle) is Some || kept_legacy(e) is Some,
{
}

/// The name of the file that keeps what was learned of an output.
pub fn file_name(output_name: &str) -> (r: String)
    ensures
        r@ == output_name@ + ".yaml"@,
{
    let mut r = output_name.to_string();
    r.append(".yaml");
    r
}

/// The name of the file that is written before it takes the place of another. It is that
/// of no other process.
pub fn temporary_name(file_name: &str, process: u32) -> (r: String)
    ensures
        r@ == "."@ + file_name@ + "."@ + digits_of(process as nat) + ".tmp"@,
{
    let mut r = ".".to_string();
    r.append(file_name);
    r.append(".");
    append_number(&mut r, process as u64);
    r.append(".tmp");
    r
}

/// What is next where data is saved.
#[derive(Clone, Copy, Debug, PartialEq, Eq, Structural)]
pub enum SaveStep {
    /// Open the temporary file, and empty it.
    Open,
    /// Write the data to it.
    Write,
    /// Make sure that the data is on the disk.
    Sync,
    /// Let the temporary file take the place of the other one.
    Rename,
    /// Make sure that the new name is on the disk.
    SyncDirectory,
    /// Remove the temporary file.
    RemoveTemporary,
    Saved,
    Failed,
}

/// What is next where data is saved, after a step that was done or not. A path without a directory
/// has none to be synced.
pub open spec fn saved_after(step: SaveStep, done: bool, has_directory: bool) -> SaveStep {
    match step {
        SaveStep::RemoveTemporary => SaveStep::Failed,
        SaveStep::Saved => SaveStep::Saved,
        SaveStep::Failed => SaveStep::Failed,
        _ => if !done {
            SaveStep::RemoveTemporary
        } else {
            match step {
                SaveStep::Open => SaveStep::Write,
                SaveStep::Write => SaveStep::Sync,
                SaveStep::Sync => SaveStep::Rename,
                SaveStep::Rename => if has_directory {
                    SaveStep::SyncDirectory
                } else {
                    SaveStep::Saved
                },
                _ => SaveStep::Saved,
            }
        },
    }
}

/// What is next where data is saved.
pub fn save_step(step: SaveStep, done: bool, has_directory: bool) -> (r: SaveStep)
    ensures
        r == saved_after(step, done, has_directory),
{
    match step {
        SaveStep::RemoveTemporary => SaveStep::Failed,
        SaveStep::Saved => SaveStep::Saved,
        SaveStep::Failed => SaveStep::Failed,
        _ => if !done {
            SaveStep::RemoveTemporary
        } else {
            match step {
                SaveStep::Open => SaveStep::Write,
                SaveStep::Write => SaveStep::Sync,
                SaveStep::Sync => SaveStep::Rename,
                SaveStep::Rename => {
                    if has_directory {
                        SaveStep::SyncDirectory
                    } else {
                        SaveStep::Saved
                    }
                },
                _ => SaveStep::Saved,
            }
        },
    }
}

/// What was saved before is replaced only by data that is on the disk as a whole, and what cannot be
/// saved leaves no temporary file behind unless that cannot be removed.
pub proof fn saving_is_safe(step: SaveStep, done: bool, has_directory: bool)
    ensures
        saved_after(step, done, has_directory) is Rename ==> step is Sync && done,
        saved_after(step, done, has_directory) is Sync ==> step is Write && done,
        saved_after(step, done, has_directory) is Saved && step !is Saved ==> done && (step is Rename
            || step is SyncDirectory),
        saved_after(step, done, has_directory) is Failed && step !is Failed ==> step
            is RemoveTemporary,
{
}

/// The level with a name is the first one of that name; there is none only where no level has it.
pub proof fn level_is_found_by_name(levels: Seq<(u64, String)>, name: Seq<char>, from: int)
    requires
        0 <= from,
    ensures
        level_named(levels, name, from) matches Some(i) ==> from <= i < levels.len() && levels[i].1@
            == name && forall|j: int| from <= j < i ==> (#[trigger] levels[j]).1@ != name,
        level_named(levels, name, from) is None ==> forall|j: int|
            from <= j < levels.len() ==> (#[trigger] levels[j]).1@ != name,
    decreases levels.len() - from,
{
    if from < levels.len() && levels[from].1@ != name {
        level_is_found_by_name(levels, name, from + 1);
    }
}

/// A name stands for the light from its level on to the next one, and `none` for darkness. An unknown
/// name stands for nothing.
pub proof fn name_stands_for_its_levels(levels: Seq<(u64, String)>, name: Seq<char>, i: int)
    requires
        0 <= i < levels.len(),
        levels[i].1@ == name,
        forall|j: int| 0 <= j < i ==> (#[trigger] levels[j]).1@ != name,
    ensures
        name == "none"@ ==> bucket_of(levels, name) == Some(Bucket::Dark),
        name != "none"@ && i < levels.len() - 1 ==> bucket_of(levels, name) == Some(
            Bucket::Between { lower: levels[i].0, upper: levels[i + 1].0 },
        ),
        name != "none"@ && i == levels.len() - 1 && i > 0 ==> bucket_of(levels, name) == Some(
            Bucket::Above { lower: levels[i].0, previous: levels[i - 1].0 },
        ),
        name != "none"@ && levels.len() == 1 ==> bucket_of(levels, name) == Some(
            Bucket::Alone { lower: levels[i].0 },
        ),
{
    level_is_found_by_name(levels, name, 0);
    let k = level_named(levels, name, 0);
    assert(levels[i].1@ == name);
}

/// What was learned keeps its brightness and its lightness of the screen, whatever its level of ambient
/// light was called, and a name is kept beside it.
pub proof fn learned_brightness_stays(levels: Seq<(u64, String)>, e: StoredEntryView, middle: u64)
    ensures
        migrated_entry(levels, e, middle) matches Some(entry) ==> entry.luma == e.luma
            && entry.brightness == e.brightness && match e.als {
            StoredAlsView::Value(value) => entry.als == value,
            StoredAlsView::Profile(profile) => if profile == "none"@ {
                entry.als == 0
            } else {
                entry.als == middle
            },
        },
        migrated_entry(levels, e, middle) is None ==> (e.als matches StoredAlsView::Profile(profile)
            && profile != "none"@ && forall|j: int|
            0 <= j < levels.len() ==> (#[trigger] levels[j]).1@ != profile),
        kept_legacy(e) matches Some(legacy) ==> e.als == StoredAlsView::Profile(legacy.lux)
            && legacy.luma == e.luma && legacy.brightness == e.brightness,
        kept_legacy(e) is None <==> e.als is Value,
{
    if let StoredAlsView::Profile(profile) = e.als {
        level_is_found_by_name(levels, profile, 0);
    }
}

/// Every stored entry that can be restored is, behind what was restored of the earlier ones, and there
/// are no more entries than stored ones.
pub proof fn all_entries_are_restored(
    levels: Seq<(u64, String)>,
    entries: Seq<StoredEntryView>,
    middles: Seq<u64>,
    n: nat,
    i: int,
)
    requires
        0 <= i < n <= entries.len(),
        middles.len() == entries.len(),
    ensures
        migrated_entry(levels, entries[i], middles[i]) matches Some(entry) ==> migrated_entries(
            levels,
            entries,
            middles,
            n,
        ).contains(entry),
        migrated_entries(levels, entries, middles, n).len() <= n,
        ({
            let all = migrated_entries(levels, entries, middles, n);
            let earlier = migrated_entries(levels, entries, middles, i as nat);
            &&& earlier.len() <= i
            &&& earlier.is_prefix_of(all)
            &&& migrated_entry(levels, entries[i], middles[i]) matches Some(entry) ==> earlier.len()
                < all.len() && all[earlier.len() as int] == entry
        }),
    decreases n,
{
    let m = (n - 1) as nat;
    let before = migrated_entries(levels, entries, middles, m);
    let after = migrated_entries(levels, entries, middles, n);
    if i < m {
        all_entries_are_restored(levels, entries, middles, m, i);
        if let Some(entry) = migrated_entry(levels, entries[i], middles[i]) {
            if let Some(last) = migrated_entry(levels, entries[m as int], middles[m as int]) {
                vstd::seq_lib::lemma_seq_contains_after_push(before, last, entry);
            }
        }
    } else {
        if m > 0 {
            all_entries_are_restored(levels, entries, middles, m, m - 1);
        }
        if let Some(last) = migrated_entry(levels, entries[i], middles[i]) {
            assert(after[after.len() - 1] == last);
        }
    }
}

/// Data is stored in another form where one of its entries has a name for its level, and only there.
pub proof fn names_ask_for_another_form(entries: Seq<StoredEntryView>, n: nat)
    requires
        n <= entries.len(),
    ensures
        has_names(entries, n) <==> exists|i: int| 0 <= i < n && (#[trigger] entries[i]).als is Profile,
    decreases n,
{
    if n > 0 {
        names_ask_for_another_form(entries, (n - 1) as nat);
        if has_names(entries, n) && !has_names(entries, (n - 1) as nat) {
            assert(entries[n - 1].als is Profile);
        }
    }
}

/// What was learned under other conditions keeps its order.
pub proof fn other_conditions_keep_their_order(entries: Seq<Entry>, e: Entry, als: u64, luma: u8)
    ensures
        for_other_conditions(Seq::empty(), als, luma) == Seq::<Entry>::empty(),
        e.als != als || e.luma != luma ==> for_other_conditions(entries.push(e), als, luma)
            == for_other_conditions(entries, als, luma).push(e),
        e.als == als && e.luma == luma ==> for_other_conditions(entries.push(e), als, luma)
            == for_other_conditions(entries, als, luma),
{
    assert(entries.push(e).drop_last() =~= entries);
}

/// Names of levels are kept behind those that were kept already, in the order of the stored entries, and
/// nothing else is.
pub proof fn names_are_kept_in_order(
    legacy: Option<Seq<LegacyView>>,
    entries: Seq<StoredEntryView>,
    n: nat,
)
    requires
        n < entries.len(),
    ensures
        kept_entries(legacy, entries, 0) == legacy,
        ({
            let e = entries[n as int];
            let before = kept_entries(legacy, entries, n);
            let after = kept_entries(legacy, entries, (n + 1) as nat);
            &&& e.als is Value ==> after == before
            &&& e.als matches StoredAlsView::Profile(name) ==> {
                let kept = LegacyView { lux: name, luma: e.luma, brightness: e.brightness };
                after == Some(
                    if before is Some {
                        before->0.push(kept)
                    } else {
                        seq![kept]
                    },
                )
            }
        }),
{
}

/// What is restored is for the output that it is restored for, from all stored entries.
pub proof fn restored_data_is_complete(
    name: Seq<char>,
    stored: StoredView,
    levels: Seq<(u64, String)>,
    middles: Seq<u64>,
)
    ensures
        restored(name, stored, levels, middles).output_name == name,
        restored(name, stored, levels, middles).entries == migrated_entries(
            levels,
            stored.entries,
            middles,
            stored.entries.len(),
        ),
        restored(name, stored, levels, middles).legacy == kept_entries(
            stored.legacy,
            stored.entries,
            stored.entries.len(),
        ),
{
}

/// Data is told by all that it holds.
pub proof fn data_is_told_by_all(d: Data, s: StoredData, e: StoredEntry, l: LegacyEntryV1)
    ensures
        d@.output_name == d.output_name@,
        d@.entries == d.entries@,
        d.legacy_entries_v1 is None ==> d@.legacy is None,
        d.legacy_entries_v1 matches Some(list) ==> (d@.legacy matches Some(told) && told.len()
            == list@.len() && forall|i: int| 0 <= i < told.len() ==> told[i] == (#[trigger] list@[i])@),
        s@.output_name == s.output_name@,
        s@.entries.len() == s.entries@.len(),
        forall|i: int| 0 <= i < s.entries@.len() ==> s@.entries[i] == (#[trigger] s.entries@[i])@,
        e@.luma == e.luma,
        e@.brightness == e.brightness,
        e.als matches StoredAls::Value(value) ==> e@.als == StoredAlsView::Value(value),
        e.als matches StoredAls::Profile(name) ==> e@.als == StoredAlsView::Profile(name@),
        l@.lux == l.lux@,
        l@.luma == l.luma,
        l@.brightness == l.brightness,
{
}

/// Data is written, made sure of, put in its place and made sure of once more, in this order. What
/// cannot be done ends with the removal of the temporary file.
pub proof fn saving_goes_step_by_step(step: SaveStep, has_directory: bool)
    ensures
        saved_after(SaveStep::Open, true, has_directory) is Write,
        saved_after(SaveStep::Write, true, has_directory) is Sync,
        saved_after(SaveStep::Sync, true, has_directory) is Rename,
        saved_after(SaveStep::Rename, true, true) is SyncDirectory,
        saved_after(SaveStep::Rename, true, false) is Saved,
        saved_after(SaveStep::SyncDirectory, true, has_directory) is Saved,
        step !is RemoveTemporary && step !is Saved && step !is Failed ==> saved_after(
            step,
            false,
            has_directory,
        ) is RemoveTemporary,
        forall|done: bool| (#[trigger] saved_after(SaveStep::RemoveTemporary, done, has_directory)) is Failed,
        step is Saved || step is Failed ==> saved_after(step, true, has_directory) == step,
{
}

} // verus!

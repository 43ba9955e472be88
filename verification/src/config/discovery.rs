//! Which outputs there are, and what the configuration makes of them.

use super::app::{
    output_views, BacklightKind, BacklightOutput, BacklightView, Capturer, DdcUtilOutput,
    DdcUtilView, Output, OutputView, Predictor, VulkanDevice,
};
use crate::maps::names::Names;
use crate::predictor::AlsDirection;
use crate::text::chars::{chars, same, string_of};
use crate::text::hex::{append_hex, hex_of};
use crate::text::order::{is_before, lemma_irreflexive, lemma_total, lemma_transitive, precedes};
use crate::text::path::{components_of, file_name, file_name_of, lies_below, same_path};
use crate::text::search::{begins_with, contains, holds, lower, starts_with, to_lower};
use crate::text::space::{find_char, first_index, first_place_is_found, trim, trimmed};
use vstd::prelude::*;

verus! {

/// How many bytes of an EDID tell displays apart: its base block.
pub const EDID_BLOCK: usize = 128;

/// A connector of a graphics card to which something is connected.
#[derive(Debug)]
pub struct Connector {
    pub name: String,
    /// Where the connector really is.
    pub path: String,
    pub edid: Vec<u8>,
}

/// A backlight device.
#[derive(Debug)]
pub struct Backlight {
    pub path: String,
    /// The name of the connector that the device belongs to.
    pub connector: Option<String>,
    pub edid: Vec<u8>,
    /// How much the device is to be preferred to others.
    pub rank: u8,
}

/// A display that answers over DDC.
#[derive(Debug)]
pub struct Display {
    pub serial_number: Option<String>,
    pub serial: Option<u32>,
    pub model_name: Option<String>,
    pub manufacturer_id: Option<String>,
    pub edid: Option<Vec<u8>>,
}

/// What the directory of a connector holds.
#[derive(Debug)]
pub struct ConnectorEntry {
    pub path: String,
    /// Where the directory really is.
    pub canonical: String,
    pub status: Option<String>,
    pub edid: Vec<u8>,
}

/// What the directory of a backlight holds.
#[derive(Debug)]
pub struct BacklightEntry {
    pub path: String,
    /// Where the directory really is.
    pub canonical: String,
    pub edid: Vec<u8>,
    pub kind: Option<String>,
}

/// What the directory of a light holds.
#[derive(Debug)]
pub struct LedEntry {
    pub path: String,
    pub has_brightness: bool,
    pub has_max_brightness: bool,
}

/// Two EDIDs are those of one display.
pub open spec fn edids_match(left: Seq<u8>, right: Seq<u8>) -> bool {
    left.len() >= EDID_BLOCK && right.len() >= EDID_BLOCK && left.take(EDID_BLOCK as int)
        == right.take(EDID_BLOCK as int)
}

/// Whether two EDIDs are those of one display.
pub fn same_edid(left: &Vec<u8>, right: &Vec<u8>) -> (r: bool)
    ensures
        r == edids_match(left@, right@),
{
    if left.len() < EDID_BLOCK || right.len() < EDID_BLOCK {
        return false;
    }
    for i in 0..EDID_BLOCK
        invariant
            left@.len() >= EDID_BLOCK,
            right@.len() >= EDID_BLOCK,
            forall|j: int| 0 <= j < i ==> left@[j] == right@[j],
    {
        if left[i] != right[i] {
            assert(left@.take(EDID_BLOCK as int)[i as int] != right@.take(
                EDID_BLOCK as int,
            )[i as int]);
            return false;
        }
    }
    assert(left@.take(EDID_BLOCK as int) =~= right@.take(EDID_BLOCK as int));
    true
}

/// `value` is given and not empty.
pub open spec fn is_given(value: Option<String>) -> bool {
    value is Some && value->0@.len() > 0
}

/// By what a display is told apart: its serial number as text, as a number, its
/// model, or who made it, whichever it gives first.
pub open spec fn identifier_of(display: Display) -> Option<Seq<char>> {
    if is_given(display.serial_number) {
        Some(display.serial_number->0@)
    } else if display.serial is Some {
        Some("0x"@ + hex_of(display.serial->0 as nat, 8))
    } else if is_given(display.model_name) {
        Some(display.model_name->0@)
    } else if is_given(display.manufacturer_id) {
        Some(display.manufacturer_id->0@)
    } else {
        None
    }
}

/// `value` where it is given and not empty.
fn given(value: &Option<String>) -> (r: Option<String>)
    ensures
        r is Some <==> is_given(*value),
        r matches Some(text) ==> text@ == value->0@,
{
    match value {
        Some(text) => {
            if chars(text.as_str()).len() > 0 {
                Some(text.clone())
            } else {
                None
            }
        },
        None => None,
    }
}

/// By what a display is told apart.
pub fn display_identifier(display: &Display) -> (r: Option<String>)
    ensures
        r is Some <==> identifier_of(*display) is Some,
        r matches Some(text) ==> identifier_of(*display) == Some(text@),
{
    if let Some(text) = given(&display.serial_number) {
        return Some(text);
    }
    if let Some(serial) = display.serial {
        let mut text = "0x".to_string();
        append_hex(&mut text, serial as u64, 8);
        return Some(text);
    }
    if let Some(text) = given(&display.model_name) {
        return Some(text);
    }
    given(&display.manufacturer_id)
}

/// How many of `displays` are told apart by `identifier`.
pub open spec fn identifier_count(displays: Seq<Display>, identifier: Seq<char>) -> nat
    decreases displays.len(),
{
    if displays.len() == 0 {
        0
    } else {
        let rest = identifier_count(displays.drop_last(), identifier);
        if identifier_of(displays.last()) == Some(identifier) {
            rest + 1
        } else {
            rest
        }
    }
}

/// How many of `identifiers` are `identifier`.
fn count_identifier(
    identifiers: &Vec<Option<String>>,
    identifier: &str,
    displays: Ghost<Seq<Display>>,
) -> (r: usize)
    requires
        identifiers@.len() == displays@.len(),
        forall|i: int|
            0 <= i < displays@.len() ==> {
                &&& (#[trigger] identifiers@[i]) is Some <==> identifier_of(displays@[i]) is Some
                &&& identifiers@[i] matches Some(text) ==> identifier_of(displays@[i]) == Some(text@)
            },
    ensures
        r == identifier_count(displays@, identifier@),
{
    let mut n: usize = 0;
    for i in 0..identifiers.len()
        invariant
            n == identifier_count(displays@.take(i as int), identifier@),
            n <= i,
            identifiers@.len() == displays@.len(),
            forall|i: int|
                0 <= i < displays@.len() ==> {
                    &&& (#[trigger] identifiers@[i]) is Some <==> identifier_of(displays@[i]) is Some
                    &&& identifiers@[i] matches Some(text) ==> identifier_of(displays@[i]) == Some(
                        text@,
                    )
                },
    {
        assert(displays@.take(i + 1).drop_last() =~= displays@.take(i as int));
        assert(displays@.take(i + 1).last() == displays@[i as int]);
        if let Some(text) = &identifiers[i] {
            if same(text.as_str(), identifier) {
                n = n + 1;
            }
        }
    }
    assert(displays@.take(displays@.len() as int) =~= displays@);
    n
}

/// The backlight `b` may belong to the connector `c`.
pub open spec fn fits(b: Backlight, c: Connector) -> bool {
    (b.connector matches Some(name) && name@ == c.name@) || edids_match(b.edid@, c.edid@)
}

/// Of the first `n` backlights, the one for the connector: of those that are
/// not used and fit, the last one with the highest rank.
pub open spec fn chosen_backlight(
    backlights: Seq<Backlight>,
    used: Seq<bool>,
    c: Connector,
    n: nat,
) -> Option<int>
    decreases n,
{
    if n == 0 {
        None
    } else {
        let before = chosen_backlight(backlights, used, c, (n - 1) as nat);
        let b = backlights[n - 1];
        if !used[n - 1] && fits(b, c) && (before is None || backlights[before->0].rank <= b.rank) {
            Some(n - 1)
        } else {
            before
        }
    }
}

/// The first display from the place `from` on that has the given EDID.
pub open spec fn display_with(displays: Seq<Display>, edid: Seq<u8>, from: int) -> Option<int>
    decreases displays.len() - from,
{
    if from < 0 || from >= displays.len() {
        None
    } else if displays[from].edid matches Some(data) && edids_match(data@, edid) {
        Some(from)
    } else {
        display_with(displays, edid, from + 1)
    }
}

/// What is known after some of the connectors.
pub ghost struct Progress {
    pub used: Seq<bool>,
    pub displays: Seq<Display>,
    pub outputs: Seq<OutputView>,
}

/// The output of a connector with a backlight.
pub open spec fn panel(name: Seq<char>, path: Seq<char>) -> OutputView {
    OutputView::Backlight(
        BacklightView {
            name,
            path,
            capturer: Capturer::Auto,
            vulkan_device: None,
            min_brightness: 1,
            predictor: None,
            als_direction: AlsDirection::Increasing,
            kind: BacklightKind::Display,
        },
    )
}

/// The output of a connector with a display that answers over DDC.
pub open spec fn monitor(name: Seq<char>, identifier: Seq<char>) -> OutputView {
    OutputView::DdcUtil(
        DdcUtilView {
            name,
            identifier,
            identifier_overridden: false,
            capturer: Capturer::Auto,
            vulkan_device: None,
            min_brightness: 1,
            predictor: None,
        },
    )
}

/// The output of a keyboard light.
pub open spec fn keyboard(name: Seq<char>, path: Seq<char>) -> OutputView {
    OutputView::Backlight(
        BacklightView {
            name,
            path,
            capturer: Capturer::Off,
            vulkan_device: None,
            min_brightness: 0,
            predictor: None,
            als_direction: AlsDirection::Decreasing,
            kind: BacklightKind::Keyboard,
        },
    )
}

/// What one more connector adds. It takes a backlight that fits where there is
/// one, or else a display with its EDID, which is then no longer free; the
/// display makes an output only where no other display is told apart alike.
pub open spec fn assigned(
    p: Progress,
    c: Connector,
    backlights: Seq<Backlight>,
    all_displays: Seq<Display>,
) -> Progress {
    match chosen_backlight(backlights, p.used, c, backlights.len()) {
        Some(i) => Progress {
            used: p.used.update(i, true),
            displays: p.displays,
            outputs: p.outputs.push(panel(c.name@, backlights[i].path@)),
        },
        None => match display_with(p.displays, c.edid@, 0) {
            Some(i) => {
                let left = p.displays.update(i, p.displays.last()).drop_last();
                match identifier_of(p.displays[i]) {
                    Some(identifier) => if identifier_count(all_displays, identifier) == 1 {
                        Progress {
                            used: p.used,
                            displays: left,
                            outputs: p.outputs.push(monitor(c.name@, identifier)),
                        }
                    } else {
                        Progress { used: p.used, displays: left, outputs: p.outputs }
                    },
                    None => Progress { used: p.used, displays: left, outputs: p.outputs },
                }
            },
            None => p,
        },
    }
}

/// What is known after the first `n` connectors.
pub open spec fn assigned_all(
    connectors: Seq<Connector>,
    backlights: Seq<Backlight>,
    displays: Seq<Display>,
    n: nat,
) -> Progress
    decreases n,
{
    if n == 0 {
        Progress {
            used: Seq::new(backlights.len(), |i: int| false),
            displays,
            outputs: Seq::empty(),
        }
    } else {
        assigned(
            assigned_all(connectors, backlights, displays, (n - 1) as nat),
            connectors[n - 1],
            backlights,
            displays,
        )
    }
}

/// The backlight for a connector.
fn choose_backlight(backlights: &Vec<Backlight>, used: &Vec<bool>, c: &Connector) -> (r: Option<
    usize,
>)
    requires
        used@.len() == backlights@.len(),
    ensures
        r is Some <==> chosen_backlight(backlights@, used@, *c, backlights@.len()) is Some,
        r matches Some(i) ==> i < backlights@.len() && chosen_backlight(
            backlights@,
            used@,
            *c,
            backlights@.len(),
        ) == Some(i as int),
{
    let mut best: Option<usize> = None;
    for i in 0..backlights.len()
        invariant
            used@.len() == backlights@.len(),
            best is Some <==> chosen_backlight(backlights@, used@, *c, i as nat) is Some,
            best matches Some(b) ==> b < i && chosen_backlight(backlights@, used@, *c, i as nat)
                == Some(b as int),
    {
        let b = &backlights[i];
        let named = match &b.connector {
            Some(name) => same(name.as_str(), c.name.as_str()),
            None => false,
        };
        let fit = named || same_edid(&b.edid, &c.edid);
        assert(fit == fits(*b, *c));
        if !used[i] && fit {
            let better = match best {
                Some(k) => backlights[k].rank <= b.rank,
                None => true,
            };
            if better {
                best = Some(i);
            }
        }
    }
    best
}

/// The first display that has the given EDID.
fn find_display(displays: &Vec<Display>, edid: &Vec<u8>) -> (r: Option<usize>)
    ensures
        r is Some <==> display_with(displays@, edid@, 0) is Some,
        r matches Some(i) ==> i < displays@.len() && display_with(displays@, edid@, 0) == Some(
            i as int,
        ),
{
    let mut i: usize = 0;
    while i < displays.len()
        invariant
            i <= displays@.len(),
            display_with(displays@, edid@, 0) == display_with(displays@, edid@, i as int),
        decreases displays.len() - i,
    {
        if let Some(data) = &displays[i].edid {
            if same_edid(data, edid) {
                return Some(i);
            }
        }
        i = i + 1;
    }
    None
}

/// The outputs of the connectors, in their order, and then the keyboards.
pub fn outputs(
    connectors: Vec<Connector>,
    backlights: &Vec<Backlight>,
    displays: Vec<Display>,
    keyboards: Vec<Output>,
) -> (r: Vec<Output>)
    ensures
        output_views(r@) == assigned_all(
            connectors@,
            backlights@,
            displays@,
            connectors@.len(),
        ).outputs + output_views(keyboards@),
{
    let ghost all = displays@;
    let mut identifiers: Vec<Option<String>> = Vec::new();
    for i in 0..displays.len()
        invariant
            identifiers@.len() == i,
            displays@ == all,
            forall|j: int|
                0 <= j < i ==> {
                    &&& (#[trigger] identifiers@[j]) is Some <==> identifier_of(all[j]) is Some
                    &&& identifiers@[j] matches Some(text) ==> identifier_of(all[j]) == Some(text@)
                },
    {
        identifiers.push(display_identifier(&displays[i]));
    }
    let mut displays = displays;
    let mut used: Vec<bool> = Vec::new();
    for i in 0..backlights.len()
        invariant
            used@ =~= Seq::new(i as nat, |j: int| false),
    {
        used.push(false);
    }
    let mut outputs: Vec<Output> = Vec::new();
    assert(output_views(outputs@) =~= Seq::empty());
    for n in 0..connectors.len()
        invariant
            used@.len() == backlights@.len(),
            identifiers@.len() == all.len(),
            forall|j: int|
                0 <= j < all.len() ==> {
                    &&& (#[trigger] identifiers@[j]) is Some <==> identifier_of(all[j]) is Some
                    &&& identifiers@[j] matches Some(text) ==> identifier_of(all[j]) == Some(text@)
                },
            ({
                let p = assigned_all(connectors@, backlights@, all, n as nat);
                used@ == p.used && displays@ == p.displays && output_views(outputs@) == p.outputs
            }),
    {
        let ghost p = assigned_all(connectors@, backlights@, all, n as nat);
        let ghost before = outputs@;
        let connector = &connectors[n];
        let found = choose_backlight(backlights, &used, connector);
        if let Some(i) = found {
            used.set(i, true);
            let output = Output::Backlight(
                BacklightOutput {
                    name: connector.name.clone(),
                    path: backlights[i].path.clone(),
                    capturer: Capturer::Auto,
                    vulkan_device: VulkanDevice::Auto,
                    min_brightness: 1,
                    predictor: Predictor::Adaptive,
                    als_direction: AlsDirection::Increasing,
                    kind: BacklightKind::Display,
                },
            );
            outputs.push(output);
            assert(output_views(outputs@) =~= output_views(before).push(output@));
        } else if let Some(i) = find_display(&displays, &connector.edid) {
            let display = displays.swap_remove(i);
            if let Some(identifier) = display_identifier(&display) {
                if count_identifier(&identifiers, identifier.as_str(), Ghost(all)) == 1 {
                    let output = Output::DdcUtil(
                        DdcUtilOutput {
                            name: connector.name.clone(),
                            identifier,
                            identifier_overridden: false,
                            capturer: Capturer::Auto,
                            vulkan_device: VulkanDevice::Auto,
                            min_brightness: 1,
                            predictor: Predictor::Adaptive,
                        },
                    );
                    outputs.push(output);
                    assert(output_views(outputs@) =~= output_views(before).push(output@));
                }
            }
        }
        assert(assigned_all(connectors@, backlights@, all, (n + 1) as nat) == assigned(
            p,
            connectors@[n as int],
            backlights@,
            all,
        ));
    }
    let ghost found = outputs@;
    let mut keyboards = keyboards;
    let ghost added = keyboards@;
    outputs.append(&mut keyboards);
    assert(output_views(outputs@) =~= output_views(found) + output_views(added));
    outputs
}

/// The backlight for a connector is not used yet and fits it, and no other such
/// backlight has a higher rank or, further on, the same.
pub proof fn chosen_backlight_is_best(
    backlights: Seq<Backlight>,
    used: Seq<bool>,
    c: Connector,
    n: nat,
)
    requires
        used.len() == backlights.len(),
        n <= backlights.len(),
    ensures
        chosen_backlight(backlights, used, c, n) is None ==> forall|j: int|
            0 <= j < n && fits(#[trigger] backlights[j], c) ==> used[j],
        chosen_backlight(backlights, used, c, n) matches Some(i) ==> {
            &&& 0 <= i < n && !used[i] && fits(backlights[i], c)
            &&& forall|j: int|
                0 <= j < n && !used[j] && fits(#[trigger] backlights[j], c) ==> backlights[j].rank
                    < backlights[i].rank || (backlights[j].rank == backlights[i].rank && j <= i)
        },
    decreases n,
{
    if n > 0 {
        chosen_backlight_is_best(backlights, used, c, (n - 1) as nat);
    }
}

/// The name of the connector whose directory is `entry`, where something is
/// connected to it: what follows the first dash in the name of the directory.
pub open spec fn connector_name(entry: ConnectorEntry) -> Option<Seq<char>> {
    match file_name_of(entry.path@) {
        Some(name) => if begins_with(name, "card"@) && first_index(name, '-') < name.len()
            && entry.status is Some && trimmed(entry.status->0@) == "connected"@ {
            Some(name.skip(first_index(name, '-') as int + 1))
        } else {
            None
        },
        None => None,
    }
}

/// `c` is the connector whose directory is `entry`.
pub open spec fn is_connector_of(c: Connector, entry: ConnectorEntry) -> bool {
    Some(c.name@) == connector_name(entry) && c.path@ == entry.canonical@ && c.edid@ == entry.edid@
}

/// The directories of connectors to which something is connected.
pub open spec fn connected(entries: Seq<ConnectorEntry>) -> Seq<ConnectorEntry>
    decreases entries.len(),
{
    if entries.len() == 0 {
        Seq::empty()
    } else if connector_name(entries.last()) is Some {
        connected(entries.drop_last()).push(entries.last())
    } else {
        connected(entries.drop_last())
    }
}

/// The same bytes once more.
fn copy_bytes(bytes: &Vec<u8>) -> (r: Vec<u8>)
    ensures
        r@ == bytes@,
{
    let mut r: Vec<u8> = Vec::new();
    for i in 0..bytes.len()
        invariant
            r@ =~= bytes@.take(i as int),
    {
        r.push(bytes[i]);
    }
    assert(r@ =~= bytes@);
    r
}

/// The connector whose directory is `entry`, where something is connected to it.
fn connector_of(entry: &ConnectorEntry) -> (r: Option<Connector>)
    ensures
        r is Some <==> connector_name(*entry) is Some,
        r matches Some(c) ==> is_connector_of(c, *entry),
{
    let is_connected = match &entry.status {
        Some(status) => same(trim(status.as_str()).as_str(), "connected"),
        None => false,
    };
    if !is_connected {
        return None;
    }
    match file_name(entry.path.as_str()) {
        Some(name) => {
            let v = chars(name.as_str());
            let dash = find_char(&v, 0, '-');
            assert(v@.skip(0) =~= name@);
            if !starts_with(name.as_str(), "card") || dash >= v.len() {
                return None;
            }
            let short = string_of(&v, dash + 1, v.len());
            assert(short@ =~= name@.skip(first_index(name@, '-') as int + 1));
            Some(
                Connector {
                    name: short,
                    path: entry.canonical.clone(),
                    edid: copy_bytes(&entry.edid),
                },
            )
        },
        None => None,
    }
}

/// The connectors to which something is connected, in the order of their
/// directories.
pub fn connectors(entries: Vec<ConnectorEntry>) -> (r: Vec<Connector>)
    ensures
        r@.len() == connected(entries@).len(),
        forall|i: int|
            0 <= i < r@.len() ==> is_connector_of(#[trigger] r@[i], connected(entries@)[i]),
{
    let mut r: Vec<Connector> = Vec::new();
    for i in 0..entries.len()
        invariant
            r@.len() == connected(entries@.take(i as int)).len(),
            forall|j: int|
                0 <= j < r@.len() ==> is_connector_of(
                    #[trigger] r@[j],
                    connected(entries@.take(i as int))[j],
                ),
    {
        assert(entries@.take(i + 1).drop_last() =~= entries@.take(i as int));
        assert(entries@.take(i + 1).last() == entries@[i as int]);
        if let Some(connector) = connector_of(&entries[i]) {
            r.push(connector);
        }
    }
    assert(entries@.take(entries@.len() as int) =~= entries@);
    r
}

/// How much a backlight of the given kind is to be preferred to others.
pub open spec fn rank_of(kind: Option<Seq<char>>) -> u8 {
    match kind {
        Some(kind) => if trimmed(kind) == "raw"@ {
            3
        } else if trimmed(kind) == "platform"@ {
            2
        } else if trimmed(kind) == "firmware"@ {
            1
        } else {
            0
        },
        None => 0,
    }
}

/// Whether something lies at or below the path of a connector.
pub open spec fn lies_at(canonical: Seq<char>, c: Connector) -> bool {
    components_of(c.path@).is_prefix_of(components_of(canonical))
}

/// The name of the first connector below which something lies.
pub open spec fn connector_above(canonical: Seq<char>, connectors: Seq<Connector>) -> Option<
    Seq<char>,
>
    decreases connectors.len(),
{
    if connectors.len() == 0 {
        None
    } else if lies_at(canonical, connectors[0]) {
        Some(connectors[0].name@)
    } else {
        connector_above(canonical, connectors.drop_first())
    }
}

/// `b` is the backlight whose directory is `entry`.
pub open spec fn is_backlight_of(
    b: Backlight,
    entry: BacklightEntry,
    connectors: Seq<Connector>,
) -> bool {
    let above = connector_above(entry.canonical@, connectors);
    &&& b.path@ == entry.path@
    &&& b.connector is Some <==> above is Some
    &&& b.connector matches Some(name) ==> above == Some(name@)
    &&& b.edid@ == entry.edid@
    &&& b.rank == rank_of(
        match entry.kind {
            Some(kind) => Some(kind@),
            None => None,
        },
    )
}

/// The backlights, in the order of their directories.
pub fn backlights(entries: Vec<BacklightEntry>, connectors: &Vec<Connector>) -> (r: Vec<Backlight>)
    ensures
        r@.len() == entries@.len(),
        forall|i: int|
            0 <= i < r@.len() ==> is_backlight_of(#[trigger] r@[i], entries@[i], connectors@),
{
    let mut r: Vec<Backlight> = Vec::new();
    for i in 0..entries.len()
        invariant
            r@.len() == i,
            forall|j: int|
                0 <= j < r@.len() ==> is_backlight_of(#[trigger] r@[j], entries@[j], connectors@),
    {
        let entry = &entries[i];
        let connector = above(entry.canonical.as_str(), connectors);
        let rank: u8 = match &entry.kind {
            Some(kind) => {
                let kind = trim(kind.as_str());
                if same(kind.as_str(), "raw") {
                    3
                } else if same(kind.as_str(), "platform") {
                    2
                } else if same(kind.as_str(), "firmware") {
                    1
                } else {
                    0
                }
            },
            None => 0,
        };
        let mut edid: Vec<u8> = Vec::new();
        for k in 0..entry.edid.len()
            invariant
                edid@ =~= entry.edid@.take(k as int),
        {
            edid.push(entry.edid[k]);
        }
        assert(edid@ =~= entry.edid@);
        r.push(Backlight { path: entry.path.clone(), connector, edid, rank });
    }
    r
}

/// The name of the first connector below which something lies.
fn above(canonical: &str, connectors: &Vec<Connector>) -> (r: Option<String>)
    ensures
        r is Some <==> connector_above(canonical@, connectors@) is Some,
        r matches Some(name) ==> connector_above(canonical@, connectors@) == Some(name@),
{
    let mut i: usize = 0;
    assert(connectors@.skip(0) =~= connectors@);
    while i < connectors.len()
        invariant
            i <= connectors@.len(),
            connector_above(canonical@, connectors@) == connector_above(
                canonical@,
                connectors@.skip(i as int),
            ),
        decreases connectors.len() - i,
    {
        assert(connectors@.skip(i as int)[0] == connectors@[i as int]);
        assert(connectors@.skip(i as int).drop_first() =~= connectors@.skip(i + 1));
        if lies_below(canonical, connectors[i].path.as_str()) {
            return Some(connectors[i].name.clone());
        }
        i = i + 1;
    }
    None
}

/// The light whose directory is `entry` is that of a keyboard.
pub open spec fn is_keyboard_light(entry: LedEntry) -> bool {
    &&& file_name_of(entry.path@) is Some
    &&& holds(file_name_of(entry.path@)->0.map_values(|c: char| lower(c)), "kbd_backlight"@)
    &&& entry.has_brightness
    &&& entry.has_max_brightness
}

/// The outputs of the keyboard lights among the first `n` lights.
pub open spec fn keyboard_outputs(entries: Seq<LedEntry>, n: nat) -> Seq<OutputView>
    decreases n,
{
    if n == 0 {
        Seq::empty()
    } else {
        let before = keyboard_outputs(entries, (n - 1) as nat);
        let entry = entries[n - 1];
        if is_keyboard_light(entry) {
            before.push(keyboard(file_name_of(entry.path@)->0, entry.path@))
        } else {
            before
        }
    }
}

/// The outputs of the lights that are those of keyboards.
pub fn keyboards(entries: Vec<LedEntry>) -> (r: Vec<Output>)
    ensures
        output_views(r@) == keyboard_outputs(entries@, entries@.len()),
{
    let mut r: Vec<Output> = Vec::new();
    for i in 0..entries.len()
        invariant
            output_views(r@) =~= keyboard_outputs(entries@, i as nat),
    {
        let entry = &entries[i];
        let ghost before = r@;
        if let Some(name) = file_name(entry.path.as_str()) {
            if contains(to_lower(name.as_str()).as_str(), "kbd_backlight") && entry.has_brightness
                && entry.has_max_brightness {
                let output = Output::Backlight(
                    BacklightOutput {
                        name,
                        path: entry.path.clone(),
                        capturer: Capturer::Off,
                        vulkan_device: VulkanDevice::Auto,
                        min_brightness: 0,
                        predictor: Predictor::Adaptive,
                        als_direction: AlsDirection::Decreasing,
                        kind: BacklightKind::Keyboard,
                    },
                );
                r.push(output);
                assert(output_views(r@) =~= output_views(before).push(output@));
            }
        }
        assert(keyboard_outputs(entries@, (i + 1) as nat) == if is_keyboard_light(
            entries@[i as int],
        ) {
            keyboard_outputs(entries@, i as nat).push(
                keyboard(file_name_of(entries@[i as int].path@)->0, entries@[i as int].path@),
            )
        } else {
            keyboard_outputs(entries@, i as nat)
        });
    }
    r
}

/// Where a path really leads, by what is known of it.
pub open spec fn resolved_path(resolved: Map<Seq<char>, String>, path: Seq<char>) -> Seq<char> {
    if resolved.contains_key(path) {
        resolved[path]@
    } else {
        path
    }
}

/// Two outputs are backlights with paths that lead to the same place.
pub open spec fn share_path(
    left: OutputView,
    right: OutputView,
    resolved: Map<Seq<char>, String>,
) -> bool {
    match (left, right) {
        (OutputView::Backlight(left), OutputView::Backlight(right)) => {
            &&& left.path.len() > 0
            &&& right.path.len() > 0
            &&& components_of(resolved_path(resolved, left.path)) == components_of(
                resolved_path(resolved, right.path),
            )
        },
        _ => false,
    }
}

/// The configured output `c` means the detected output `d`.
pub open spec fn means(
    c: OutputView,
    d: OutputView,
    resolved: Map<Seq<char>, String>,
) -> bool {
    d.name() == c.name() || share_path(d, c, resolved)
}

/// What is detected, as the configuration wants it. An output of the other kind
/// keeps its name and how it is controlled.
pub open spec fn overridden(d: OutputView, c: OutputView) -> OutputView {
    match (d, c) {
        (OutputView::Backlight(d), OutputView::Backlight(c)) => OutputView::Backlight(
            BacklightView {
                name: c.name,
                path: if c.path.len() > 0 {
                    c.path
                } else {
                    d.path
                },
                capturer: c.capturer,
                vulkan_device: c.vulkan_device,
                predictor: c.predictor,
                ..d
            },
        ),
        (OutputView::DdcUtil(d), OutputView::DdcUtil(c)) => OutputView::DdcUtil(
            DdcUtilView {
                name: c.name,
                identifier: if c.identifier_overridden {
                    c.identifier
                } else {
                    d.identifier
                },
                identifier_overridden: c.identifier_overridden || d.identifier_overridden,
                capturer: c.capturer,
                vulkan_device: c.vulkan_device,
                predictor: c.predictor,
                ..d
            },
        ),
        (OutputView::Backlight(d), OutputView::DdcUtil(c)) => OutputView::Backlight(
            BacklightView {
                capturer: c.capturer,
                vulkan_device: c.vulkan_device,
                predictor: c.predictor,
                ..d
            },
        ),
        (OutputView::DdcUtil(d), OutputView::Backlight(c)) => OutputView::DdcUtil(
            DdcUtilView {
                capturer: c.capturer,
                vulkan_device: c.vulkan_device,
                predictor: c.predictor,
                ..d
            },
        ),
    }
}

/// The output can be controlled as it is configured, detected or not.
pub open spec fn is_controllable(output: OutputView) -> bool {
    match output {
        OutputView::Backlight(output) => output.path.len() > 0,
        OutputView::DdcUtil(_) => true,
    }
}

/// The first of the detected outputs, from the place `from` on, that `c` means.
pub open spec fn meant(
    detected: Seq<OutputView>,
    c: OutputView,
    resolved: Map<Seq<char>, String>,
    from: int,
) -> Option<int>
    decreases detected.len() - from,
{
    if from < 0 || from >= detected.len() {
        None
    } else if means(c, detected[from], resolved) {
        Some(from)
    } else {
        meant(detected, c, resolved, from + 1)
    }
}

/// The outputs after the first `n` of the configured ones, and the detected
/// outputs that none of these means.
pub open spec fn combined(
    configured: Seq<OutputView>,
    detected: Seq<OutputView>,
    resolved: Map<Seq<char>, String>,
    n: nat,
) -> (Seq<OutputView>, Seq<OutputView>)
    decreases n,
{
    if n == 0 {
        (Seq::empty(), detected)
    } else {
        let (done, left) = combined(configured, detected, resolved, (n - 1) as nat);
        let c = configured[n - 1];
        match meant(left, c, resolved, 0) {
            Some(i) => (done.push(overridden(left[i], c)), left.remove(i)),
            None => if is_controllable(c) {
                (done.push(c), left)
            } else {
                (done, left)
            },
        }
    }
}

/// All outputs: the configured ones, each with what was detected of it, and
/// then what else was detected.
pub open spec fn all_outputs(
    configured: Seq<OutputView>,
    detected: Seq<OutputView>,
    resolved: Map<Seq<char>, String>,
) -> Seq<OutputView> {
    let (done, left) = combined(configured, detected, resolved, configured.len());
    done + left
}

/// The outputs stand in the order of their names.
pub open spec fn ordered(s: Seq<OutputView>) -> bool {
    forall|i: int, j: int|
        0 <= i < j < s.len() ==> !precedes((#[trigger] s[j]).name(), (#[trigger] s[i]).name())
}

/// The outputs with the given name, in the order in which they stand.
pub open spec fn with_name(s: Seq<OutputView>, name: Seq<char>) -> Seq<OutputView> {
    s.filter(|o: OutputView| o.name() == name)
}

/// `r` holds what `s` holds, in the order of the names, and outputs with the
/// same name in the order that they have in `s`.
pub open spec fn sorted_by_name(r: Seq<OutputView>, s: Seq<OutputView>) -> bool {
    &&& ordered(r)
    &&& forall|name: Seq<char>| #[trigger] with_name(r, name) == with_name(s, name)
}

/// Whether two outputs are backlights with paths that lead to the same place.
fn same_backlight_path(left: &Output, right: &Output, resolved: &Names<String>) -> (r: bool)
    requires
        resolved.wf(),
    ensures
        r == share_path(left@, right@, resolved@),
{
    match (left, right) {
        (Output::Backlight(left), Output::Backlight(right)) => {
            if chars(left.path.as_str()).len() == 0 || chars(right.path.as_str()).len() == 0 {
                return false;
            }
            let a = match resolved.get(left.path.as_str()) {
                Some(path) => path.as_str(),
                None => left.path.as_str(),
            };
            let b = match resolved.get(right.path.as_str()) {
                Some(path) => path.as_str(),
                None => right.path.as_str(),
            };
            same_path(a, b)
        },
        _ => false,
    }
}

/// What is detected, as the configuration wants it.
fn apply_overrides(detected: Output, configured: Output) -> (r: Output)
    ensures
        r@ == overridden(detected@, configured@),
{
    match (detected, configured) {
        (Output::Backlight(d), Output::Backlight(c)) => {
            let path = if chars(c.path.as_str()).len() > 0 {
                c.path
            } else {
                d.path
            };
            Output::Backlight(
                BacklightOutput {
                    name: c.name,
                    path,
                    capturer: c.capturer,
                    vulkan_device: c.vulkan_device,
                    min_brightness: d.min_brightness,
                    predictor: c.predictor,
                    als_direction: d.als_direction,
                    kind: d.kind,
                },
            )
        },
        (Output::DdcUtil(d), Output::DdcUtil(c)) => {
            let identifier = if c.identifier_overridden {
                c.identifier
            } else {
                d.identifier
            };
            Output::DdcUtil(
                DdcUtilOutput {
                    name: c.name,
                    identifier,
                    identifier_overridden: c.identifier_overridden || d.identifier_overridden,
                    capturer: c.capturer,
                    vulkan_device: c.vulkan_device,
                    min_brightness: d.min_brightness,
                    predictor: c.predictor,
                },
            )
        },
        (Output::Backlight(d), Output::DdcUtil(c)) => Output::Backlight(
            BacklightOutput {
                name: d.name,
                path: d.path,
                capturer: c.capturer,
                vulkan_device: c.vulkan_device,
                min_brightness: d.min_brightness,
                predictor: c.predictor,
                als_direction: d.als_direction,
                kind: d.kind,
            },
        ),
        (Output::DdcUtil(d), Output::Backlight(c)) => Output::DdcUtil(
            DdcUtilOutput {
                name: d.name,
                identifier: d.identifier,
                identifier_overridden: d.identifier_overridden,
                capturer: c.capturer,
                vulkan_device: c.vulkan_device,
                min_brightness: d.min_brightness,
                predictor: c.predictor,
            },
        ),
    }
}

/// Whether the output can be controlled as it is configured.
fn has_brightness_path(output: &Output) -> (r: bool)
    ensures
        r == is_controllable(output@),
{
    match output {
        Output::Backlight(output) => chars(output.path.as_str()).len() > 0,
        Output::DdcUtil(_) => true,
    }
}

/// The first of the detected outputs that `configured` means.
fn find_meant(detected: &Vec<Output>, configured: &Output, resolved: &Names<String>) -> (r: Option<
    usize,
>)
    requires
        resolved.wf(),
    ensures
        r is Some <==> meant(output_views(detected@), configured@, resolved@, 0) is Some,
        r matches Some(i) ==> i < detected@.len() && meant(
            output_views(detected@),
            configured@,
            resolved@,
            0,
        ) == Some(i as int),
{
    let ghost views = output_views(detected@);
    let mut i: usize = 0;
    while i < detected.len()
        invariant
            i <= detected@.len(),
            views == output_views(detected@),
            resolved.wf(),
            meant(views, configured@, resolved@, 0) == meant(
                views,
                configured@,
                resolved@,
                i as int,
            ),
        decreases detected.len() - i,
    {
        if same(detected[i].name(), configured.name()) || same_backlight_path(
            &detected[i],
            configured,
            resolved,
        ) {
            return Some(i);
        }
        i = i + 1;
    }
    None
}

/// Putting an output behind those that do not come after it keeps the order,
/// and puts it last of those with its name.
proof fn lemma_placed(r: Seq<OutputView>, i: int, o: OutputView)
    requires
        ordered(r),
        0 <= i <= r.len(),
        forall|j: int| 0 <= j < i ==> !precedes(o.name(), (#[trigger] r[j]).name()),
        forall|j: int| i <= j < r.len() ==> precedes(o.name(), (#[trigger] r[j]).name()),
    ensures
        ordered(r.insert(i, o)),
        forall|name: Seq<char>|
            #[trigger] with_name(r.insert(i, o), name) == with_name(r.push(o), name),
{
    let t = r.insert(i, o);
    assert(ordered(t)) by {
        assert forall|a: int, b: int| 0 <= a < b < t.len() implies !precedes(
            (#[trigger] t[b]).name(),
            (#[trigger] t[a]).name(),
        ) by {
            let c = if a < i { a } else { a - 1 };
            let d = if b < i { b } else { b - 1 };
            if a != i {
                assert(t[a] == r[c]);
            }
            if b != i {
                assert(t[b] == r[d]);
            }
            if a == i && precedes(t[b].name(), o.name()) {
                assert(precedes(o.name(), r[d].name()));
                lemma_transitive(o.name(), r[d].name(), o.name());
                lemma_irreflexive(o.name());
            }
        }
    }
    assert forall|name: Seq<char>| #[trigger] with_name(t, name) == with_name(r.push(o), name) by {
        let p = |o: OutputView| o.name() == name;
        let a = r.take(i);
        let b = r.skip(i);
        let x = seq![o];
        assert(t =~= a + (x + b));
        assert(r.push(o) =~= a + (b + x));
        Seq::filter_distributes_over_add(a, x + b, p);
        Seq::filter_distributes_over_add(x, b, p);
        Seq::filter_distributes_over_add(a, b + x, p);
        Seq::filter_distributes_over_add(b, x, p);
        if o.name() == name {
            lemma_irreflexive(name);
            assert forall|j: int| 0 <= j < b.len() implies !p(#[trigger] b[j]) by {
                assert(b[j] == r[i + j]);
            }
            lemma_filter_nothing(b, p);
            assert(x.filter(p) + b.filter(p) =~= b.filter(p) + x.filter(p));
        } else {
            lemma_filter_nothing(x, p);
            assert(x.filter(p) + b.filter(p) =~= b.filter(p) + x.filter(p));
        }
    }
}

/// Nothing is left of a sequence none of whose items is wanted.
proof fn lemma_filter_nothing(s: Seq<OutputView>, p: spec_fn(OutputView) -> bool)
    requires
        forall|j: int| 0 <= j < s.len() ==> !p(#[trigger] s[j]),
    ensures
        s.filter(p) =~= Seq::<OutputView>::empty(),
    decreases s.len(),
{
    reveal(Seq::filter);
    if s.len() > 0 {
        assert(!p(s[s.len() - 1]));
        assert forall|j: int| 0 <= j < s.drop_last().len() implies !p(
            #[trigger] s.drop_last()[j],
        ) by {
            assert(s.drop_last()[j] == s[j]);
        }
        lemma_filter_nothing(s.drop_last(), p);
    }
}

/// The outputs in the order of their names; those with the same name keep
/// theirs.
fn sort_outputs(outputs: Vec<Output>) -> (r: Vec<Output>)
    ensures
        sorted_by_name(output_views(r@), output_views(outputs@)),
{
    let ghost all = output_views(outputs@);
    let mut rest = outputs;
    let mut r: Vec<Output> = Vec::new();
    proof {
        assert(output_views(r@) =~= Seq::empty());
        assert(all.take(0) =~= Seq::empty());
        assert(all.skip(0) =~= all);
    }
    while rest.len() > 0
        invariant
            r@.len() + rest@.len() == all.len(),
            output_views(rest@) =~= all.skip(r@.len() as int),
            sorted_by_name(output_views(r@), all.take(r@.len() as int)),
        decreases rest.len(),
    {
        let ghost before = r@;
        let ghost waiting = rest@;
        let output = rest.remove(0);
        let ghost o = output@;
        assert(o == all[before.len() as int]) by {
            assert(output_views(waiting)[0] == all.skip(before.len() as int)[0]);
        }
        assert(output_views(rest@) =~= all.skip(before.len() as int + 1)) by {
            assert forall|j: int| 0 <= j < rest@.len() implies output_views(rest@)[j] == all.skip(
                before.len() as int + 1,
            )[j] by {
                assert(output_views(waiting)[j + 1] == all.skip(before.len() as int)[j + 1]);
            }
        }
        let mut i: usize = r.len();
        while i > 0 && is_before(output.name(), r[i - 1].name())
            invariant
                i <= r@.len(),
                r@ == before,
                output@ == o,
                forall|j: int| i <= j < r@.len() ==> precedes(o.name(), (#[trigger] r@[j])@.name()),
            decreases i,
        {
            i = i - 1;
        }
        proof {
            let v = output_views(before);
            assert forall|j: int| 0 <= j < i implies !precedes(o.name(), (#[trigger] v[j]).name()) by {
                if j < i - 1 && precedes(o.name(), v[j].name()) {
                    assert(!precedes(v[i - 1].name(), v[j].name()));
                    assert(!precedes(o.name(), before[i - 1]@.name()));
                    lemma_total(v[i - 1].name(), v[j].name());
                    if precedes(v[j].name(), v[i - 1].name()) {
                        lemma_transitive(o.name(), v[j].name(), v[i - 1].name());
                    }
                }
            }
            assert forall|j: int| i <= j < v.len() implies precedes(
                o.name(),
                (#[trigger] v[j]).name(),
            ) by {
                assert(precedes(o.name(), before[j]@.name()));
            }
            lemma_placed(v, i as int, o);
        }
        r.insert(i, output);
        proof {
            let v = output_views(before);
            let taken = all.take(before.len() as int);
            assert(output_views(r@) =~= v.insert(i as int, o));
            assert(all.take(before.len() as int + 1) =~= taken.push(o));
            assert forall|name: Seq<char>| #[trigger]
                with_name(output_views(r@), name) == with_name(all.take(r@.len() as int), name) by {
                let p = |o: OutputView| o.name() == name;
                assert(with_name(v, name) == with_name(taken, name));
                assert(v.push(o) =~= v + seq![o]);
                assert(taken.push(o) =~= taken + seq![o]);
                Seq::filter_distributes_over_add(v, seq![o], p);
                Seq::filter_distributes_over_add(taken, seq![o], p);
            }
        }
    }
    assert(all.take(r@.len() as int) =~= all);
    r
}

/// The outputs to be controlled, in the order of their names: what is
/// configured and either detected or controllable as it is, and what else is
/// detected. `resolved` says of paths where they really lead.
pub fn merge(configured: Vec<Output>, detected: Vec<Output>, resolved: &Names<String>) -> (r: Vec<
    Output,
>)
    requires
        resolved.wf(),
    ensures
        sorted_by_name(
            output_views(r@),
            all_outputs(output_views(configured@), output_views(detected@), resolved@),
        ),
{
    let ghost wanted = output_views(configured@);
    let ghost found = output_views(detected@);
    let ghost known = resolved@;
    let mut rest = configured;
    let mut detected = detected;
    let mut done: Vec<Output> = Vec::new();
    let ghost mut n: nat = 0;
    proof {
        assert(output_views(done@) =~= Seq::empty());
        assert(wanted.skip(0) =~= wanted);
    }
    while rest.len() > 0
        invariant
            resolved.wf(),
            known == resolved@,
            n + rest@.len() == wanted.len(),
            output_views(rest@) =~= wanted.skip(n as int),
            (output_views(done@), output_views(detected@)) == combined(wanted, found, known, n),
        decreases rest.len(),
    {
        let ghost before = done@;
        let ghost free = detected@;
        let ghost waiting = rest@;
        let output = rest.remove(0);
        let ghost c = output@;
        proof {
            assert(output_views(waiting)[0] == wanted.skip(n as int)[0]);
            assert(c == wanted[n as int]);
            assert(output_views(rest@) =~= wanted.skip(n as int + 1)) by {
                assert forall|j: int| 0 <= j < rest@.len() implies output_views(rest@)[j]
                    == wanted.skip(n as int + 1)[j] by {
                    assert(output_views(waiting)[j + 1] == wanted.skip(n as int)[j + 1]);
                }
            }
        }
        match find_meant(&detected, &output, resolved) {
            Some(i) => {
                let other = detected.remove(i);
                assert(output_views(detected@) =~= output_views(free).remove(i as int));
                let result = apply_overrides(other, output);
                done.push(result);
                assert(output_views(done@) =~= output_views(before).push(result@));
            },
            None => {
                if has_brightness_path(&output) {
                    done.push(output);
                    assert(output_views(done@) =~= output_views(before).push(c));
                }
            },
        }
        proof {
            n = n + 1;
        }
    }
    let ghost first = done@;
    let ghost second = detected@;
    done.append(&mut detected);
    assert(output_views(done@) =~= output_views(first) + output_views(second));
    sort_outputs(done)
}

/// Where the first meant output stands.
proof fn lemma_meant(
    detected: Seq<OutputView>,
    c: OutputView,
    resolved: Map<Seq<char>, String>,
    from: int,
)
    requires
        0 <= from,
    ensures
        meant(detected, c, resolved, from) matches Some(i) ==> from <= i < detected.len() && means(
            c,
            detected[i],
            resolved,
        ),
        meant(detected, c, resolved, from) is None ==> forall|j: int|
            from <= j < detected.len() ==> !means(c, #[trigger] detected[j], resolved),
    decreases detected.len() - from,
{
    if from < detected.len() {
        lemma_meant(detected, c, resolved, from + 1);
    }
}

/// A detected output that no configured output means stays as it was detected.
pub proof fn undisputed_outputs_stay(
    configured: Seq<OutputView>,
    detected: Seq<OutputView>,
    resolved: Map<Seq<char>, String>,
    d: OutputView,
)
    requires
        detected.contains(d),
        forall|i: int| 0 <= i < configured.len() ==> !means(#[trigger] configured[i], d, resolved),
    ensures
        all_outputs(configured, detected, resolved).contains(d),
{
    lemma_undisputed(configured, detected, resolved, d, configured.len());
    let (done, left) = combined(configured, detected, resolved, configured.len());
    let i = choose|i: int| 0 <= i < left.len() && left[i] == d;
    assert((done + left)[done.len() + i] == d);
}

proof fn lemma_undisputed(
    configured: Seq<OutputView>,
    detected: Seq<OutputView>,
    resolved: Map<Seq<char>, String>,
    d: OutputView,
    n: nat,
)
    requires
        detected.contains(d),
        n <= configured.len(),
        forall|i: int| 0 <= i < configured.len() ==> !means(#[trigger] configured[i], d, resolved),
    ensures
        combined(configured, detected, resolved, n).1.contains(d),
    decreases n,
{
    if n > 0 {
        lemma_undisputed(configured, detected, resolved, d, (n - 1) as nat);
        let left = combined(configured, detected, resolved, (n - 1) as nat).1;
        let c = configured[n - 1];
        lemma_meant(left, c, resolved, 0);
        if let Some(i) = meant(left, c, resolved, 0) {
            let k = choose|k: int| 0 <= k < left.len() && left[k] == d;
            assert(k != i);
            let m = if k < i { k } else { k - 1 };
            assert(left.remove(i)[m] == d);
        }
    }
}

/// A configured output that is controllable as it is decides on the capturer,
/// the device and the predictor of an output.
pub proof fn configured_choices_apply(
    configured: Seq<OutputView>,
    detected: Seq<OutputView>,
    resolved: Map<Seq<char>, String>,
    k: int,
)
    requires
        0 <= k < configured.len(),
        is_controllable(configured[k]),
    ensures
        exists|i: int|
            0 <= i < all_outputs(configured, detected, resolved).len() && follows(
                #[trigger] all_outputs(configured, detected, resolved)[i],
                configured[k],
            ),
{
    lemma_applied(configured, detected, resolved, k, configured.len());
    let (done, left) = combined(configured, detected, resolved, configured.len());
    let i = choose|i: int| 0 <= i < done.len() && follows(#[trigger] done[i], configured[k]);
    assert((done + left)[i] == done[i]);
    assert(all_outputs(configured, detected, resolved)[i] == done[i]);
}

/// `o` has the capturer, the device and the predictor that `c` asks for.
pub open spec fn follows(o: OutputView, c: OutputView) -> bool {
    o.capturer() == c.capturer() && o.vulkan_device() == c.vulkan_device() && o.predictor()
        == c.predictor()
}

proof fn lemma_applied(
    configured: Seq<OutputView>,
    detected: Seq<OutputView>,
    resolved: Map<Seq<char>, String>,
    k: int,
    n: nat,
)
    requires
        0 <= k < n <= configured.len(),
        is_controllable(configured[k]),
    ensures
        exists|i: int|
            0 <= i < combined(configured, detected, resolved, n).0.len() && follows(
                #[trigger] combined(configured, detected, resolved, n).0[i],
                configured[k],
            ),
    decreases n,
{
    let before = combined(configured, detected, resolved, (n - 1) as nat).0;
    let after = combined(configured, detected, resolved, n).0;
    if k == n - 1 {
        assert(follows(after[before.len() as int], configured[k]));
    } else {
        lemma_applied(configured, detected, resolved, k, (n - 1) as nat);
        let i = choose|i: int| 0 <= i < before.len() && follows(#[trigger] before[i], configured[k]);
        assert(after[i] == before[i]);
    }
}

/// The order of the outputs is settled: what two orders agree on is everything.
pub proof fn order_is_settled(a: Seq<OutputView>, b: Seq<OutputView>, s: Seq<OutputView>)
    requires
        sorted_by_name(a, s),
        sorted_by_name(b, s),
    ensures
        a == b,
    decreases a.len(),
{
    if a.len() == 0 && b.len() == 0 {
        assert(a =~= b);
    } else {
        lemma_last_agrees(a, b, s);
        let o = a.last();
        let shorter_a = a.drop_last();
        let shorter_b = b.drop_last();
        assert forall|name: Seq<char>| #[trigger]
            with_name(shorter_a, name) == with_name(shorter_b, name) by {
            let p = |o: OutputView| o.name() == name;
            assert(a =~= shorter_a + seq![o]);
            assert(b =~= shorter_b + seq![o]);
            assert(with_name(a, name) == with_name(s, name));
            assert(with_name(b, name) == with_name(s, name));
            Seq::filter_distributes_over_add(shorter_a, seq![o], p);
            Seq::filter_distributes_over_add(shorter_b, seq![o], p);
            let x = shorter_a.filter(p);
            let y = shorter_b.filter(p);
            let z = seq![o].filter(p);
            assert(x + z == y + z);
            assert(x.len() == y.len());
            assert(x =~= (x + z).take(x.len() as int));
            assert(y =~= (y + z).take(y.len() as int));
        }
        assert(ordered(shorter_a)) by {
            assert forall|i: int, j: int| 0 <= i < j < shorter_a.len() implies !precedes(
                (#[trigger] shorter_a[j]).name(),
                (#[trigger] shorter_a[i]).name(),
            ) by {
                assert(shorter_a[i] == a[i] && shorter_a[j] == a[j]);
            }
        }
        assert(ordered(shorter_b)) by {
            assert forall|i: int, j: int| 0 <= i < j < shorter_b.len() implies !precedes(
                (#[trigger] shorter_b[j]).name(),
                (#[trigger] shorter_b[i]).name(),
            ) by {
                assert(shorter_b[i] == b[i] && shorter_b[j] == b[j]);
            }
        }
        assert(sorted_by_name(shorter_a, shorter_a));
        assert(sorted_by_name(shorter_b, shorter_a));
        order_is_settled(shorter_a, shorter_b, shorter_a);
        assert(a =~= shorter_a.push(o));
        assert(b =~= shorter_b.push(o));
    }
}

/// The last output of two orders of the same outputs is the same.
proof fn lemma_last_agrees(a: Seq<OutputView>, b: Seq<OutputView>, s: Seq<OutputView>)
    requires
        sorted_by_name(a, s),
        sorted_by_name(b, s),
        a.len() > 0 || b.len() > 0,
    ensures
        a.len() > 0,
        b.len() > 0,
        a.last() == b.last(),
{
    if a.len() > 0 {
        lemma_last_of_name(a);
        let name = a.last().name();
        assert(with_name(a, name) == with_name(s, name));
        assert(with_name(b, name) == with_name(s, name));
        lemma_named(b, name);
        assert(b.len() > 0);
    }
    lemma_last_of_name(b);
    let name = b.last().name();
    assert(with_name(a, name) == with_name(s, name));
    assert(with_name(b, name) == with_name(s, name));
    lemma_named(a, name);
    assert(a.len() > 0);
    lemma_last_of_name(a);
    let other = a.last().name();
    assert(with_name(a, other) == with_name(s, other));
    assert(with_name(b, other) == with_name(s, other));
    lemma_named(b, other);
    // Each of the two last names occurs in the other order too, so neither
    // stands before the other.
    let i = choose|i: int| 0 <= i < a.len() && (#[trigger] a[i]).name() == name;
    let j = choose|j: int| 0 <= j < b.len() && (#[trigger] b[j]).name() == other;
    if i < a.len() - 1 {
        assert(!precedes(a[a.len() - 1].name(), a[i].name()));
    }
    if j < b.len() - 1 {
        assert(!precedes(b[b.len() - 1].name(), b[j].name()));
    }
    lemma_irreflexive(name);
    lemma_total(name, other);
}

/// What the last output is among those with its name.
proof fn lemma_last_of_name(a: Seq<OutputView>)
    requires
        a.len() > 0,
    ensures
        with_name(a, a.last().name()).len() > 0,
        with_name(a, a.last().name()).last() == a.last(),
{
    reveal(Seq::filter);
}

/// A name that is found stands somewhere.
proof fn lemma_named(a: Seq<OutputView>, name: Seq<char>)
    ensures
        with_name(a, name).len() > 0 ==> exists|i: int|
            0 <= i < a.len() && (#[trigger] a[i]).name() == name,
    decreases a.len(),
{
    reveal(Seq::filter);
    if a.len() > 0 {
        let p = |o: OutputView| o.name() == name;
        if p(a.last()) {
            assert(a[a.len() - 1].name() == name);
        } else {
            lemma_named(a.drop_last(), name);
            if with_name(a, name).len() > 0 {
                let i = choose|i: int|
                    0 <= i < a.drop_last().len() && (#[trigger] a.drop_last()[i]).name() == name;
                assert(a[i].name() == name);
            }
        }
    }
}

/// Two EDIDs are those of one display exactly when both have a base block of 128 bytes and these are the
/// same.
pub proof fn base_blocks_tell_displays_apart(left: Seq<u8>, right: Seq<u8>)
    ensures
        edids_match(left, right) <==> left.len() >= 128 && right.len() >= 128 && forall|i: int|
            0 <= i < 128 ==> #[trigger] left[i] == right[i],
{
    if edids_match(left, right) {
        assert forall|i: int| 0 <= i < 128 implies #[trigger] left[i] == right[i] by {
            assert(left.take(128)[i] == right.take(128)[i]);
        }
    } else if left.len() >= 128 && right.len() >= 128 && forall|i: int|
        0 <= i < 128 ==> #[trigger] left[i] == right[i] {
        assert(left.take(128) =~= right.take(128));
    }
}

/// A display is told apart by what it gives first: its serial number as text, as a number, its model,
/// or who made it. What is empty is not given.
pub proof fn first_given_tells_a_display(d: Display)
    ensures
        d.serial_number matches Some(text) ==> text@.len() > 0 ==> identifier_of(d) == Some(text@),
        !(d.serial_number matches Some(text) && text@.len() > 0) ==> {
            &&& d.serial matches Some(n) ==> identifier_of(d) == Some("0x"@ + hex_of(n as nat, 8))
            &&& d.serial is None ==> {
                &&& d.model_name matches Some(text) ==> text@.len() > 0 ==> identifier_of(d) == Some(
                    text@,
                )
                &&& !(d.model_name matches Some(text) && text@.len() > 0) ==> {
                    &&& d.manufacturer_id matches Some(text) ==> text@.len() > 0 ==> identifier_of(d)
                        == Some(text@)
                    &&& !(d.manufacturer_id matches Some(text) && text@.len() > 0)
                        ==> identifier_of(d) is None
                }
            }
        },
{
}

/// Each display that is told apart by an identifier is counted once.
pub proof fn displays_are_counted_once(displays: Seq<Display>, d: Display, identifier: Seq<char>)
    ensures
        identifier_count(Seq::empty(), identifier) == 0,
        identifier_of(d) == Some(identifier) ==> identifier_count(displays.push(d), identifier)
            == identifier_count(displays, identifier) + 1,
        identifier_of(d) != Some(identifier) ==> identifier_count(displays.push(d), identifier)
            == identifier_count(displays, identifier),
{
    assert(displays.push(d).drop_last() =~= displays);
}

/// A backlight may belong to a connector exactly when it names the connector or has the EDID of what is
/// connected to it.
pub proof fn backlight_fits_by_name_or_edid(b: Backlight, c: Connector)
    ensures
        b.connector matches Some(name) ==> name@ == c.name@ ==> fits(b, c),
        edids_match(b.edid@, c.edid@) ==> fits(b, c),
        fits(b, c) ==> edids_match(b.edid@, c.edid@) || (b.connector is Some && b.connector->0@
            == c.name@),
{
}

/// The display that is found has the EDID and is the first one that has it; none is found only where
/// none has it.
pub proof fn first_display_is_found(displays: Seq<Display>, edid: Seq<u8>, from: int)
    requires
        0 <= from <= displays.len(),
    ensures
        display_with(displays, edid, from) matches Some(i) ==> from <= i < displays.len()
            && displays[i].edid is Some && edids_match(displays[i].edid->0@, edid) && forall|j: int|
            from <= j < i ==> (#[trigger] displays[j]).edid is None || !edids_match(
                displays[j].edid->0@,
                edid,
            ),
        display_with(displays, edid, from) is None ==> forall|j: int|
            from <= j < displays.len() ==> (#[trigger] displays[j]).edid is None || !edids_match(
                displays[j].edid->0@,
                edid,
            ),
    decreases displays.len() - from,
{
    if from < displays.len() {
        first_display_is_found(displays, edid, from + 1);
    }
}

/// A panel and a monitor are captured automatically, are never dark, and learn; a panel grows brighter
/// with the light around it.
pub proof fn detected_outputs_have_defaults(name: Seq<char>, how: Seq<char>)
    ensures
        panel(name, how) matches OutputView::Backlight(v) && {
            &&& v.name == name
            &&& v.path == how
            &&& v.capturer is Auto
            &&& v.vulkan_device is None
            &&& v.min_brightness == 1
            &&& v.predictor is None
            &&& v.als_direction is Increasing
            &&& v.kind is Display
        },
        monitor(name, how) matches OutputView::DdcUtil(v) && {
            &&& v.name == name
            &&& v.identifier == how
            &&& !v.identifier_overridden
            &&& v.capturer is Auto
            &&& v.vulkan_device is None
            &&& v.min_brightness == 1
            &&& v.predictor is None
        },
        keyboard(name, how) matches OutputView::Backlight(v) && {
            &&& v.name == name
            &&& v.path == how
            &&& v.capturer is Off
            &&& v.vulkan_device is None
            &&& v.min_brightness == 0
            &&& v.predictor is None
            &&& v.als_direction is Decreasing
            &&& v.kind is Keyboard
        },
{
}

/// A connector with a backlight that fits makes an output of it, under its own name, and nobody else
/// gets this backlight. Displays stay free.
pub proof fn connector_takes_a_backlight_first(
    p: Progress,
    c: Connector,
    backlights: Seq<Backlight>,
    displays: Seq<Display>,
)
    requires
        p.used.len() == backlights.len(),
    ensures
        ({
            let after = assigned(p, c, backlights, displays);
            match chosen_backlight(backlights, p.used, c, backlights.len()) {
                Some(i) => {
                    &&& after.outputs.len() == p.outputs.len() + 1
                    &&& after.outputs.take(p.outputs.len() as int) == p.outputs
                    &&& after.outputs.last() == panel(c.name@, backlights[i].path@)
                    &&& after.displays == p.displays
                    &&& after.used[i]
                    &&& forall|j: int|
                        0 <= j < p.used.len() && j != i ==> #[trigger] after.used[j] == p.used[j]
                },
                None => after.used == p.used,
            }
        }),
{
    chosen_backlight_is_best(backlights, p.used, c, backlights.len());
    let after = assigned(p, c, backlights, displays);
    if chosen_backlight(backlights, p.used, c, backlights.len()) is Some {
        assert(after.outputs.take(p.outputs.len() as int) =~= p.outputs);
    }
}

/// A connector without a backlight takes the first free display with its EDID, and makes an output of it
/// under its own name where no other display is told apart alike.
pub proof fn connector_takes_a_display_otherwise(
    p: Progress,
    c: Connector,
    backlights: Seq<Backlight>,
    displays: Seq<Display>,
)
    requires
        chosen_backlight(backlights, p.used, c, backlights.len()) is None,
    ensures
        ({
            let after = assigned(p, c, backlights, displays);
            match display_with(p.displays, c.edid@, 0) {
                Some(i) => {
                    let found = identifier_of(p.displays[i]);
                    let alone = found is Some && identifier_count(displays, found->0) == 1;
                    &&& alone ==> after.outputs == p.outputs.push(monitor(c.name@, found->0))
                    &&& !alone ==> after.outputs == p.outputs
                    &&& after.displays.len() == p.displays.len() - 1
                    &&& forall|j: int|
                        0 <= j < after.displays.len() && j != i ==> #[trigger] after.displays[j]
                            == p.displays[j]
                    &&& i < after.displays.len() ==> after.displays[i] == p.displays.last()
                },
                None => after.outputs == p.outputs && after.displays == p.displays,
            }
        }),
{
    first_display_is_found(p.displays, c.edid@, 0);
}

/// Connectors are served one after the other: at first nothing is used, and each one goes by what those
/// before it have left.
pub proof fn connectors_are_served_in_order(
    connectors: Seq<Connector>,
    backlights: Seq<Backlight>,
    displays: Seq<Display>,
    n: nat,
)
    ensures
        ({
            let first = assigned_all(connectors, backlights, displays, 0);
            &&& first.outputs.len() == 0
            &&& first.displays == displays
            &&& first.used.len() == backlights.len()
            &&& forall|i: int| 0 <= i < backlights.len() ==> !#[trigger] first.used[i]
        }),
        assigned_all(connectors, backlights, displays, (n + 1) as nat) == assigned(
            assigned_all(connectors, backlights, displays, n),
            connectors[n as int],
            backlights,
            displays,
        ),
{
}

/// A connector is one to which something is connected, and whose directory is named after a card, a dash
/// and the connector.
pub proof fn connector_is_named_by_its_directory(
    entry: ConnectorEntry,
    card: Seq<char>,
    name: Seq<char>,
)
    requires
        begins_with(card, "card"@),
        !card.contains('-'),
        file_name_of(entry.path@) == Some(card + seq!['-'] + name),
    ensures
        connector_name(entry) is Some <==> entry.status is Some && trimmed(entry.status->0@)
            == "connected"@,
        connector_name(entry) matches Some(n) ==> n == name,
{
    let whole = card + seq!['-'] + name;
    first_place_is_found(whole, '-');
    assert(whole[card.len() as int] == '-');
    let n = first_index(whole, '-') as int;
    if n < card.len() {
        assert(whole[n] == card[n]);
    }
    assert(n == card.len());
    assert(whole.skip(n + 1) =~= name);
    assert(whole.take("card"@.len() as int) =~= card.take("card"@.len() as int));
}

/// What is no directory of a card, and what nothing is connected to, is no connector.
pub proof fn other_directories_are_no_connectors(entry: ConnectorEntry)
    ensures
        entry.status is None ==> connector_name(entry) is None,
        file_name_of(entry.path@) is None ==> connector_name(entry) is None,
        file_name_of(entry.path@) matches Some(name) ==> !begins_with(name, "card"@) || !name.contains(
            '-',
        ) ==> connector_name(entry) is None,
{
    if let Some(name) = file_name_of(entry.path@) {
        first_place_is_found(name, '-');
        if first_index(name, '-') < name.len() {
            assert(name.contains(name[first_index(name, '-') as int]));
        }
    }
}

/// Each directory is judged on its own, and connectors keep the order of their directories.
pub proof fn directories_are_judged_one_by_one(entries: Seq<ConnectorEntry>, entry: ConnectorEntry)
    ensures
        connected(Seq::empty()) == Seq::<ConnectorEntry>::empty(),
        connector_name(entry) is Some ==> connected(entries.push(entry)) == connected(entries).push(
            entry,
        ),
        connector_name(entry) is None ==> connected(entries.push(entry)) == connected(entries),
{
    assert(entries.push(entry).drop_last() =~= entries);
}

/// A connector is where its directory really is, with the EDID that this holds.
pub proof fn connector_is_where_its_directory_is(c: Connector, entry: ConnectorEntry)
    ensures
        is_connector_of(c, entry) <==> connector_name(entry) == Some(c.name@) && c.path@
            == entry.canonical@ && c.edid@ == entry.edid@,
{
}

/// A raw backlight is preferred to one of the platform, that to one of the firmware, and that to any
/// other.
pub proof fn raw_backlights_are_preferred(kind: Seq<char>)
    ensures
        trimmed(kind) == "raw"@ ==> rank_of(Some(kind)) == 3,
        trimmed(kind) == "platform"@ ==> rank_of(Some(kind)) == 2,
        trimmed(kind) == "firmware"@ ==> rank_of(Some(kind)) == 1,
        trimmed(kind) != "raw"@ && trimmed(kind) != "platform"@ && trimmed(kind) != "firmware"@
            ==> rank_of(Some(kind)) == 0,
        rank_of(None) == 0,
{
    reveal_strlit("raw");
    reveal_strlit("platform");
    reveal_strlit("firmware");
    assert("raw"@.len() == 3 && "platform"@[0] == 'p' && "firmware"@[0] == 'f');
}

/// What lies at or below the path of a connector belongs to it; of several the first one counts.
pub proof fn first_connector_above_counts(canonical: Seq<char>, connectors: Seq<Connector>)
    ensures
        connector_above(canonical, connectors) is None <==> forall|i: int|
            0 <= i < connectors.len() ==> !components_of(
                (#[trigger] connectors[i]).path@,
            ).is_prefix_of(components_of(canonical)),
        connector_above(canonical, connectors) matches Some(name) ==> exists|i: int|
            0 <= i < connectors.len() && (#[trigger] connectors[i]).name@ == name && components_of(
                connectors[i].path@,
            ).is_prefix_of(components_of(canonical)) && forall|j: int|
                0 <= j < i ==> !components_of((#[trigger] connectors[j]).path@).is_prefix_of(
                    components_of(canonical),
                ),
    decreases connectors.len(),
{
    if connectors.len() > 0 {
        let rest = connectors.drop_first();
        first_connector_above_counts(canonical, rest);
        if lies_at(canonical, connectors[0]) {
            assert(connectors[0].name@ == connector_above(canonical, connectors)->0);
        } else if let Some(name) = connector_above(canonical, connectors) {
            let i = choose|i: int|
                0 <= i < rest.len() && (#[trigger] rest[i]).name@ == name && components_of(
                    rest[i].path@,
                ).is_prefix_of(components_of(canonical)) && forall|j: int|
                    0 <= j < i ==> !components_of((#[trigger] rest[j]).path@).is_prefix_of(
                        components_of(canonical),
                    );
            assert(connectors[i + 1] == rest[i]);
            assert forall|j: int| 0 <= j < i + 1 implies !components_of(
                (#[trigger] connectors[j]).path@,
            ).is_prefix_of(components_of(canonical)) by {
                if j > 0 {
                    assert(connectors[j] == rest[j - 1]);
                }
            }
            assert(connectors[i + 1].name@ == name);
        } else {
            assert forall|i: int| 0 <= i < connectors.len() implies !components_of(
                (#[trigger] connectors[i]).path@,
            ).is_prefix_of(components_of(canonical)) by {
                if i > 0 {
                    assert(connectors[i] == rest[i - 1]);
                }
            }
        }
    }
}

/// A backlight is told by its directory: its path, its EDID, what it belongs to, and its kind.
pub proof fn backlight_is_told_by_its_directory(
    b: Backlight,
    entry: BacklightEntry,
    connectors: Seq<Connector>,
)
    requires
        is_backlight_of(b, entry, connectors),
    ensures
        b.path@ == entry.path@,
        b.edid@ == entry.edid@,
        b.connector is Some <==> connector_above(entry.canonical@, connectors) is Some,
        b.connector matches Some(name) ==> connector_above(entry.canonical@, connectors) == Some(
            name@,
        ),
        entry.kind matches Some(kind) ==> b.rank == rank_of(Some(kind@)),
        entry.kind is None ==> b.rank == 0,
{
}

/// A light is that of a keyboard exactly when its name says so, in letters of either case, and its
/// brightness can be read and set.
pub proof fn keyboard_light_says_so(entry: LedEntry)
    ensures
        is_keyboard_light(entry) ==> entry.has_brightness && entry.has_max_brightness
            && file_name_of(entry.path@) is Some,
        file_name_of(entry.path@) matches Some(name) ==> (is_keyboard_light(entry)
            <==> entry.has_brightness && entry.has_max_brightness && holds(
            name.map_values(|c: char| lower(c)),
            "kbd_backlight"@,
        )),
{
}

/// Each light of a keyboard is an output under the name of its directory, in the order in which the
/// lights stand.
pub proof fn each_keyboard_is_an_output(entries: Seq<LedEntry>, n: nat)
    requires
        n < entries.len(),
    ensures
        keyboard_outputs(entries, 0).len() == 0,
        is_keyboard_light(entries[n as int]) ==> keyboard_outputs(entries, (n + 1) as nat)
            == keyboard_outputs(entries, n).push(
            keyboard(file_name_of(entries[n as int].path@)->0, entries[n as int].path@),
        ),
        !is_keyboard_light(entries[n as int]) ==> keyboard_outputs(entries, (n + 1) as nat)
            == keyboard_outputs(entries, n),
{
}

/// A configured output means a detected one exactly when they have the same name, or are backlights
/// whose paths lead to the same place.
pub proof fn outputs_are_meant_by_name_or_path(
    c: OutputView,
    d: OutputView,
    resolved: Map<Seq<char>, String>,
)
    ensures
        c.name() == d.name() ==> means(c, d, resolved),
        c.name() != d.name() && (c is DdcUtil || d is DdcUtil) ==> !means(c, d, resolved),
        c.name() != d.name() ==> (c matches OutputView::Backlight(a) ==> (d matches OutputView::Backlight(
            b,
        ) ==> (means(c, d, resolved) <==> a.path.len() > 0 && b.path.len() > 0 && components_of(
            if resolved.contains_key(a.path) {
                resolved[a.path]@
            } else {
                a.path
            },
        ) == components_of(
            if resolved.contains_key(b.path) {
                resolved[b.path]@
            } else {
                b.path
            },
        )))),
{
}

/// What is configured decides on the capturer, the device and the predictor. What is detected decides
/// on how the output is controlled, unless the configuration of the same kind says so, and on all else.
pub proof fn configuration_overrides_detection(d: OutputView, c: OutputView)
    ensures
        overridden(d, c).capturer() == c.capturer(),
        overridden(d, c).vulkan_device() == c.vulkan_device(),
        overridden(d, c).predictor() == c.predictor(),
        overridden(d, c) is Backlight <==> d is Backlight,
        (d is Backlight <==> c is Backlight) ==> overridden(d, c).name() == c.name(),
        !(d is Backlight <==> c is Backlight) ==> overridden(d, c).name() == d.name(),
        d matches OutputView::Backlight(b) ==> overridden(d, c) matches OutputView::Backlight(v) && {
            &&& v.min_brightness == b.min_brightness
            &&& v.als_direction == b.als_direction
            &&& v.kind == b.kind
            &&& c is DdcUtil ==> v.path == b.path
            &&& c matches OutputView::Backlight(w) ==> v.path == if w.path.len() > 0 {
                w.path
            } else {
                b.path
            }
        },
        d matches OutputView::DdcUtil(b) ==> overridden(d, c) matches OutputView::DdcUtil(v) && {
            &&& v.min_brightness == b.min_brightness
            &&& c is Backlight ==> v.identifier == b.identifier && v.identifier_overridden
                == b.identifier_overridden
            &&& c matches OutputView::DdcUtil(w) ==> v.identifier == (if w.identifier_overridden {
                w.identifier
            } else {
                b.identifier
            }) && v.identifier_overridden == (w.identifier_overridden || b.identifier_overridden)
        },
{
}

/// Only a backlight without a path cannot be controlled as it is configured.
pub proof fn backlight_needs_a_path(o: OutputView)
    ensures
        is_controllable(o) <==> !(o matches OutputView::Backlight(b) && b.path.len() == 0),
{
}

/// The detected output that is meant is the first one that is; none is only where none is.
pub proof fn first_meant_output_counts(
    detected: Seq<OutputView>,
    c: OutputView,
    resolved: Map<Seq<char>, String>,
    from: int,
)
    requires
        0 <= from <= detected.len(),
    ensures
        meant(detected, c, resolved, from) matches Some(i) ==> from <= i < detected.len() && means(
            c,
            detected[i],
            resolved,
        ) && forall|j: int| from <= j < i ==> !means(c, #[trigger] detected[j], resolved),
        meant(detected, c, resolved, from) is None ==> forall|j: int|
            from <= j < detected.len() ==> !means(c, #[trigger] detected[j], resolved),
    decreases detected.len() - from,
{
    if from < detected.len() {
        first_meant_output_counts(detected, c, resolved, from + 1);
    }
}

/// Configured outputs are served in their order. Each takes the detected output that it means, which is
/// then no longer free; without one it stays where it can be controlled as it is, and is left out
/// otherwise. What is still free at the end is added as it was detected.
pub proof fn configured_outputs_are_served_in_order(
    configured: Seq<OutputView>,
    detected: Seq<OutputView>,
    resolved: Map<Seq<char>, String>,
    n: nat,
)
    ensures
        combined(configured, detected, resolved, 0).0.len() == 0,
        combined(configured, detected, resolved, 0).1 == detected,
        ({
            let (done, left) = combined(configured, detected, resolved, n);
            let (after, free) = combined(configured, detected, resolved, (n + 1) as nat);
            let c = configured[n as int];
            let found = meant(left, c, resolved, 0);
            &&& found matches Some(i) ==> after == done.push(overridden(left[i], c)) && free
                == left.remove(i)
            &&& found is None && is_controllable(c) ==> after == done.push(c) && free == left
            &&& found is None && !is_controllable(c) ==> after == done && free == left
        }),
        all_outputs(configured, detected, resolved) == combined(
            configured,
            detected,
            resolved,
            configured.len(),
        ).0 + combined(configured, detected, resolved, configured.len()).1,
{
}

/// Outputs in the order of their names are the same outputs, and those with the same name keep their
/// order.
pub proof fn sorting_keeps_the_outputs(r: Seq<OutputView>, s: Seq<OutputView>, o: OutputView)
    requires
        sorted_by_name(r, s),
    ensures
        r.contains(o) <==> s.contains(o),
        forall|i: int, j: int|
            0 <= i < j < r.len() ==> !precedes((#[trigger] r[j]).name(), (#[trigger] r[i]).name()),
        r.filter(|x: OutputView| x.name() == o.name()) == s.filter(
            |x: OutputView| x.name() == o.name(),
        ),
{
    let name = o.name();
    let p = |x: OutputView| x.name() == name;
    assert(with_name(r, name) == with_name(s, name));
    assert(r.filter(p) == s.filter(p));
    lemma_filter_holds(r, p, o);
    lemma_filter_holds(s, p, o);
    let q = |x: OutputView| x.name() == o.name();
    assert(p =~= q);
}

/// What is wanted is left where it was there.
proof fn lemma_filter_holds(s: Seq<OutputView>, p: spec_fn(OutputView) -> bool, o: OutputView)
    ensures
        s.filter(p).contains(o) <==> s.contains(o) && p(o),
    decreases s.len(),
{
    reveal(Seq::filter);
    if s.len() > 0 {
        let shorter = s.drop_last();
        lemma_filter_holds(shorter, p, o);
        let before = shorter.filter(p);
        if s.contains(o) && o != s.last() {
            let i = choose|i: int| 0 <= i < s.len() && s[i] == o;
            assert(shorter[i] == o);
        }
        if shorter.contains(o) {
            let i = choose|i: int| 0 <= i < shorter.len() && shorter[i] == o;
            assert(s[i] == o);
        }
        assert(s[s.len() - 1] == s.last());
        if p(s.last()) {
            let after = before.push(s.last());
            assert(s.filter(p) == after);
            if before.contains(o) {
                let i = choose|i: int| 0 <= i < before.len() && before[i] == o;
                assert(after[i] == o);
            }
            if after.contains(o) && o != s.last() {
                let i = choose|i: int| 0 <= i < after.len() && after[i] == o;
                assert(before[i] == o);
            }
            assert(after[before.len() as int] == s.last());
        }
    }
}

} // verus!

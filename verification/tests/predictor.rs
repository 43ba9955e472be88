use serde_yaml::{Mapping, Value};
use wluma::als::Scale;
use wluma::maps::levels::Levels;
use wluma::predictor::controller::manual::{
    brightness_reduction, Controller, NotExact, Reduced, EXACT_LIMIT,
};
use wluma::predictor::controller::{adaptive, consult, Choice, Closeness, Cooldown, PENDING_COOLDOWN};
use wluma::predictor::data::{
    bucket, file_name, save_step, temporary_name, Bucket, Data, Entry, LegacyEntryV1, SaveStep,
    StoredAls, StoredData, StoredEntry,
};

const ALS_DISTANT: u64 = 200;
const ALS_DIM: u64 = 20;
const NOW: u128 = 1_000_000_000_000;

fn thresholds(entries: &[(u64, &str)]) -> Levels<String> {
    let mut levels = Levels::new();
    for (value, name) in entries {
        levels.insert(*value, name.to_string());
    }
    levels
}

fn legacy(value: &Value) -> LegacyEntryV1 {
    LegacyEntryV1 {
        lux: value["lux"].as_str().unwrap().to_string(),
        luma: value["luma"].as_u64().unwrap() as u8,
        brightness: value["brightness"].as_u64().unwrap(),
    }
}

fn read_yaml(yaml: &str) -> StoredData {
    let value: Value = serde_yaml::from_str(yaml).unwrap();
    StoredData {
        output_name: value["output_name"].as_str().unwrap().to_string(),
        entries: value["entries"]
            .as_sequence()
            .unwrap()
            .iter()
            .map(|entry| {
                let als = entry.get("als").or_else(|| entry.get("lux")).unwrap();
                StoredEntry {
                    als: match als.as_u64() {
                        Some(value) => StoredAls::Value(value),
                        None => StoredAls::Profile(als.as_str().unwrap().to_string()),
                    },
                    luma: entry["luma"].as_u64().unwrap() as u8,
                    brightness: entry["brightness"].as_u64().unwrap(),
                }
            })
            .collect(),
        legacy_entries_v1: value
            .get("legacy_entries_v1")
            .and_then(Value::as_sequence)
            .map(|entries| entries.iter().map(legacy).collect()),
    }
}

fn mapping(entries: Vec<(&str, Value)>) -> Value {
    let mut mapping = Mapping::new();
    for (key, value) in entries {
        mapping.insert(Value::from(key), value);
    }
    Value::Mapping(mapping)
}

fn write_yaml(data: &Data) -> String {
    let entries: Vec<Value> = data
        .entries
        .iter()
        .map(|entry| {
            mapping(vec![
                ("als", Value::from(entry.als)),
                ("luma", Value::from(entry.luma)),
                ("brightness", Value::from(entry.brightness)),
            ])
        })
        .collect();
    let mut fields = vec![
        ("output_name", Value::from(data.output_name.as_str())),
        ("entries", Value::from(entries)),
    ];
    if let Some(legacy) = &data.legacy_entries_v1 {
        let legacy: Vec<Value> = legacy
            .iter()
            .map(|entry| {
                mapping(vec![
                    ("lux", Value::from(entry.lux.as_str())),
                    ("luma", Value::from(entry.luma)),
                    ("brightness", Value::from(entry.brightness)),
                ])
            })
            .collect();
        fields.push(("legacy_entries_v1", Value::from(legacy)));
    }
    serde_yaml::to_string(&mapping(fields)).unwrap()
}

fn linear_middle(bucket: Option<Bucket>) -> u64 {
    let (lower, upper) = match bucket {
        Some(Bucket::Between { lower, upper }) => (lower as f64, upper as f64),
        Some(Bucket::Above { lower, previous }) => {
            (lower as f64, lower as f64 + lower as f64 - previous as f64)
        }
        Some(Bucket::Alone { lower }) => (lower as f64, lower as f64),
        Some(Bucket::Dark) | None => (0.0, 0.0),
    };
    ((lower + upper) / 2.0).round().clamp(0.0, 100.0) as u64
}

fn migrate_first(yaml: &str, levels: &Levels<String>) -> (Option<Entry>, Option<LegacyEntryV1>) {
    let stored = read_yaml(yaml);
    let entry = &stored.entries[0];
    entry.migrate(levels, linear_middle(entry.bucket(levels)))
}

fn restore(stored: StoredData, levels: &Levels<String>) -> (Data, bool) {
    let middles = stored
        .entries
        .iter()
        .map(|entry| linear_middle(entry.bucket(levels)))
        .collect();
    Data::from_stored("panel", stored, levels, &middles)
}

fn assert_legacy(expected: &str, legacy: &LegacyEntryV1) {
    assert_eq!(
        (expected, 20, 30),
        (legacy.lux.as_str(), legacy.luma, legacy.brightness)
    );
}

#[test]
fn migrates_profile_to_bucket_midpoint() {
    let (entry, legacy) = migrate_first(
        "output_name: panel\nentries:\n  - lux: dark\n    luma: 20\n    brightness: 30\n",
        &thresholds(&[(10, "dark"), (20, "dark")]),
    );
    assert_eq!(Some(Entry::new(15, 20, 30)), entry);
    assert_legacy("dark", &legacy.unwrap());
}

#[test]
fn accepts_numeric_als() {
    let (entry, legacy) = migrate_first(
        "output_name: panel\nentries:\n  - als: 42\n    luma: 20\n    brightness: 30\n",
        &Levels::new(),
    );
    assert_eq!(Some(Entry::new(42, 20, 30)), entry);
    assert!(legacy.is_none());
}

#[test]
fn drops_unknown_profiles_as_migrated() {
    let (entry, legacy) = migrate_first(
        "output_name: panel\nentries:\n  - lux: unknown\n    luma: 20\n    brightness: 30\n",
        &Levels::new(),
    );
    assert_eq!(None, entry);
    assert_legacy("unknown", &legacy.unwrap());
}

#[test]
fn keeps_linear_migration_in_native_domain() {
    let (entry, _) = migrate_first(
        "output_name: panel\nentries:\n  - lux: bright\n    luma: 20\n    brightness: 30\n",
        &thresholds(&[(80, "bright"), (20, "dim")]),
    );
    assert_eq!(Some(Entry::new(100, 20, 30)), entry);
}

#[test]
fn the_name_none_means_darkness() {
    let (entry, legacy) = migrate_first(
        "output_name: panel\nentries:\n  - lux: none\n    luma: 20\n    brightness: 30\n",
        &thresholds(&[(80, "bright")]),
    );
    assert_eq!(Some(Entry::new(0, 20, 30)), entry);
    assert_legacy("none", &legacy.unwrap());
}

#[test]
fn names_stand_for_levels() {
    let levels = thresholds(&[(10, "a"), (20, "b"), (50, "c")]);
    assert_eq!(Some(Bucket::Between { lower: 10, upper: 20 }), bucket(&levels, "a"));
    assert_eq!(Some(Bucket::Above { lower: 50, previous: 20 }), bucket(&levels, "c"));
    assert_eq!(
        Some(Bucket::Alone { lower: 7 }),
        bucket(&thresholds(&[(7, "x")]), "x")
    );
    assert_eq!(Some(Bucket::Dark), bucket(&levels, "none"));
    assert_eq!(None, bucket(&levels, "d"));
}

#[test]
fn preserves_legacy_entries_across_reloads() {
    let levels = thresholds(&[(10, "dark"), (20, "bright")]);
    let stored =
        read_yaml("output_name: panel\nentries:\n  - lux: dark\n    luma: 20\n    brightness: 30\n");

    let (migrated, was_migrated) = restore(stored, &levels);
    assert!(was_migrated);
    assert_eq!(vec![Entry::new(15, 20, 30)], migrated.entries);

    let (reloaded, was_migrated) = restore(read_yaml(&write_yaml(&migrated)), &levels);
    assert!(!was_migrated);
    assert_eq!(migrated.output_name, reloaded.output_name);
    assert_eq!(migrated.entries, reloaded.entries);
    let (before, after) = (
        migrated.legacy_entries_v1.unwrap(),
        reloaded.legacy_entries_v1.unwrap(),
    );
    assert_eq!((1, 1), (before.len(), after.len()));
    assert_legacy("dark", &before[0]);
    assert_legacy("dark", &after[0]);
}

#[test]
fn omits_legacy_field_for_new_data() {
    let yaml = write_yaml(&Data::new("panel"));
    assert!(!yaml.contains("legacy_entries_v1"));
}

#[test]
fn old_entries_are_kept_behind_older_ones() {
    let (data, migrated) = restore(
        read_yaml(
            "output_name: other\nentries:\n  - als: 1\n    luma: 2\n    brightness: 3\n  - lux: b\n    luma: 20\n    brightness: 30\nlegacy_entries_v1:\n  - lux: a\n    luma: 20\n    brightness: 30\n",
        ),
        &Levels::new(),
    );
    assert!(migrated);
    assert_eq!("panel", data.output_name);
    assert_eq!(vec![Entry::new(1, 2, 3)], data.entries);
    let legacy = data.legacy_entries_v1.unwrap();
    assert_eq!(2, legacy.len());
    assert_legacy("a", &legacy[0]);
    assert_legacy("b", &legacy[1]);
}

#[test]
fn files_are_named_after_outputs() {
    assert_eq!("eDP-1.yaml", file_name("eDP-1"));
    assert_eq!(".eDP-1.yaml.42.tmp", temporary_name("eDP-1.yaml", 42));
}

fn distance(als: u64, luma: u8, entry: &Entry) -> f64 {
    let als = als as f64 / 20.0 - entry.als as f64 / 20.0;
    let luma = (luma as f64 - entry.luma as f64) / 20.0;
    als.hypot(luma)
}

fn interpolate(entries: &Vec<Entry>, als: u64, luma: u8) -> Option<u64> {
    let distances: Vec<f64> = entries
        .iter()
        .map(|entry| distance(als, luma, entry))
        .collect();
    let closeness = distances
        .iter()
        .map(|distance| {
            if *distance == 0.0 {
                Closeness::Same
            } else if *distance <= 5.0 {
                Closeness::Near
            } else {
                Closeness::Far
            }
        })
        .collect();
    match consult(entries, &closeness) {
        Choice::Known(brightness) => Some(brightness),
        Choice::Unknown => None,
        Choice::Between(places) => {
            let total: f64 = places.iter().map(|place| 1.0 / distances[*place]).sum();
            let prediction: f64 = places
                .iter()
                .map(|place| entries[*place].brightness as f64 / distances[*place] / total)
                .sum();
            Some(prediction as u64)
        }
    }
}

fn controller() -> Controller {
    let points = vec![
        Entry::new(ALS_DIM, 0, 0),
        Entry::new(ALS_DIM, 50, 30),
        Entry::new(ALS_DIM, 100, 60),
    ];
    Controller::new(points, "eDP-1", Scale::Linear)
}

fn get_brightness_reduction(controller: &Controller, brightness: u64, als: u64, luma: u8) -> u64 {
    brightness_reduction(brightness, interpolate(&controller.points, als, luma)).unwrap()
}

#[test]
fn test_get_brightness_reduction() {
    let controller = controller();

    for (luma, expected) in [
        (0, 0),
        (10, 10),
        (20, 18),
        (30, 24),
        (40, 28),
        (50, 30),
        (60, 31),
        (70, 35),
        (80, 41),
        (90, 49),
        (100, 60),
    ] {
        assert_eq!(
            get_brightness_reduction(&controller, 100, ALS_DIM, luma),
            expected
        );
    }
}

#[test]
fn test_no_brightness_reduction_for_distant_als() {
    let controller = controller();

    for luma in [0, 10, 20, 30, 40, 50, 60, 70, 80, 90, 100] {
        assert_eq!(get_brightness_reduction(&controller, 100, ALS_DISTANT, luma), 0);
    }
}

fn process(
    controller: &mut Controller,
    first: Option<u64>,
    received: Option<u64>,
    luma: u8,
    now: u128,
) -> Option<u64> {
    let initial = first.map(|brightness| Reduced {
        brightness,
        reduction: get_brightness_reduction(controller, brightness, ALS_DIM, luma),
    });
    let current = controller.current(initial, received).unwrap();
    let reduction = get_brightness_reduction(controller, current, ALS_DIM, luma);
    controller.adjust(initial, received, reduction, now)
}

#[test]
fn test_change_in_luma() {
    let mut controller = controller();
    assert!(controller.needs_brightness());
    assert_eq!(Some(100), process(&mut controller, Some(100), None, 50, NOW));
    assert!(!controller.needs_brightness());
    assert_eq!(Some(120), process(&mut controller, None, None, 10, NOW));
    assert_eq!(Some(89), process(&mut controller, None, None, 80, NOW));
}

#[test]
fn test_change_in_brightness_by_user() {
    let mut controller = controller();

    // Initial brightness is used to predict right away
    assert_eq!(Some(100), process(&mut controller, Some(100), None, 50, NOW));

    // Consequent user change causes prediction only after cooldown
    assert_eq!(None, process(&mut controller, None, Some(123), 0, NOW));
    assert!(controller.pending_cooldown.is_active(NOW));

    // User doesn't change brightness anymore, so even if ALS or luma change, we are in cooldown period
    assert_eq!(None, process(&mut controller, None, None, 10, NOW));
    assert!(controller.pending_cooldown.is_active(NOW));

    // One final call will generate the actual prediction
    controller.pending_cooldown.finish(NOW);
    assert_eq!(Some(87), process(&mut controller, None, None, 50, NOW));
    assert!(!controller.pending_cooldown.is_active(NOW));
}

#[test]
fn integer_reductions_agree_with_doubles() {
    for brightness in [0, 1, 7, 99, 100, 4095, 19393, 90_071_992_547_409] {
        for percent in [0, 1, 3, 29, 50, 57, 58, 99, 100] {
            let expected = (brightness as f64 * percent as f64 / 100.0) as u64;
            assert_eq!(Some(expected), brightness_reduction(brightness, Some(percent)));
        }
    }
    assert_eq!(Some(0), brightness_reduction(u64::MAX, None));
    assert_eq!(None, brightness_reduction(u64::MAX, Some(1)));
    assert!(brightness_reduction(EXACT_LIMIT as u64, Some(1)).is_some());
    assert!(brightness_reduction(EXACT_LIMIT as u64 + 1, Some(1)).is_none());
}

#[test]
fn a_cooldown_lasts_for_a_while() {
    let mut cooldown = Cooldown::default();
    assert!(!cooldown.is_active(NOW));
    cooldown.reset(NOW, PENDING_COOLDOWN);
    assert!(cooldown.is_active(NOW + PENDING_COOLDOWN - 1));
    assert!(!cooldown.is_active(NOW + PENDING_COOLDOWN));
    cooldown.clear();
    assert_eq!(None, cooldown.until);
}

#[test]
fn ambient_light_is_remembered() {
    let mut controller = controller();
    assert_eq!(None, controller.hear(None));
    assert_eq!(Some(5), controller.hear(Some(5)));
    assert_eq!(Some(5), controller.hear(None));
}

#[test]
fn entries_with_the_same_conditions_win() {
    let entries = vec![Entry::new(1, 1, 10), Entry::new(2, 2, 20), Entry::new(3, 3, 30)];
    let closeness = vec![Closeness::Near, Closeness::Same, Closeness::Same];
    assert!(matches!(consult(&entries, &closeness), Choice::Known(20)));
    let closeness = vec![Closeness::Near, Closeness::Far, Closeness::Near];
    assert!(matches!(consult(&entries, &closeness), Choice::Between(places) if places == vec![0, 2]));
    let closeness = vec![Closeness::Far; 3];
    assert!(matches!(consult(&entries, &closeness), Choice::Unknown));
}

#[test]
fn data_is_replaced_only_when_it_is_complete() {
    let save = |failing: Option<SaveStep>, has_directory: bool| {
        let mut steps = vec![SaveStep::Open];
        while !matches!(steps.last(), Some(SaveStep::Saved | SaveStep::Failed)) {
            let step = steps[steps.len() - 1];
            steps.push(save_step(step, Some(step) != failing, has_directory));
        }
        steps
    };
    assert_eq!(
        vec![
            SaveStep::Open,
            SaveStep::Write,
            SaveStep::Sync,
            SaveStep::Rename,
            SaveStep::SyncDirectory,
            SaveStep::Saved,
        ],
        save(None, true)
    );
    assert_eq!(Some(&SaveStep::Rename), save(None, false).iter().rev().nth(1));
    for failing in [SaveStep::Open, SaveStep::Write, SaveStep::Sync] {
        let steps = save(Some(failing), true);
        assert!(!steps.contains(&SaveStep::Rename));
        assert_eq!(vec![SaveStep::RemoveTemporary, SaveStep::Failed], steps[steps.len() - 2..]);
    }
    assert_eq!(Some(&SaveStep::Failed), save(Some(SaveStep::SyncDirectory), true).last());
}

#[test]
fn choices_of_the_user_are_learned() {
    let mut controller = adaptive::Controller::default();
    assert_eq!(None, controller.hear(None));
    assert_eq!(Some(30), controller.hear(Some(30)));
    assert_eq!(Some(30), controller.hear(None));
    assert_eq!(None, controller.notice(None, 0));
    assert_eq!(None, controller.notice(Some(50), 0));
    assert!(controller.predicts(0));
    assert_eq!(None, controller.notice(Some(50), 0));
    assert_eq!(Some(60), controller.notice(Some(60), 7));
    assert!(!controller.predicts(7 + PENDING_COOLDOWN - 1));
    assert!(controller.predicts(7 + PENDING_COOLDOWN));
}

#[test]
fn what_is_learned_replaces_what_was_known() {
    let mut data = Data::new("DP-1");
    for entry in [(1, 2, 3), (1, 4, 5), (6, 2, 7), (1, 2, 8)] {
        data.learn(Entry::new(entry.0, entry.1, entry.2));
    }
    assert_eq!(
        vec![Entry::new(1, 4, 5), Entry::new(6, 2, 7), Entry::new(1, 2, 8)],
        data.entries
    );
}

#[test]
fn each_brightness_is_reduced_by_its_own_share() {
    let mut controller = Controller::new(Vec::new(), "DP-1", Scale::Linear);
    // The brightness at the start counts as reduced by a tenth.
    assert_eq!(Ok(Some(100)), controller.adjust_by_percent(Some(100), None, Some(10), 0));
    assert_eq!(Some(110), controller.pre_reduction_brightness);
    assert_eq!(Ok(Some(60)), controller.adjust_by_percent(None, None, Some(50), 0));
    assert_eq!(Ok(None), controller.adjust_by_percent(None, Some(200), Some(25), 0));
    assert_eq!(Some(250), controller.pre_reduction_brightness);
    assert_eq!(
        Ok(Some(200)),
        controller.adjust_by_percent(None, None, Some(25), PENDING_COOLDOWN)
    );
    assert_eq!(
        Ok(Some(250)),
        controller.adjust_by_percent(None, None, None, PENDING_COOLDOWN)
    );
    let huge = EXACT_LIMIT as u64;
    assert_eq!(
        Err(NotExact),
        controller.adjust_by_percent(None, Some(huge), Some(2), PENDING_COOLDOWN)
    );
    assert_eq!(Some(200), controller.last_brightness);
    assert_eq!(
        Ok(None),
        controller.adjust_by_percent(None, Some(u64::MAX), Some(0), PENDING_COOLDOWN)
    );
    let mut other = Controller::new(Vec::new(), "DP-2", Scale::Linear);
    // Another brightness has come in since the start.
    assert_eq!(Ok(None), other.adjust_by_percent(Some(100), Some(50), Some(10), 7));
    assert_eq!(Some(55), other.pre_reduction_brightness);
    let mut third = Controller::new(Vec::new(), "DP-3", Scale::Linear);
    assert_eq!(Err(NotExact), third.adjust_by_percent(Some(u64::MAX), Some(50), Some(10), 7));
    assert_eq!(None, third.last_brightness);
}

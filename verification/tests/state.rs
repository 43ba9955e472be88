use std::collections::BTreeMap;
use wluma::state::{begin, next, Outcome, Step};

type Files = BTreeMap<String, String>;

fn migrate(source: &mut Files, destination: &mut Files, can_rename: bool) -> bool {
    let mut migrated = false;
    let names: Vec<String> = source.keys().cloned().collect();
    for name in names {
        let mut step = begin(true, destination.contains_key(&name));
        loop {
            let outcome = match step {
                Step::Rename if can_rename => {
                    destination.insert(name.clone(), source.remove(&name).unwrap());
                    Outcome::Done
                }
                Step::Rename => Outcome::Failed,
                Step::Create if destination.contains_key(&name) => Outcome::Exists,
                Step::Create => {
                    destination.insert(name.clone(), String::new());
                    Outcome::Done
                }
                Step::Copy => {
                    destination.insert(name.clone(), source[&name].clone());
                    Outcome::Done
                }
                Step::RemoveSource => {
                    source.remove(&name);
                    Outcome::Done
                }
                Step::RemoveDestination => {
                    destination.remove(&name);
                    Outcome::Done
                }
                Step::Moved => {
                    migrated = true;
                    break;
                }
                Step::Skipped | Step::Failed => break,
            };
            step = next(step, outcome);
        }
    }
    migrated
}

#[test]
fn migrates_files_without_overwriting_existing_state() {
    for can_rename in [true, false] {
        let mut source = Files::new();
        let mut destination = Files::new();
        source.insert("migrate.yaml".to_string(), "old".to_string());
        source.insert("existing.yaml".to_string(), "old".to_string());
        destination.insert("existing.yaml".to_string(), "new".to_string());

        assert!(migrate(&mut source, &mut destination, can_rename));

        assert_eq!("old", destination["migrate.yaml"]);
        assert!(!source.contains_key("migrate.yaml"));
        assert_eq!("new", destination["existing.yaml"]);
        assert_eq!("old", source["existing.yaml"]);
        assert!(!migrate(&mut source, &mut destination, can_rename));
    }
}

#[test]
fn only_files_are_moved() {
    assert_eq!(Step::Skipped, begin(false, false));
    assert_eq!(Step::Skipped, begin(true, true));
    assert_eq!(Step::Rename, begin(true, false));
}

#[test]
fn an_incomplete_copy_is_removed() {
    assert_eq!(Step::RemoveDestination, next(Step::Copy, Outcome::Failed));
    assert_eq!(Step::Failed, next(Step::RemoveDestination, Outcome::Done));
    assert_eq!(Step::Failed, next(Step::RemoveSource, Outcome::Failed));
    assert_eq!(Step::Failed, next(Step::Create, Outcome::Failed));
    assert_eq!(Step::Skipped, next(Step::Create, Outcome::Exists));
    assert_eq!(Step::Moved, next(Step::Moved, Outcome::Failed));
}

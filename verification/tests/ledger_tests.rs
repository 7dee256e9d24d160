use ratel::time::Timestamp;
use ratel::digest::calculate_hash;
use ratel::ledger::{
    certify_modifications, check_integrity, generate_default_scenario, init, save_ratel_config,
    LedgerError, LedgerState, ProjectType, RatelConfig,
};
use ratel::pathmap::PathMap;

const T0: Timestamp = Timestamp { secs: 1_700_000_000, nanos: 0 };
const T1: Timestamp = Timestamp { secs: 1_700_000_600, nanos: 5 };

fn files_of(entries: &[(&str, &[u8])]) -> PathMap<Vec<u8>> {
    let mut files = PathMap::new();
    for (path, content) in entries {
        files.insert(path.to_string(), content.to_vec());
    }
    files
}

fn ledger_of(entries: &[(&str, &[u8])]) -> LedgerState {
    let mut hashes = PathMap::new();
    for (path, content) in entries {
        hashes.insert(path.to_string(), calculate_hash(content));
    }
    LedgerState::Initialized(save_ratel_config(ProjectType::Generic, "ctx", hashes, T0))
}

fn entries_of(config: &RatelConfig) -> Vec<(String, String)> {
    (0..config.expert_hashes.len())
        .map(|i| {
            (
                config.expert_hashes.path_at(i).unwrap().clone(),
                config.expert_hashes.value_at(i).unwrap().clone(),
            )
        })
        .collect()
}

#[test]
fn init_without_marker_tracks_the_root_scenario() {
    let plan = init(&LedgerState::Uninitialized, "generic", false, T0).unwrap();
    assert_eq!(plan.path, "security.ratel");
    assert_eq!(plan.content, generate_default_scenario());
    assert_eq!(plan.config.version, "0.1.0");
    assert_eq!(plan.config.project_type, "Generic");
    assert_eq!(plan.config.context, "generic");
    assert_eq!(plan.config.initialized_at, T0);
    assert_eq!(plan.config.customized_at, None);
    assert_eq!(
        entries_of(&plan.config),
        vec![("security.ratel".to_string(), calculate_hash(plan.content.as_bytes()))]
    );
}

#[test]
fn init_with_marker_tracks_the_nested_scenario() {
    let plan = init(&LedgerState::Uninitialized, "payments", true, T1).unwrap();
    assert_eq!(plan.path, "tests/ratel/security.ratel");
    assert_eq!(plan.content, generate_default_scenario());
    assert_eq!(plan.config.project_type, "Node.js");
    assert_eq!(plan.config.context, "payments");
    assert_eq!(plan.config.initialized_at, T1);
    assert_eq!(
        entries_of(&plan.config),
        vec![("tests/ratel/security.ratel".to_string(), calculate_hash(plan.content.as_bytes()))]
    );
}

#[test]
fn init_chooses_a_different_path_with_and_without_marker() {
    let with = init(&LedgerState::Uninitialized, "c", true, T0).unwrap();
    let without = init(&LedgerState::Uninitialized, "c", false, T0).unwrap();
    assert_ne!(with.path, without.path);
    assert_ne!(with.config.project_type, without.config.project_type);
    assert_ne!(entries_of(&with.config)[0].0, entries_of(&without.config)[0].0);
}

#[test]
fn init_refuses_an_existing_ledger() {
    let existing = ledger_of(&[("a", b"x")]);
    assert_eq!(init(&existing, "c", false, T0), Err(LedgerError::AlreadyInitialized));
    assert_eq!(init(&LedgerState::Corrupt, "c", true, T0), Err(LedgerError::AlreadyInitialized));
    assert_eq!(init(&existing, "c", true, T1), Err(LedgerError::AlreadyInitialized));
}

#[test]
fn init_records_the_time_it_is_given() {
    let at = Timestamp { secs: -1, nanos: 7 };
    let plan = init(&LedgerState::Uninitialized, "generic", false, at).unwrap();
    assert_eq!(plan.config.initialized_at, at);
    assert_eq!(plan.config.customized_at, None);
    assert_eq!(plan.path, "security.ratel");
}

#[test]
fn init_then_check_passes() {
    let plan = init(&LedgerState::Uninitialized, "generic", true, T0).unwrap();
    let files = files_of(&[(plan.path.as_str(), plan.content.as_bytes())]);
    assert_eq!(check_integrity(&LedgerState::Initialized(plan.config), &files), Ok(()));
}

#[test]
fn check_needs_a_ledger() {
    let files = files_of(&[("a", b"x")]);
    assert_eq!(check_integrity(&LedgerState::Uninitialized, &files), Err(LedgerError::ConfigMissing));
    assert_eq!(check_integrity(&LedgerState::Corrupt, &files), Err(LedgerError::ConfigCorrupt));
}

#[test]
fn check_passes_on_unmodified_files() {
    let entries: [(&str, &[u8]); 3] = [("a.ratel", b"one"), ("dir/b.ratel", b"two"), ("c", b"")];
    assert_eq!(check_integrity(&ledger_of(&entries), &files_of(&entries)), Ok(()));
    assert_eq!(check_integrity(&ledger_of(&[]), &files_of(&entries)), Ok(()));
}

#[test]
fn check_reports_a_missing_file() {
    let ledger = ledger_of(&[("a.ratel", b"one"), ("b.ratel", b"two")]);
    let files = files_of(&[("a.ratel", b"one")]);
    assert_eq!(check_integrity(&ledger, &files), Err(LedgerError::FileMissing("b.ratel".to_string())));
}

#[test]
fn check_reports_the_modified_file() {
    let ledger = ledger_of(&[("a.ratel", b"one"), ("b.ratel", b"CHECK status BE 200"), ("c.ratel", b"three")]);
    let files = files_of(&[("a.ratel", b"one"), ("b.ratel", b"CHECK status BE 201"), ("c.ratel", b"three")]);
    assert_eq!(
        check_integrity(&ledger, &files),
        Err(LedgerError::IntegrityViolation("b.ratel".to_string()))
    );
}

#[test]
fn check_reports_the_first_failure_in_ledger_order() {
    let ledger = ledger_of(&[("a", b"1"), ("b", b"2"), ("c", b"3")]);
    let files = files_of(&[("c", b"changed"), ("a", b"1")]);
    assert_eq!(check_integrity(&ledger, &files), Err(LedgerError::FileMissing("b".to_string())));
    let files = files_of(&[("c", b"changed"), ("b", b"changed"), ("a", b"1")]);
    assert_eq!(check_integrity(&ledger, &files), Err(LedgerError::IntegrityViolation("b".to_string())));
}

#[test]
fn certify_needs_a_ledger() {
    let files = files_of(&[]);
    assert_eq!(certify_modifications(&LedgerState::Uninitialized, &files, T1), Err(LedgerError::ConfigMissing));
    assert_eq!(certify_modifications(&LedgerState::Corrupt, &files, T1), Err(LedgerError::ConfigCorrupt));
}

#[test]
fn certify_rebaselines_and_dates_the_ledger() {
    let ledger = ledger_of(&[("a", b"old a"), ("b", b"old b")]);
    let files = files_of(&[("a", b"new a"), ("b", b"old b"), ("untracked", b"x")]);
    let config = certify_modifications(&ledger, &files, T1).unwrap();
    assert_eq!(config.version, "0.1.0");
    assert_eq!(config.project_type, "Generic");
    assert_eq!(config.context, "ctx");
    assert_eq!(config.initialized_at, T0);
    assert_eq!(config.customized_at, Some(T1));
    assert_eq!(
        entries_of(&config),
        vec![
            ("a".to_string(), calculate_hash(b"new a")),
            ("b".to_string(), calculate_hash(b"old b")),
        ]
    );
}

#[test]
fn certify_drops_paths_whose_files_are_gone() {
    let ledger = ledger_of(&[("a", b"1"), ("gone", b"2"), ("c", b"3")]);
    let files = files_of(&[("a", b"1"), ("c", b"3")]);
    let config = certify_modifications(&ledger, &files, T1).unwrap();
    assert_eq!(
        entries_of(&config),
        vec![("a".to_string(), calculate_hash(b"1")), ("c".to_string(), calculate_hash(b"3"))]
    );
}

#[test]
fn certify_then_check_passes() {
    let ledger = ledger_of(&[("a", b"old a"), ("gone", b"x"), ("b", b"old b")]);
    let files = files_of(&[("a", b"new a"), ("b", b"new b")]);
    assert!(check_integrity(&ledger, &files).is_err());
    let config = certify_modifications(&ledger, &files, T1).unwrap();
    assert_eq!(check_integrity(&LedgerState::Initialized(config), &files), Ok(()));
}

#[test]
fn certify_records_the_time_it_is_given() {
    let ledger = ledger_of(&[("a", b"1")]);
    let files = files_of(&[("a", b"2")]);
    let at = Timestamp { secs: 4_102_444_800, nanos: 1 };
    let config = certify_modifications(&ledger, &files, at).unwrap();
    assert_eq!(config.customized_at, Some(at));
    assert_eq!(config.initialized_at, T0);
    assert_eq!(check_integrity(&LedgerState::Initialized(config), &files), Ok(()));
}

#[test]
fn one_changed_byte_after_certify_is_a_violation() {
    let ledger = ledger_of(&[("first", b"1"), ("security.ratel", b"x"), ("last", b"3")]);
    let content = generate_default_scenario().into_bytes();
    let files = files_of(&[("first", b"1"), ("security.ratel", &content), ("last", b"3")]);
    let config = certify_modifications(&ledger, &files, T1).unwrap();
    let mut changed = content.clone();
    changed[0] = b's';
    let files = files_of(&[("first", b"1"), ("security.ratel", &changed), ("last", b"3")]);
    assert_eq!(
        check_integrity(&LedgerState::Initialized(config), &files),
        Err(LedgerError::IntegrityViolation("security.ratel".to_string()))
    );
}

#[test]
fn project_kinds() {
    assert_eq!(ProjectType::detect(true), ProjectType::NodeJs);
    assert_eq!(ProjectType::detect(false), ProjectType::Generic);
    assert_eq!(ProjectType::NodeJs.label(), "Node.js");
    assert_eq!(ProjectType::Generic.label(), "Generic");
    assert_eq!(ProjectType::NodeJs.default_path(), "tests/ratel/security.ratel");
    assert_eq!(ProjectType::Generic.default_path(), "security.ratel");
}

#[test]
fn path_map_keeps_first_order_and_replaces() {
    let mut map: PathMap<String> = PathMap::new();
    assert_eq!(map.len(), 0);
    assert_eq!(map.get(&"a".to_string()), None);
    map.insert("b".to_string(), "1".to_string());
    map.insert("a".to_string(), "2".to_string());
    map.insert("b".to_string(), "3".to_string());
    map.insert("c".to_string(), "4".to_string());
    assert_eq!(map.len(), 3);
    assert_eq!(map.get(&"b".to_string()), Some(&"3".to_string()));
    assert_eq!(map.get(&"a".to_string()), Some(&"2".to_string()));
    assert_eq!(map.get(&"missing".to_string()), None);
    let paths: Vec<&String> = (0..4).filter_map(|i| map.path_at(i)).collect();
    assert_eq!(paths, vec!["b", "a", "c"]);
    assert_eq!(map.value_at(0), Some(&"3".to_string()));
    assert_eq!(map.value_at(3), None);
    assert_eq!(map.path_at(3), None);
}

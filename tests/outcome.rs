use modsync::config::{config_from_fields, load_config, Config, MAX_CONFIG_CHARS};
use modsync::error::Error;
use modsync::report::{summarize, CopyOutcome, SyncReport};
use modsync::targets::resolve_destination;

fn dest(v: &str) -> modsync::targets::Destination {
    resolve_destination(&"root".to_string(), &v.to_string())
}

#[test]
fn partial_failure_is_isolated() {
    let ds = vec![dest("1.0"), dest("1.1"), dest("1.2")];
    let os = vec![
        CopyOutcome::Succeeded,
        CopyOutcome::Failed("permission denied".to_string()),
        CopyOutcome::Succeeded,
    ];
    let r = summarize(ds, os);
    assert!(!r.success);
    assert_eq!(r.results.len(), 3);
    assert_eq!(r.results[0].outcome, CopyOutcome::Succeeded);
    assert_eq!(r.results[1].outcome, CopyOutcome::Failed("permission denied".to_string()));
    assert_eq!(r.results[1].destination.version, "1.1");
    assert_eq!(r.results[2].outcome, CopyOutcome::Succeeded);
    assert_eq!(r.failed_indices(), vec![1usize]);
}

#[test]
fn all_succeeded_is_success() {
    let r = summarize(vec![dest("a"), dest("b")], vec![CopyOutcome::Succeeded, CopyOutcome::Succeeded]);
    assert!(r.success);
    assert!(r.failed_indices().is_empty());
}

#[test]
fn no_destination_is_success() {
    let r = summarize(Vec::new(), Vec::new());
    assert!(r.success);
    assert!(r.results.is_empty());
}

#[test]
fn record_one_by_one() {
    let mut r = SyncReport::new();
    assert!(r.success);
    r.record(dest("1"), CopyOutcome::Failed("disk full".to_string()));
    assert!(!r.success);
    r.record(dest("2"), CopyOutcome::Succeeded);
    assert!(!r.success);
    assert_eq!(r.results.len(), 2);
    assert_eq!(r.failed_indices(), vec![0usize]);
}

#[test]
fn error_messages() {
    assert_eq!(Error::IoError("not found".to_string()).describe(), "IO Error: not found");
    assert_eq!(
        Error::DirectoryUnreadable("permission denied".to_string()).describe(),
        "IO Error: permission denied"
    );
    assert_eq!(Error::NoVersionDirectory.describe(), "No version directory was found");
    assert_eq!(Error::CopyFailed("disk full".to_string()).describe(), "Copy Error: disk full");
    assert_eq!(Error::ConfigUnparsable("bad".to_string()).describe(), "Json Error: bad");
    assert_eq!(
        Error::ConfigFieldMissing("gameDir".to_string()).describe(),
        "Key missing in pref.json: \"gameDir\""
    );
    assert_eq!(
        Error::ConfigFieldMissing("modsDir".to_string()).describe(),
        "Key missing in pref.json: \"modsDir\""
    );
}

#[test]
fn config_fields_present() {
    let c = config_from_fields(Some("g".to_string()), Some("m".to_string())).unwrap();
    assert_eq!(c, Config { game_dir: "g".to_string(), mods_dir: "m".to_string() });
}

#[test]
fn config_game_dir_checked_first() {
    assert_eq!(
        config_from_fields(None, None),
        Err(Error::ConfigFieldMissing("gameDir".to_string()))
    );
    assert_eq!(
        config_from_fields(Some("g".to_string()), None),
        Err(Error::ConfigFieldMissing("modsDir".to_string()))
    );
}

#[test]
fn load_config_reads_both_fields() {
    let c = load_config("{\"gameDir\": \"C:/Games/App\", \"modsDir\": \"D:/mods\"}").unwrap();
    assert_eq!(c.game_dir, "C:/Games/App");
    assert_eq!(c.mods_dir, "D:/mods");
}

#[test]
fn load_config_field_of_wrong_type() {
    let r = load_config("{\"gameDir\": 3, \"modsDir\": \"m\"}");
    assert_eq!(r, Err(Error::ConfigFieldMissing("gameDir".to_string())));
    let r = load_config("{\"gameDir\": \"g\"}");
    assert_eq!(r, Err(Error::ConfigFieldMissing("modsDir".to_string())));
    let r = load_config("[1, 2]");
    assert_eq!(r, Err(Error::ConfigFieldMissing("gameDir".to_string())));
}

#[test]
fn load_config_rejects_malformed_text() {
    let r = load_config("{\"gameDir\": ");
    assert!(matches!(r, Err(Error::ConfigUnparsable(_))));
}

#[test]
fn load_config_ignores_other_members() {
    let c = load_config("{\"other\": [1, 2.5], \"modsDir\": \"m\", \"gameDir\": \"g\"}").unwrap();
    assert_eq!(c, Config { game_dir: "g".to_string(), mods_dir: "m".to_string() });
}

#[test]
fn load_config_long_fraction_under_bound() {
    let text = format!("{{\"gameDir\": \"g\", \"modsDir\": \"m\", \"n\": 0.{}}}", "0".repeat(30000));
    assert!(text.chars().count() < MAX_CONFIG_CHARS);
    let c = load_config(&text).unwrap();
    assert_eq!(c.game_dir, "g");
}

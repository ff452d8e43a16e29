use modsync::enumerate::{enumerate_candidates, EntryPolicy, EntryRead};
use modsync::error::Error;
use modsync::order::{name_le_exec, sort_names};
use modsync::sync::plan_run;
use modsync::targets::{resolve_destination, select_targets, versions_directory, Policy};

fn strings(v: &[&str]) -> Vec<String> {
    v.iter().map(|s| s.to_string()).collect()
}

#[test]
fn plain_string_order_not_numeric() {
    let sorted = sort_names(strings(&["0.9.0", "0.10.0", "1.0.0"]));
    assert_eq!(sorted, strings(&["0.10.0", "0.9.0", "1.0.0"]));
    let picked = select_targets(&"root".to_string(), strings(&["0.9.0", "0.10.0", "1.0.0"]), Policy::Newest).unwrap();
    assert_eq!(picked.len(), 1);
    assert_eq!(picked[0].version, "1.0.0");
}

#[test]
fn shorter_name_sorts_first_on_common_prefix() {
    let sorted = sort_names(strings(&["1.10", "1.1", "1.1.0", "", "1"]));
    assert_eq!(sorted, strings(&["", "1", "1.1", "1.1.0", "1.10"]));
}

#[test]
fn sort_keeps_duplicates() {
    let sorted = sort_names(strings(&["b", "a", "b"]));
    assert_eq!(sorted, strings(&["a", "b", "b"]));
}

#[test]
fn compare_names() {
    assert!(name_le_exec(&"abc".to_string(), &"abd".to_string()));
    assert!(!name_le_exec(&"abd".to_string(), &"abc".to_string()));
    assert!(name_le_exec(&"ab".to_string(), &"abc".to_string()));
    assert!(!name_le_exec(&"abc".to_string(), &"ab".to_string()));
    assert!(name_le_exec(&"x".to_string(), &"x".to_string()));
    assert!(name_le_exec(&"Z".to_string(), &"a".to_string()));
    assert!(name_le_exec(&"z".to_string(), &"\u{e9}".to_string()));
}

#[test]
fn destination_path_layout() {
    let d = resolve_destination(&"C:/Games/App".to_string(), &"1.2.0".to_string());
    assert_eq!(d.version, "1.2.0");
    assert_eq!(d.segments, strings(&["C:/Games/App", "bin", "1.2.0", "res_mods"]));
    assert_eq!(versions_directory(&"/opt/app".to_string()), strings(&["/opt/app", "bin"]));
}

#[test]
fn newest_selects_lexicographically_last() {
    let r = select_targets(&"root".to_string(), strings(&["1.0.0", "1.2.0", "1.1.0"]), Policy::Newest).unwrap();
    assert_eq!(r.len(), 1);
    assert_eq!(r[0].segments, strings(&["root", "bin", "1.2.0", "res_mods"]));
}

#[test]
fn all_selects_every_candidate() {
    let r = select_targets(&"root".to_string(), strings(&["1.0.0", "1.2.0", "1.1.0"]), Policy::All).unwrap();
    assert_eq!(r.len(), 3);
    let versions: Vec<String> = r.iter().map(|d| d.version.clone()).collect();
    assert_eq!(versions, strings(&["1.0.0", "1.1.0", "1.2.0"]));
    assert_eq!(r[2].segments, strings(&["root", "bin", "1.2.0", "res_mods"]));
}

#[test]
fn all_with_no_candidates_is_empty() {
    let r = select_targets(&"root".to_string(), Vec::new(), Policy::All).unwrap();
    assert!(r.is_empty());
}

#[test]
fn newest_with_no_candidates_fails() {
    let r = select_targets(&"root".to_string(), Vec::new(), Policy::Newest);
    assert_eq!(r, Err(Error::NoVersionDirectory));
}

#[test]
fn skip_policy_leaves_out_unreadable_entries() {
    let entries = vec![
        EntryRead::Name("2.0".to_string()),
        EntryRead::Unreadable("denied".to_string()),
        EntryRead::Name("1.0".to_string()),
        EntryRead::Unreadable("broken".to_string()),
    ];
    let r = enumerate_candidates(entries, EntryPolicy::Skip).unwrap();
    assert_eq!(r.names, strings(&["1.0", "2.0"]));
    assert_eq!(r.skipped, strings(&["denied", "broken"]));
}

#[test]
fn abort_policy_fails_on_first_unreadable_entry() {
    let entries = vec![
        EntryRead::Name("2.0".to_string()),
        EntryRead::Unreadable("denied".to_string()),
        EntryRead::Unreadable("broken".to_string()),
    ];
    let r = enumerate_candidates(entries, EntryPolicy::Abort);
    assert_eq!(r, Err(Error::DirectoryUnreadable("denied".to_string())));
}

#[test]
fn abort_policy_with_all_entries_readable() {
    let entries = vec![EntryRead::Name("b".to_string()), EntryRead::Name("a".to_string())];
    let r = enumerate_candidates(entries, EntryPolicy::Abort).unwrap();
    assert_eq!(r.names, strings(&["a", "b"]));
    assert!(r.skipped.is_empty());
}

#[test]
fn plan_all_over_entries() {
    let entries = vec![
        EntryRead::Name("1.1".to_string()),
        EntryRead::Unreadable("denied".to_string()),
        EntryRead::Name("1.0".to_string()),
    ];
    let p = plan_run(&"g".to_string(), entries, EntryPolicy::Skip, Policy::All).unwrap();
    assert_eq!(p.destinations.len(), 2);
    assert_eq!(p.destinations[0].segments, strings(&["g", "bin", "1.0", "res_mods"]));
    assert_eq!(p.destinations[1].segments, strings(&["g", "bin", "1.1", "res_mods"]));
    assert_eq!(p.skipped, strings(&["denied"]));
}

#[test]
fn plan_newest_without_versions_fails() {
    let entries = vec![EntryRead::Unreadable("denied".to_string())];
    let r = plan_run(&"g".to_string(), entries, EntryPolicy::Skip, Policy::Newest);
    assert_eq!(r, Err(Error::NoVersionDirectory));
}

#[test]
fn plan_all_without_versions_is_empty() {
    let p = plan_run(&"g".to_string(), Vec::new(), EntryPolicy::Abort, Policy::All).unwrap();
    assert!(p.destinations.is_empty());
    assert!(p.skipped.is_empty());
}

#[test]
fn plan_aborts_on_unreadable_entry() {
    let entries = vec![EntryRead::Name("1.0".to_string()), EntryRead::Unreadable("io".to_string())];
    let r = plan_run(&"g".to_string(), entries, EntryPolicy::Abort, Policy::All);
    assert_eq!(r, Err(Error::DirectoryUnreadable("io".to_string())));
}

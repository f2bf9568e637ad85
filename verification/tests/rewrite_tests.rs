use stabilize::manifest::{Dep, DepEntry, ManifestShape};
use stabilize::registry::{interpret_search_output, Reply};
use stabilize::rewrite::{
    apply_replies, apply_updates, plan_queries, shape_notice, summary_lines,
};

fn bare(name: &str, version: &str) -> Dep {
    Dep { name: name.to_string(), entry: DepEntry::Bare(version.to_string()) }
}

fn keyed(name: &str, version: &str) -> Dep {
    Dep { name: name.to_string(), entry: DepEntry::Keyed(version.to_string()) }
}

fn unversioned(name: &str) -> Dep {
    Dep { name: name.to_string(), entry: DepEntry::Unversioned }
}

fn version_of(d: &Dep) -> Option<String> {
    match &d.entry {
        DepEntry::Bare(s) => Some(s.clone()),
        DepEntry::Keyed(s) => Some(s.clone()),
        DepEntry::Unversioned => None,
    }
}

#[test]
fn wildcard_is_stabilized() {
    // dependencies = { foo = "*" }; the registry reports 1.2.3
    let deps = vec![bare("foo", "*")];
    let plan = plan_queries(&deps, false);
    assert_eq!(plan, vec![0]);
    let replies = vec![Reply::Version("1.2.3".to_string())];
    let report = apply_replies(&deps, false, &replies);
    assert_eq!(report.stabilized, 1);
    assert_eq!(report.upgraded, 0);
    assert_eq!(report.lines.len(), 1);
    assert_eq!(report.lines[0], "foo: * -> 1.2.3");
    let out = apply_updates(&deps, &report.updates);
    assert_eq!(version_of(&out[0]), Some("1.2.3".to_string()));
    assert_eq!(out[0].name, "foo");
    let summary = summary_lines(report.stabilized, report.upgraded, false);
    assert_eq!(summary, vec!["Stabilized 1 dependency".to_string()]);
}

#[test]
fn upgrade_mode_replaces_pinned_versions() {
    // dependencies = { foo = "1.0", bar = "2.0" } under --upgrade;
    // the registry reports foo = 1.1 and bar = 2.0 (unchanged)
    let deps = vec![bare("foo", "1.0"), bare("bar", "2.0")];
    let plan = plan_queries(&deps, true);
    assert_eq!(plan, vec![0, 1]);
    let replies = vec![
        Reply::Version("1.1".to_string()),
        Reply::Version("2.0".to_string()),
    ];
    let report = apply_replies(&deps, true, &replies);
    assert_eq!(report.stabilized, 0);
    assert_eq!(report.upgraded, 1);
    assert_eq!(report.lines, vec!["foo: 1.0 -> 1.1".to_string()]);
    let out = apply_updates(&deps, &report.updates);
    assert_eq!(version_of(&out[0]), Some("1.1".to_string()));
    assert_eq!(version_of(&out[1]), Some("2.0".to_string()));
    let summary = summary_lines(report.stabilized, report.upgraded, true);
    assert_eq!(summary, vec!["Upgraded 1 dependency".to_string()]);
}

#[test]
fn shape_notices() {
    // a manifest with no dependencies key is reported and left alone
    assert_eq!(
        shape_notice(&ManifestShape::NoDeps),
        Some("No dependencies".to_string())
    );
    assert_eq!(
        shape_notice(&ManifestShape::NotTable),
        Some("Invalid manifest".to_string())
    );
    assert_eq!(
        shape_notice(&ManifestShape::DepsNotTable),
        Some("Invalid dependencies".to_string())
    );
    assert_eq!(shape_notice(&ManifestShape::Deps(Vec::new())), None);
}

#[test]
fn failed_query_leaves_entry_and_goes_on() {
    // the search cannot be run for foo; bar is still processed
    let deps = vec![bare("foo", "*"), bare("bar", "*")];
    let plan = plan_queries(&deps, false);
    assert_eq!(plan, vec![0, 1]);
    let replies = vec![Reply::ClientError, Reply::Version("0.5.0".to_string())];
    let report = apply_replies(&deps, false, &replies);
    assert_eq!(report.stabilized, 1);
    assert_eq!(report.upgraded, 0);
    assert_eq!(
        report.lines,
        vec![
            "Error running search".to_string(),
            "bar: * -> 0.5.0".to_string(),
        ]
    );
    assert_eq!(report.updates.len(), 1);
    let out = apply_updates(&deps, &report.updates);
    assert_eq!(version_of(&out[0]), Some("*".to_string()));
    assert_eq!(version_of(&out[1]), Some("0.5.0".to_string()));
}

#[test]
fn unqueriable_entries_are_never_touched_or_counted() {
    // a sub-table without a version and a pinned entry, no upgrade mode
    let deps = vec![unversioned("weird"), bare("pinned", "3.1"), keyed("tabled", "0.2")];
    let plan = plan_queries(&deps, false);
    assert!(plan.is_empty());
    let replies: Vec<Reply> = Vec::new();
    let report = apply_replies(&deps, false, &replies);
    assert_eq!(report.stabilized, 0);
    assert_eq!(report.upgraded, 0);
    assert!(report.updates.is_empty());
    assert!(report.lines.is_empty());
    let out = apply_updates(&deps, &report.updates);
    assert_eq!(out.len(), 3);
    assert!(version_of(&out[0]).is_none());
    assert_eq!(version_of(&out[1]), Some("3.1".to_string()));
    assert_eq!(version_of(&out[2]), Some("0.2".to_string()));
}

#[test]
fn equal_version_reply_changes_nothing() {
    let deps = vec![bare("foo", "*")];
    let replies = vec![Reply::Version("*".to_string())];
    let report = apply_replies(&deps, false, &replies);
    assert_eq!(report.stabilized, 0);
    assert!(report.updates.is_empty());
    assert!(report.lines.is_empty());
    let summary = summary_lines(0, 0, false);
    assert_eq!(summary, vec!["All dependencies are stable".to_string()]);
}

#[test]
fn second_run_is_idempotent() {
    // the registry keeps answering the same versions; a second run
    // changes nothing and counts nothing
    let deps = vec![bare("foo", "*"), keyed("bar", "0.9")];
    let plan1 = plan_queries(&deps, true);
    assert_eq!(plan1, vec![0, 1]);
    let replies1 = vec![
        Reply::Version("1.2.3".to_string()),
        Reply::Version("1.0.0".to_string()),
    ];
    let report1 = apply_replies(&deps, true, &replies1);
    assert_eq!(report1.stabilized, 1);
    assert_eq!(report1.upgraded, 1);
    let deps2 = apply_updates(&deps, &report1.updates);

    let plan2 = plan_queries(&deps2, true);
    assert_eq!(plan2, vec![0, 1]);
    // same registry, same answers
    let replies2 = vec![
        Reply::Version("1.2.3".to_string()),
        Reply::Version("1.0.0".to_string()),
    ];
    let report2 = apply_replies(&deps2, true, &replies2);
    assert_eq!(report2.stabilized, 0);
    assert_eq!(report2.upgraded, 0);
    assert!(report2.updates.is_empty());
    let deps3 = apply_updates(&deps2, &report2.updates);
    assert_eq!(version_of(&deps3[0]), version_of(&deps2[0]));
    assert_eq!(version_of(&deps3[1]), version_of(&deps2[1]));
}

#[test]
fn round_trip_without_wildcards() {
    // no wildcards, no upgrade mode: nothing is even queried, the
    // table survives unchanged
    let deps = vec![bare("a", "1.0"), keyed("b", "2.0"), unversioned("c")];
    let plan = plan_queries(&deps, false);
    assert!(plan.is_empty());
    let report = apply_replies(&deps, false, &Vec::new());
    let out = apply_updates(&deps, &report.updates);
    for (before, after) in deps.iter().zip(out.iter()) {
        assert_eq!(before.name, after.name);
        assert_eq!(version_of(before), version_of(after));
    }
}

#[test]
fn whole_run_from_raw_search_output() {
    // from the search command's raw text to the rewritten table
    let deps = vec![bare("foo", "*"), bare("skipped", "0.1")];
    let plan = plan_queries(&deps, false);
    assert_eq!(plan, vec![0]);
    let raw = "foo = \"1.2.3\"    # A handy library\n... and 17 crates more".to_string();
    let replies = vec![interpret_search_output(Some(&raw), "foo")];
    let report = apply_replies(&deps, false, &replies);
    assert_eq!(report.stabilized, 1);
    assert_eq!(report.lines, vec!["foo: * -> 1.2.3".to_string()]);
    let out = apply_updates(&deps, &report.updates);
    assert_eq!(version_of(&out[0]), Some("1.2.3".to_string()));
    assert_eq!(version_of(&out[1]), Some("0.1".to_string()));
}

#[test]
fn summary_pluralization_keys_off_each_count() {
    assert_eq!(
        summary_lines(2, 0, false),
        vec!["Stabilized 2 dependencies".to_string()]
    );
    assert_eq!(
        summary_lines(0, 3, true),
        vec!["Upgraded 3 dependencies".to_string()]
    );
    assert_eq!(
        summary_lines(1, 2, true),
        vec![
            "Stabilized 1 dependency".to_string(),
            "Upgraded 2 dependencies".to_string(),
        ]
    );
    assert_eq!(
        summary_lines(0, 0, true),
        vec!["All dependencies are up to date".to_string()]
    );
}

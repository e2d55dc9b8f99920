use kk::aggregate::{
    ReportedPath, SubdirInfo, TrackedPath, add_synthetic_entries, aggregate_entries_status,
    apply_backfill, backfill_plan, build_initial_map, compute_dir_status_from_statuses,
    mark_empty_subdirs, mark_ignored_children, remap_aggregate, remap_deep,
};
use kk::status::{RawPathStatus, VcsStatus};
use kk::status_map::StatusMap;

fn clean_flags() -> RawPathStatus {
    RawPathStatus::clean()
}

fn untracked_flags() -> RawPathStatus {
    let mut f = RawPathStatus::clean();
    f.wt_new = true;
    f
}

fn ignored_flags() -> RawPathStatus {
    let mut f = RawPathStatus::clean();
    f.ignored = true;
    f
}

fn wt_modified_flags() -> RawPathStatus {
    let mut f = RawPathStatus::clean();
    f.wt_modified = true;
    f
}

fn staged_flags() -> RawPathStatus {
    let mut f = RawPathStatus::clean();
    f.index_modified = true;
    f
}

fn rp(components: &[&str], flags: RawPathStatus) -> ReportedPath {
    ReportedPath {
        components: components.iter().map(|c| c.to_string()).collect(),
        flags,
    }
}

fn tp(components: &[&str], is_blob: bool) -> TrackedPath {
    TrackedPath {
        components: components.iter().map(|c| c.to_string()).collect(),
        is_blob,
    }
}

fn map_of(pairs: &[(&str, VcsStatus)]) -> StatusMap {
    let mut m = StatusMap::new();
    for (name, st) in pairs {
        m.set(name.to_string(), *st);
    }
    m
}

fn get(m: &StatusMap, name: &str) -> Option<VcsStatus> {
    m.get(&name.to_string())
}

// ---- aggregate_entries_status tests ----

#[test]
fn test_aggregate_empty_map() {
    let map = StatusMap::new();
    assert_eq!(aggregate_entries_status(&map), VcsStatus::Clean);
}

#[test]
fn test_aggregate_all_clean() {
    let map = map_of(&[("a.txt", VcsStatus::Clean), ("b.txt", VcsStatus::Clean)]);
    assert_eq!(aggregate_entries_status(&map), VcsStatus::Clean);
}

#[test]
fn test_aggregate_with_untracked() {
    let map = map_of(&[("a.txt", VcsStatus::Clean), ("b.txt", VcsStatus::Untracked)]);
    // Untracked files → DirUntracked at dir level
    assert_eq!(aggregate_entries_status(&map), VcsStatus::DirUntracked);
}

#[test]
fn test_aggregate_with_worktree_changed() {
    let map = map_of(&[("a.txt", VcsStatus::Clean), ("b.txt", VcsStatus::WorkTreeChanged)]);
    // WorkTreeChanged → DirChanged at dir level
    assert_eq!(aggregate_entries_status(&map), VcsStatus::DirChanged);
}

#[test]
fn test_aggregate_with_staged() {
    let map = map_of(&[("a.txt", VcsStatus::Clean), ("b.txt", VcsStatus::Staged)]);
    assert_eq!(aggregate_entries_status(&map), VcsStatus::DirChanged);
}

#[test]
fn test_aggregate_with_both_changed() {
    let map = map_of(&[("a.txt", VcsStatus::BothChanged)]);
    assert_eq!(aggregate_entries_status(&map), VcsStatus::DirChanged);
}

#[test]
fn test_aggregate_dir_empty_untracked_maps_to_dir_untracked() {
    let map = map_of(&[("empty_dir", VcsStatus::DirEmptyUntracked)]);
    assert_eq!(aggregate_entries_status(&map), VcsStatus::DirUntracked);
}

#[test]
fn test_aggregate_skips_dot_entries() {
    let map = map_of(&[
        (".", VcsStatus::Untracked),
        ("..", VcsStatus::Untracked),
        ("a.txt", VcsStatus::Clean),
    ]);
    // . and .. should be ignored in aggregation
    assert_eq!(aggregate_entries_status(&map), VcsStatus::Clean);
}

#[test]
fn test_aggregate_priority_untracked_over_modified() {
    let map = map_of(&[("a.txt", VcsStatus::WorkTreeChanged), ("b.txt", VcsStatus::Untracked)]);
    // Untracked (4) > WorkTreeChanged (3)
    assert_eq!(aggregate_entries_status(&map), VcsStatus::DirUntracked);
}

#[test]
fn test_aggregate_priority_modified_over_staged() {
    let map = map_of(&[("a.txt", VcsStatus::Staged), ("b.txt", VcsStatus::WorkTreeChanged)]);
    // WorkTreeChanged (3) > Staged (2)
    assert_eq!(aggregate_entries_status(&map), VcsStatus::DirChanged);
}

#[test]
fn test_aggregate_priority_staged_over_clean() {
    let map = map_of(&[("a.txt", VcsStatus::Clean), ("b.txt", VcsStatus::Staged)]);
    // Staged (2) > Clean (1) → DirChanged
    assert_eq!(aggregate_entries_status(&map), VcsStatus::DirChanged);
}

#[test]
fn test_aggregate_ignored_entries_ignored() {
    let map = map_of(&[("a.txt", VcsStatus::Ignored), ("b.txt", VcsStatus::Ignored)]);
    // All ignored → Ignored (priority 0)
    assert_eq!(aggregate_entries_status(&map), VcsStatus::Ignored);
}

#[test]
fn test_aggregate_clean_and_ignored() {
    let map = map_of(&[("a.txt", VcsStatus::Ignored), ("b.txt", VcsStatus::Clean)]);
    // Clean (1) > Ignored (0)
    assert_eq!(aggregate_entries_status(&map), VcsStatus::Clean);
}

#[test]
fn test_aggregate_dir_changed_propagated() {
    let map = map_of(&[("subdir", VcsStatus::DirChanged), ("a.txt", VcsStatus::Clean)]);
    assert_eq!(aggregate_entries_status(&map), VcsStatus::DirChanged);
}

#[test]
fn test_aggregate_dir_untracked_propagated() {
    let map = map_of(&[("subdir", VcsStatus::DirUntracked), ("a.txt", VcsStatus::Clean)]);
    assert_eq!(aggregate_entries_status(&map), VcsStatus::DirUntracked);
}

// ---- remap tables ----

#[test]
fn test_remap_deep_table() {
    assert_eq!(remap_deep(VcsStatus::Ignored), VcsStatus::Ignored);
    assert_eq!(remap_deep(VcsStatus::Untracked), VcsStatus::DirUntracked);
    assert_eq!(remap_deep(VcsStatus::Clean), VcsStatus::DirChanged);
    assert_eq!(remap_deep(VcsStatus::Staged), VcsStatus::DirChanged);
    assert_eq!(remap_deep(VcsStatus::WorkTreeChanged), VcsStatus::DirChanged);
    assert_eq!(remap_deep(VcsStatus::BothChanged), VcsStatus::DirChanged);
}

#[test]
fn test_remap_aggregate_table() {
    assert_eq!(remap_aggregate(VcsStatus::Untracked), VcsStatus::DirUntracked);
    assert_eq!(remap_aggregate(VcsStatus::DirEmptyUntracked), VcsStatus::DirUntracked);
    assert_eq!(remap_aggregate(VcsStatus::WorkTreeChanged), VcsStatus::DirChanged);
    assert_eq!(remap_aggregate(VcsStatus::BothChanged), VcsStatus::DirChanged);
    assert_eq!(remap_aggregate(VcsStatus::Staged), VcsStatus::DirChanged);
    assert_eq!(remap_aggregate(VcsStatus::Clean), VcsStatus::Clean);
    assert_eq!(remap_aggregate(VcsStatus::Ignored), VcsStatus::Ignored);
}

// ---- building the map from a snapshot ----

#[test]
fn test_depth_one_paths_recorded_directly() {
    let snapshot = vec![
        rp(&["new.txt"], untracked_flags()),
        rp(&["mod.txt"], wt_modified_flags()),
    ];
    let root: Vec<String> = Vec::new();
    let map = build_initial_map(&snapshot, &root);
    assert_eq!(get(&map, "new.txt"), Some(VcsStatus::Untracked));
    assert_eq!(get(&map, "mod.txt"), Some(VcsStatus::WorkTreeChanged));
}

#[test]
fn test_paths_outside_root_discarded() {
    let snapshot = vec![
        rp(&["elsewhere", "x.txt"], untracked_flags()),
        rp(&["sub", "dir", "y.txt"], untracked_flags()),
    ];
    let root = vec!["sub".to_string()];
    let map = build_initial_map(&snapshot, &root);
    assert_eq!(get(&map, "elsewhere"), None);
    assert_eq!(get(&map, "x.txt"), None);
    assert_eq!(get(&map, "dir"), Some(VcsStatus::DirUntracked));
}

#[test]
fn test_deep_worktree_modified_yields_dir_changed() {
    // a worktree-modified file two levels deep marks its first component
    let snapshot = vec![rp(&["sub", "inner", "f.txt"], wt_modified_flags())];
    let root: Vec<String> = Vec::new();
    let map = build_initial_map(&snapshot, &root);
    assert_eq!(get(&map, "sub"), Some(VcsStatus::DirChanged));
}

#[test]
fn test_deep_untracked_yields_dir_untracked() {
    let snapshot = vec![rp(&["sub", "inner", "f.txt"], untracked_flags())];
    let root: Vec<String> = Vec::new();
    let map = build_initial_map(&snapshot, &root);
    assert_eq!(get(&map, "sub"), Some(VcsStatus::DirUntracked));
}

#[test]
fn test_deep_ignored_yields_ignored_until_tracked_change_upgrades() {
    let snapshot = vec![
        rp(&["sub", "junk.log"], ignored_flags()),
        rp(&["sub", "code.rs"], wt_modified_flags()),
    ];
    let root: Vec<String> = Vec::new();
    let map = build_initial_map(&snapshot, &root);
    // the tracked modification outranks the ignored sibling
    assert_eq!(get(&map, "sub"), Some(VcsStatus::DirChanged));

    // and never the reverse: the ignored sibling cannot downgrade it
    let reversed = vec![
        rp(&["sub", "code.rs"], wt_modified_flags()),
        rp(&["sub", "junk.log"], ignored_flags()),
    ];
    let map2 = build_initial_map(&reversed, &root);
    assert_eq!(get(&map2, "sub"), Some(VcsStatus::DirChanged));
}

#[test]
fn test_depth_one_overwrites_without_ranking() {
    // a depth-one path is recorded directly, replacing what was there
    let snapshot = vec![
        rp(&["sub", "f.txt"], untracked_flags()),
        rp(&["sub"], ignored_flags()),
    ];
    let root: Vec<String> = Vec::new();
    let map = build_initial_map(&snapshot, &root);
    assert_eq!(get(&map, "sub"), Some(VcsStatus::Ignored));
}

// ---- clean backfill ----

#[test]
fn test_backfill_inserts_clean_for_unreported_tracked_paths() {
    let snapshot = vec![rp(&["new.txt"], untracked_flags())];
    let root: Vec<String> = Vec::new();
    let mut map = build_initial_map(&snapshot, &root);
    let tree = vec![tp(&["committed.txt"], true), tp(&["docs"], false)];
    let plan = backfill_plan(&map, &tree, &root);
    assert_eq!(plan, vec![false, false]);
    let results = vec![None, None];
    apply_backfill(&mut map, &tree, &results, &root);
    assert_eq!(get(&map, "committed.txt"), Some(VcsStatus::Clean));
    assert_eq!(get(&map, "docs"), Some(VcsStatus::Clean));
    assert_eq!(get(&map, "new.txt"), Some(VcsStatus::Untracked));
}

#[test]
fn test_backfill_upgrades_ignored_to_clean_for_force_added_file() {
    let snapshot = vec![rp(&["mydir"], ignored_flags())];
    let root: Vec<String> = Vec::new();
    let mut map = build_initial_map(&snapshot, &root);
    assert_eq!(get(&map, "mydir"), Some(VcsStatus::Ignored));
    let tree = vec![tp(&["mydir"], false), tp(&["mydir", "config"], true)];
    let plan = backfill_plan(&map, &tree, &root);
    // only the file below the ignored directory calls for a fresh query
    assert_eq!(plan, vec![false, true]);
    let results = vec![None, Some(clean_flags())];
    apply_backfill(&mut map, &tree, &results, &root);
    assert_eq!(get(&map, "mydir"), Some(VcsStatus::Clean));
}

#[test]
fn test_backfill_modified_file_in_ignored_dir_yields_dir_changed() {
    let snapshot = vec![rp(&["mydir"], ignored_flags())];
    let root: Vec<String> = Vec::new();
    let mut map = build_initial_map(&snapshot, &root);
    let tree = vec![tp(&["mydir", "config"], true)];
    let results = vec![Some(wt_modified_flags())];
    apply_backfill(&mut map, &tree, &results, &root);
    assert_eq!(get(&map, "mydir"), Some(VcsStatus::DirChanged));
}

#[test]
fn test_backfill_never_downgrades_dir_changed() {
    // a directory already recording a change keeps it through the backfill
    let snapshot = vec![
        rp(&["sub", "junk.log"], ignored_flags()),
        rp(&["sub", "code.rs"], wt_modified_flags()),
    ];
    let root: Vec<String> = Vec::new();
    let mut map = build_initial_map(&snapshot, &root);
    assert_eq!(get(&map, "sub"), Some(VcsStatus::DirChanged));
    let tree = vec![tp(&["sub", "code.rs"], true), tp(&["sub", "other.rs"], true)];
    let results = vec![Some(clean_flags()), Some(clean_flags())];
    apply_backfill(&mut map, &tree, &results, &root);
    assert_eq!(get(&map, "sub"), Some(VcsStatus::DirChanged));
}

#[test]
fn test_backfill_failed_query_contributes_nothing() {
    let snapshot = vec![rp(&["mydir"], ignored_flags())];
    let root: Vec<String> = Vec::new();
    let mut map = build_initial_map(&snapshot, &root);
    let tree = vec![tp(&["mydir", "config"], true)];
    let results = vec![None];
    apply_backfill(&mut map, &tree, &results, &root);
    assert_eq!(get(&map, "mydir"), Some(VcsStatus::Ignored));
}

// ---- ignored-root propagation and empty directories ----

#[test]
fn test_ignored_root_marks_unlisted_children() {
    let mut map = map_of(&[("seen.txt", VcsStatus::Untracked)]);
    let children = vec!["seen.txt".to_string(), "other.txt".to_string()];
    mark_ignored_children(&mut map, &children);
    assert_eq!(get(&map, "seen.txt"), Some(VcsStatus::Untracked));
    assert_eq!(get(&map, "other.txt"), Some(VcsStatus::Ignored));
}

#[test]
fn test_empty_directory_detection() {
    let mut map = StatusMap::new();
    let subdirs = vec![
        SubdirInfo { name: "plain".to_string(), is_ignored: false },
        SubdirInfo { name: "hidden".to_string(), is_ignored: true },
    ];
    mark_empty_subdirs(&mut map, &subdirs);
    assert_eq!(get(&map, "plain"), Some(VcsStatus::DirEmptyUntracked));
    assert_eq!(get(&map, "hidden"), Some(VcsStatus::Ignored));
}

#[test]
fn test_empty_directory_detection_skips_known_names() {
    let mut map = map_of(&[("known", VcsStatus::DirUntracked)]);
    let subdirs = vec![SubdirInfo { name: "known".to_string(), is_ignored: true }];
    mark_empty_subdirs(&mut map, &subdirs);
    assert_eq!(get(&map, "known"), Some(VcsStatus::DirUntracked));
}

// ---- synthetic entries ----

#[test]
fn test_dot_entry_aggregates_other_entries() {
    let mut map = map_of(&[("a.txt", VcsStatus::Clean), ("b.txt", VcsStatus::Staged)]);
    let snapshot: Vec<ReportedPath> = Vec::new();
    let parent: Vec<String> = Vec::new();
    add_synthetic_entries(&mut map, true, false, false, true, false, false, &snapshot, &parent);
    assert_eq!(get(&map, "."), Some(VcsStatus::DirChanged));
    // at the repository root there is no `..`
    assert_eq!(get(&map, ".."), None);
}

#[test]
fn test_dot_entry_empty_directory_cases() {
    let snapshot: Vec<ReportedPath> = Vec::new();
    let parent: Vec<String> = Vec::new();

    let mut at_root = StatusMap::new();
    add_synthetic_entries(&mut at_root, true, false, false, true, false, false, &snapshot, &parent);
    assert_eq!(get(&at_root, "."), Some(VcsStatus::Clean));

    let mut ignored_dir = StatusMap::new();
    add_synthetic_entries(
        &mut ignored_dir, true, false, false, false, true, false, &snapshot, &parent,
    );
    assert_eq!(get(&ignored_dir, "."), Some(VcsStatus::Ignored));

    let mut plain_dir = StatusMap::new();
    add_synthetic_entries(
        &mut plain_dir, true, false, false, false, false, false, &snapshot, &parent,
    );
    assert_eq!(get(&plain_dir, "."), Some(VcsStatus::DirEmptyUntracked));
}

#[test]
fn test_synthetic_entries_gated_by_flags() {
    let snapshot: Vec<ReportedPath> = Vec::new();
    let parent: Vec<String> = Vec::new();

    let mut no_all = map_of(&[("a.txt", VcsStatus::Clean)]);
    add_synthetic_entries(&mut no_all, false, false, false, true, false, false, &snapshot, &parent);
    assert_eq!(get(&no_all, "."), None);

    let mut almost = map_of(&[("a.txt", VcsStatus::Clean)]);
    add_synthetic_entries(&mut almost, true, true, false, true, false, false, &snapshot, &parent);
    assert_eq!(get(&almost, "."), None);

    let mut no_dir = map_of(&[("a.txt", VcsStatus::Clean)]);
    add_synthetic_entries(&mut no_dir, true, false, true, true, false, false, &snapshot, &parent);
    assert_eq!(get(&no_dir, "."), None);
}

#[test]
fn test_dotdot_entry_from_parent_slice_of_snapshot() {
    // listing sub/: the parent (the root) has a modified file of its own
    let snapshot = vec![
        rp(&["top.txt"], wt_modified_flags()),
        rp(&["sub", "new.txt"], untracked_flags()),
    ];
    let root = vec!["sub".to_string()];
    let mut map = build_initial_map(&snapshot, &root);
    let parent: Vec<String> = Vec::new();
    add_synthetic_entries(&mut map, true, false, false, false, false, false, &snapshot, &parent);
    // parent sees top.txt modified (depth 1) and sub/new.txt untracked (deep):
    // untracked outranks modified, so the parent aggregates DirUntracked
    assert_eq!(get(&map, ".."), Some(VcsStatus::DirUntracked));
}

#[test]
fn test_dotdot_entry_ignored_parent() {
    let snapshot: Vec<ReportedPath> = Vec::new();
    let mut map = StatusMap::new();
    let parent: Vec<String> = Vec::new();
    add_synthetic_entries(&mut map, true, false, false, false, false, true, &snapshot, &parent);
    assert_eq!(get(&map, ".."), Some(VcsStatus::Ignored));
}

#[test]
fn test_compute_dir_status_clean_when_nothing_reported() {
    let snapshot: Vec<ReportedPath> = Vec::new();
    let target: Vec<String> = Vec::new();
    assert_eq!(compute_dir_status_from_statuses(&snapshot, &target), VcsStatus::Clean);
}

#[test]
fn test_compute_dir_status_staged_remaps_to_dir_changed() {
    let snapshot = vec![rp(&["staged.txt"], staged_flags())];
    let target: Vec<String> = Vec::new();
    assert_eq!(compute_dir_status_from_statuses(&snapshot, &target), VcsStatus::DirChanged);
}

#[test]
fn test_compute_dir_status_all_ignored_is_ignored() {
    // when everything reported under the target is ignored, the ignored
    // status wins; Clean is only the default for an empty scan
    let snapshot = vec![
        rp(&["junk.log"], ignored_flags()),
        rp(&["cache", "blob.bin"], ignored_flags()),
    ];
    let target: Vec<String> = Vec::new();
    assert_eq!(compute_dir_status_from_statuses(&snapshot, &target), VcsStatus::Ignored);
}

#[test]
fn test_dotdot_entry_all_ignored_parent_is_ignored() {
    // listing sub/ whose parent holds only ignored content
    let snapshot = vec![
        rp(&["junk.log"], ignored_flags()),
        rp(&["sub"], ignored_flags()),
    ];
    let root = vec!["sub".to_string()];
    let mut map = build_initial_map(&snapshot, &root);
    let parent: Vec<String> = Vec::new();
    add_synthetic_entries(&mut map, true, false, false, false, false, false, &snapshot, &parent);
    assert_eq!(get(&map, ".."), Some(VcsStatus::Ignored));
}

#[test]
fn test_many_deep_ignored_paths_resolve_ignored() {
    // every reported path under the name is deep and ignored, and nothing
    // else mentions the name: it resolves to Ignored
    let snapshot = vec![
        rp(&["sub", "a.log"], ignored_flags()),
        rp(&["sub", "b", "c.log"], ignored_flags()),
        rp(&["sub", "d.tmp"], ignored_flags()),
    ];
    let root: Vec<String> = Vec::new();
    let mut map = build_initial_map(&snapshot, &root);
    assert_eq!(get(&map, "sub"), Some(VcsStatus::Ignored));
    let tree = vec![tp(&["other.txt"], true)];
    let results = vec![None];
    apply_backfill(&mut map, &tree, &results, &root);
    assert_eq!(get(&map, "sub"), Some(VcsStatus::Ignored));
}

// ---- end-to-end over the whole pipeline ----

#[test]
fn test_pipeline_clean_and_untracked_top_level() {
    // one committed clean file, one brand-new file at top level
    let snapshot = vec![rp(&["new_file"], untracked_flags())];
    let root: Vec<String> = Vec::new();
    let mut map = build_initial_map(&snapshot, &root);
    let tree = vec![tp(&["clean_file"], true)];
    let plan = backfill_plan(&map, &tree, &root);
    assert_eq!(plan, vec![false]);
    let results = vec![None];
    apply_backfill(&mut map, &tree, &results, &root);
    assert_eq!(get(&map, "clean_file"), Some(VcsStatus::Clean));
    assert_eq!(get(&map, "new_file"), Some(VcsStatus::Untracked));
    let parent: Vec<String> = Vec::new();
    add_synthetic_entries(&mut map, true, false, false, true, false, false, &snapshot, &parent);
    // Untracked ranks above Clean and remaps to DirUntracked
    assert_eq!(get(&map, "."), Some(VcsStatus::DirUntracked));
}

#[test]
fn test_pipeline_force_added_file_in_ignored_dir_resolves_clean() {
    // .gitignore holds mydir/, and mydir/config was force-added and is clean
    let snapshot = vec![
        rp(&[".gitignore"], clean_flags()),
        rp(&["mydir"], ignored_flags()),
    ];
    let root: Vec<String> = Vec::new();
    let mut map = build_initial_map(&snapshot, &root);
    let tree = vec![tp(&[".gitignore"], true), tp(&["mydir", "config"], true)];
    let plan = backfill_plan(&map, &tree, &root);
    assert_eq!(plan, vec![false, true]);
    let results = vec![None, Some(clean_flags())];
    apply_backfill(&mut map, &tree, &results, &root);
    assert_eq!(get(&map, "mydir"), Some(VcsStatus::Clean));
}

use kk::colors::FileColors;
use kk::entry::FileEntry;
use kk::format::{
    ColumnWidths, color_for_age, color_for_size, format_entry, format_vcs_marker, human_readable,
    render_entries, u64_to_dec,
};
use kk::status::VcsStatus;
use kk::status_map::StatusMap;

fn make_entry(name: &str, size: u64, mtime: i64, is_dir: bool) -> FileEntry {
    let mode = if is_dir { 0o040755 } else { 0o100644 };
    FileEntry {
        path: name.to_string(),
        display_name: name.to_string(),
        mode,
        nlinks: 1,
        owner: "user".to_string(),
        group: "staff".to_string(),
        size,
        mtime,
        atime: mtime,
        ctime: mtime,
        blocks: 0,
        symlink_target: None,
        permission_string: "-rw-r--r--".to_string(),
    }
}

// ---- human_readable tests ----

#[test]
fn test_human_readable_zero() {
    assert_eq!(human_readable(0, false), "0");
}

#[test]
fn test_human_readable_below_base() {
    assert_eq!(human_readable(512, false), "512");
    assert_eq!(human_readable(1023, false), "1023");
}

#[test]
fn test_human_readable_kilobytes() {
    assert_eq!(human_readable(1024, false), "1K");
    assert_eq!(human_readable(2048, false), "2K");
}

#[test]
fn test_human_readable_megabytes() {
    assert_eq!(human_readable(1048576, false), "1M");
}

#[test]
fn test_human_readable_gigabytes() {
    assert_eq!(human_readable(1073741824, false), "1G");
}

#[test]
fn test_human_readable_si_mode() {
    assert_eq!(human_readable(999, true), "999");
    assert_eq!(human_readable(1000, true), "1K");
    assert_eq!(human_readable(1000000, true), "1M");
}

#[test]
fn test_human_readable_ceiling() {
    // 1025 bytes → should ceil to 2K (not 1K)
    assert_eq!(human_readable(1025, false), "2K");
}

#[test]
fn test_u64_to_dec_digits() {
    assert_eq!(u64_to_dec(0), "0");
    assert_eq!(u64_to_dec(7), "7");
    assert_eq!(u64_to_dec(42), "42");
    assert_eq!(u64_to_dec(1234567890), "1234567890");
    assert_eq!(u64_to_dec(u64::MAX), "18446744073709551615");
}

// ---- color_for_size tests ----

#[test]
fn test_color_for_size_zero() {
    assert_eq!(color_for_size(0), 46);
}

#[test]
fn test_color_for_size_boundaries() {
    assert_eq!(color_for_size(1024), 46); // <= 1024
    assert_eq!(color_for_size(1025), 82); // <= 2048
    assert_eq!(color_for_size(2048), 82); // <= 2048
    assert_eq!(color_for_size(2049), 118); // <= 3072
}

#[test]
fn test_color_for_size_large() {
    assert_eq!(color_for_size(524288), 202); // last threshold
    assert_eq!(color_for_size(524289), 196); // beyond all thresholds
    assert_eq!(color_for_size(10_000_000), 196);
}

// ---- color_for_age tests ----

#[test]
fn test_color_for_age_future() {
    assert_eq!(color_for_age(-1), 196); // future timestamp
}

#[test]
fn test_color_for_age_recent() {
    assert_eq!(color_for_age(0), 255); // just now (< 60)
    assert_eq!(color_for_age(59), 255); // still < 60
}

#[test]
fn test_color_for_age_minutes() {
    assert_eq!(color_for_age(60), 252); // 1 minute (< 3600)
    assert_eq!(color_for_age(3599), 252); // still < 3600
}

#[test]
fn test_color_for_age_hours() {
    assert_eq!(color_for_age(3600), 250); // 1 hour (< 86400)
}

#[test]
fn test_color_for_age_ancient() {
    assert_eq!(color_for_age(100_000_000), 236); // very old
}

// ---- format_vcs_marker tests ----

#[test]
fn test_vcs_marker_clean() {
    let m = format_vcs_marker(&VcsStatus::Clean);
    assert!(m.contains('|'), "Clean should be |");
    assert!(m.contains("82"), "Clean should be green (82)");
}

#[test]
fn test_vcs_marker_staged() {
    let m = format_vcs_marker(&VcsStatus::Staged);
    assert!(m.contains('+'), "Staged should be +");
    assert!(m.contains("82"), "Staged should be green (82)");
}

#[test]
fn test_vcs_marker_worktree_changed() {
    let m = format_vcs_marker(&VcsStatus::WorkTreeChanged);
    assert!(m.contains('+'), "WorkTreeChanged should be +");
    assert!(m.contains("196"), "WorkTreeChanged should be red (196)");
}

#[test]
fn test_vcs_marker_both_changed() {
    let m = format_vcs_marker(&VcsStatus::BothChanged);
    assert!(m.contains('+'), "BothChanged should be +");
    assert!(m.contains("214"), "BothChanged should be orange (214)");
}

#[test]
fn test_vcs_marker_dir_changed() {
    let m = format_vcs_marker(&VcsStatus::DirChanged);
    assert!(m.contains('+'), "DirChanged should be +");
    assert!(m.contains("226"), "DirChanged should be yellow (226)");
}

#[test]
fn test_vcs_marker_untracked() {
    let m = format_vcs_marker(&VcsStatus::Untracked);
    assert!(m.contains('?'), "Untracked should be ?");
    assert!(m.contains("196"), "Untracked should be red (196)");
}

#[test]
fn test_vcs_marker_dir_untracked() {
    let m = format_vcs_marker(&VcsStatus::DirUntracked);
    assert!(m.contains('?'), "DirUntracked should be ?");
    assert!(m.contains("226"), "DirUntracked should be yellow (226)");
}

#[test]
fn test_vcs_marker_dir_empty_untracked() {
    let m = format_vcs_marker(&VcsStatus::DirEmptyUntracked);
    assert!(m.contains('?'), "DirEmptyUntracked should be ?");
    assert!(m.contains("238"), "DirEmptyUntracked should be dim (238)");
}

#[test]
fn test_vcs_marker_ignored() {
    let m = format_vcs_marker(&VcsStatus::Ignored);
    assert!(m.contains('|'), "Ignored should be |");
    assert!(m.contains("238"), "Ignored should be dim (238)");
}

#[test]
fn test_vcs_marker_none() {
    let m = format_vcs_marker(&VcsStatus::Absent);
    assert_eq!(m, "  ", "outside a repository the marker is two spaces");
}

// ---- column widths and rendered lines ----

#[test]
fn test_column_widths_cover_entries() {
    let entries = vec![
        make_entry("short", 5, 0, false),
        make_entry("much_longer_name", 123456, 0, false),
    ];
    let (widths, size_strings) = ColumnWidths::compute(&entries, false, false);
    assert_eq!(size_strings, vec!["5".to_string(), "123456".to_string()]);
    assert_eq!(widths.size, 6);
    assert_eq!(widths.perms, 10);
    assert_eq!(widths.nlinks, 1);
    assert_eq!(widths.owner, 4);
    assert_eq!(widths.group, 5);
}

#[test]
fn test_format_entry_line_contents() {
    let entry = make_entry("hello.txt", 42, 1000, false);
    let widths = ColumnWidths { perms: 10, nlinks: 2, owner: 4, group: 5, size: 4 };
    let colors = FileColors::new();
    let line = format_entry(
        &entry,
        &widths,
        &"42".to_string(),
        &colors,
        Some(&VcsStatus::Clean),
        &" 1 Jan   00:16".to_string(),
        2000,
    );
    assert!(line.contains("-rw-r--r--"));
    assert!(line.contains("  42"), "size is right-aligned to its width");
    assert!(line.contains("hello.txt"));
    assert!(line.contains('|'), "the clean marker is shown");
    assert!(line.contains(" 1 Jan   00:16"));
}

#[test]
fn test_format_entry_symlink_target() {
    let mut entry = make_entry("link", 0, 0, false);
    entry.mode = 0o120777;
    entry.symlink_target = Some("target/path".to_string());
    let widths = ColumnWidths { perms: 10, nlinks: 1, owner: 4, group: 5, size: 1 };
    let colors = FileColors::new();
    let line = format_entry(&entry, &widths, &"0".to_string(), &colors, None, &"d".to_string(), 0);
    assert!(line.ends_with(" -> target/path"));
}

#[test]
fn test_render_entries_uses_status_map() {
    let entries = vec![make_entry("a.txt", 1, 0, false), make_entry("b.txt", 2, 0, false)];
    let mut map = StatusMap::new();
    map.set("a.txt".to_string(), VcsStatus::Untracked);
    let colors = FileColors::new();
    let dates = vec!["d1".to_string(), "d2".to_string()];
    let lines = render_entries(&entries, &colors, Some(&map), false, false, &dates, 0);
    assert_eq!(lines.len(), 2);
    assert!(lines[0].contains('?'), "a.txt is untracked");
    // b.txt has no entry: it renders with the two-space blank marker
    assert!(!lines[1].contains('?'));
    assert!(!lines[1].contains('|'));
}

#[test]
fn test_format_date_parts_recent_and_old() {
    let day = " 1".to_string();
    let month = "Jan".to_string();
    let hhmm = "00:16".to_string();
    let year = "1970".to_string();
    // younger than six months: day, month padded to five, HH:MM
    assert_eq!(
        kk::format::format_date_parts(&day, &month, &hhmm, &year, 0),
        " 1 Jan   00:16"
    );
    // older: day, month padded to six, year
    assert_eq!(
        kk::format::format_date_parts(&day, &month, &hhmm, &year, 20_000_000),
        " 1 Jan    1970"
    );
}

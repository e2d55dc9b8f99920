use kk::cli::{Args, resolve_targets};

fn default_args() -> Args {
    Args {
        all: false,
        almost_all: false,
        human: false,
        si: false,
        directory: false,
        no_directory: false,
        reverse: false,
        sort_size: false,
        sort_time: false,
        sort_ctime: false,
        sort_atime: false,
        unsorted: false,
        sort_word: None,
        no_vcs: false,
        group_dirs: false,
        help: false,
        paths: vec![],
    }
}

#[test]
fn test_validate_ok_default() {
    assert!(default_args().validate().is_ok());
}

#[test]
fn test_validate_ok_with_flags() {
    let mut args = default_args();
    args.all = true;
    args.human = true;
    args.reverse = true;
    assert!(args.validate().is_ok());
}

#[test]
fn test_validate_conflicting_directory_flags() {
    let mut args = default_args();
    args.directory = true;
    args.no_directory = true;
    let result = args.validate();
    assert!(result.is_err());
    assert!(result.unwrap_err().contains("cannot be used together"));
}

#[test]
fn test_validate_directory_only() {
    let mut args = default_args();
    args.directory = true;
    assert!(args.validate().is_ok());
}

#[test]
fn test_validate_no_directory_only() {
    let mut args = default_args();
    args.no_directory = true;
    assert!(args.validate().is_ok());
}

// ---- resolve_targets tests ----

#[test]
fn test_targets_empty_lists_current_directory() {
    let paths: Vec<String> = vec![];
    let flags: Vec<bool> = vec![];
    let (dirs, files) = resolve_targets(&paths, &flags, false);
    assert_eq!(dirs, vec![".".to_string()]);
    assert!(files.is_empty());
}

#[test]
fn test_targets_directories_kept_in_order() {
    let paths = vec!["b".to_string(), "a".to_string()];
    let flags = vec![true, true];
    let (dirs, files) = resolve_targets(&paths, &flags, false);
    assert_eq!(dirs, vec!["b".to_string(), "a".to_string()]);
    assert!(files.is_empty());
}

#[test]
fn test_targets_file_argument_adds_dot_once() {
    let paths = vec!["d".to_string(), "f1".to_string(), "f2".to_string()];
    let flags = vec![true, false, false];
    let (dirs, files) = resolve_targets(&paths, &flags, false);
    assert_eq!(dirs, vec![".".to_string(), "d".to_string()]);
    assert_eq!(files, vec!["f1".to_string(), "f2".to_string()]);
}

#[test]
fn test_targets_directory_flag_sends_everything_to_files() {
    let paths = vec!["d1".to_string(), "f1".to_string()];
    let flags = vec![true, false];
    let (dirs, files) = resolve_targets(&paths, &flags, true);
    assert_eq!(dirs, vec![".".to_string()]);
    assert_eq!(files, vec!["d1".to_string(), "f1".to_string()]);
}

// ---- keep_entry tests ----

#[test]
fn test_keep_entry_hidden_names_need_all() {
    let mut args = default_args();
    assert!(!kk::cli::keep_entry(&".hidden".to_string(), false, &args));
    args.all = true;
    assert!(kk::cli::keep_entry(&".hidden".to_string(), false, &args));
    args.all = false;
    args.almost_all = true;
    assert!(kk::cli::keep_entry(&".hidden".to_string(), false, &args));
}

#[test]
fn test_keep_entry_directory_filters() {
    let mut args = default_args();
    args.directory = true;
    assert!(kk::cli::keep_entry(&"d".to_string(), true, &args));
    assert!(!kk::cli::keep_entry(&"f".to_string(), false, &args));

    let mut args2 = default_args();
    args2.no_directory = true;
    assert!(!kk::cli::keep_entry(&"d".to_string(), true, &args2));
    assert!(kk::cli::keep_entry(&"f".to_string(), false, &args2));
}

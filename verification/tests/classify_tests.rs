use bank::classify::classify;
use bank::classify::path_ends_with_separator;
use bank::classify::path_has_extension;
use bank::classify::selection_kind;
use bank::classify::ClassifyOutcome;
use bank::classify::TargetKind;

fn decided(r: ClassifyOutcome) -> TargetKind {
    match r {
        ClassifyOutcome::Decided(k) => k,
        ClassifyOutcome::NeedsChoice => panic!("expected a settled classification"),
    }
}

#[test]
fn test_determine_creation_type_with_extension() {
    let creation_type = classify(false, false, None, "test.txt", false);
    match creation_type {
        ClassifyOutcome::Decided(TargetKind::File) => (),
        _ => panic!("Should be file"),
    }
}

#[test]
fn test_determine_creation_type_with_trailing_slash() {
    let creation_type = classify(false, false, None, "test_dir/", false);
    match creation_type {
        ClassifyOutcome::Decided(TargetKind::Directory) => (),
        _ => panic!("Should be directory"),
    }
}

#[test]
fn extension_yields_file() {
    assert_eq!(decided(classify(false, false, None, "report.txt", false)), TargetKind::File);
    assert_eq!(decided(classify(false, false, None, "archive.tar.gz", true)), TargetKind::File);
    assert_eq!(decided(classify(false, false, None, "dir/inner/note.md", false)), TargetKind::File);
}

#[test]
fn separator_yields_directory() {
    assert_eq!(decided(classify(false, false, None, "data/", false)), TargetKind::Directory);
    assert_eq!(decided(classify(false, false, None, "data\\", false)), TargetKind::Directory);
    assert_eq!(decided(classify(false, false, None, "a/b/", true)), TargetKind::Directory);
}

#[test]
fn existing_kind_overrides_heuristics() {
    assert_eq!(
        decided(classify(false, false, Some(TargetKind::Directory), "looks_like.txt", false)),
        TargetKind::Directory
    );
    assert_eq!(
        decided(classify(false, false, Some(TargetKind::File), "looks_like_dir/", false)),
        TargetKind::File
    );
}

#[test]
fn explicit_flags_win() {
    assert_eq!(
        decided(classify(true, false, Some(TargetKind::File), "x.txt", false)),
        TargetKind::Directory
    );
    assert_eq!(
        decided(classify(false, true, Some(TargetKind::Directory), "d/", false)),
        TargetKind::File
    );
}

#[test]
fn hidden_file_has_no_extension() {
    assert!(!path_has_extension(".gitignore"));
    assert!(path_has_extension(".config.yml"));
    assert!(!path_has_extension("trailing_dot."));
    assert!(!path_has_extension("plain"));
    assert!(path_has_extension("dir.d/file.txt"));
    assert!(!path_has_extension("dir.d/plain"));
    assert!(path_has_extension("a.txt//"));
}

#[test]
fn separator_probe() {
    assert!(path_ends_with_separator("x/"));
    assert!(path_ends_with_separator("x\\"));
    assert!(!path_ends_with_separator("x"));
    assert!(!path_ends_with_separator(""));
}

#[test]
fn ambiguous_paths() {
    assert_eq!(decided(classify(false, false, None, "plain", false)), TargetKind::File);
    assert_eq!(classify(false, false, None, "plain", true), ClassifyOutcome::NeedsChoice);
    assert_eq!(selection_kind(0), TargetKind::File);
    assert_eq!(selection_kind(1), TargetKind::Directory);
}

use bank::classify::classify;
use bank::classify::ClassifyOutcome;
use bank::classify::TargetKind;
use bank::errors::ParseError;
use bank::errors::ValidationError;
use bank::mode::parse_mode;
use bank::options::select_time_source;
use bank::options::validate_options;
use bank::options::Options;
use bank::options::TimeSource;
use bank::plan::directory_create_step;
use bank::plan::file_create_step;
use bank::plan::plan_path;
use bank::plan::CreateStep;
use bank::plan::PathAction;

fn default_options() -> Options {
    Options {
        directory: false,
        file: false,
        parents: false,
        mode: None,
        interactive: false,
        verbose: false,
        no_create: false,
        date: None,
        timestamp: None,
        reference: None,
        access_time_only: false,
        modification_time_only: false,
        no_dereference: false,
    }
}

#[test]
fn test_argument_validation() {
    let mut args = default_options();

    assert!(validate_options(&args).is_ok());

    args.directory = true;
    args.file = true;
    assert!(validate_options(&args).is_err());

    args = default_options();
    args.access_time_only = true;
    args.modification_time_only = true;
    assert!(validate_options(&args).is_err());

    args = default_options();
    args.date = Some("2023-01-01".to_string());
    args.timestamp = Some("202301011200".to_string());
    assert!(validate_options(&args).is_err());
}

#[test]
fn validation_error_kinds() {
    let mut o = default_options();
    o.directory = true;
    o.file = true;
    assert_eq!(validate_options(&o), Err(ValidationError::ConflictingKindFlags));

    let mut o = default_options();
    o.timestamp = Some("202301011200".to_string());
    o.reference = Some("other".to_string());
    assert_eq!(validate_options(&o), Err(ValidationError::MultipleTimeSources));

    let mut o = default_options();
    o.date = Some("2023-01-01".to_string());
    o.timestamp = Some("202301011200".to_string());
    o.reference = Some("other".to_string());
    assert_eq!(validate_options(&o), Err(ValidationError::MultipleTimeSources));

    let mut o = default_options();
    o.access_time_only = true;
    o.modification_time_only = true;
    assert_eq!(validate_options(&o), Err(ValidationError::ConflictingTimeFlags));
}

#[test]
fn single_time_source_validates() {
    let mut o = default_options();
    o.date = Some("2023-01-01".to_string());
    assert!(validate_options(&o).is_ok());

    let mut o = default_options();
    o.reference = Some("r".to_string());
    o.access_time_only = true;
    assert!(validate_options(&o).is_ok());
}

#[test]
fn scenario_plain_file_creation() {
    let o = default_options();
    let kind = match classify(false, false, None, "report.txt", false) {
        ClassifyOutcome::Decided(k) => k,
        ClassifyOutcome::NeedsChoice => panic!("not interactive"),
    };
    assert_eq!(kind, TargetKind::File);
    let p = plan_path(&o, false, Some(kind));
    assert_eq!(p.action, PathAction::Create(TargetKind::File));
    assert!(!p.create_parents);
    assert!(!p.apply_times);
    assert!(!p.apply_mode);
    assert_eq!(file_create_step(false), CreateStep::CreateNew);
}

#[test]
fn scenario_plain_directory_creation() {
    let o = default_options();
    let kind = match classify(false, false, None, "data/", false) {
        ClassifyOutcome::Decided(k) => k,
        ClassifyOutcome::NeedsChoice => panic!("not interactive"),
    };
    assert_eq!(kind, TargetKind::Directory);
    let p = plan_path(&o, false, Some(kind));
    assert_eq!(p.action, PathAction::Create(TargetKind::Directory));
    assert_eq!(directory_create_step(false, false), Ok(CreateStep::CreateNew));
}

#[test]
fn no_create_mode_planning() {
    let mut o = default_options();
    o.no_create = true;

    let p = plan_path(&o, true, None);
    assert_eq!(p.action, PathAction::UpdateTimestamps);
    assert!(p.apply_times);
    assert!(!p.apply_mode);

    let p = plan_path(&o, false, None);
    assert_eq!(p.action, PathAction::SkipMissing);
    assert!(!p.create_parents);
    assert!(!p.apply_times);
    assert!(!p.apply_mode);
}

#[test]
fn plan_applies_requested_steps() {
    let mut o = default_options();
    o.parents = true;
    o.mode = Some("755".to_string());
    o.timestamp = Some("202312251530".to_string());
    let p = plan_path(&o, false, Some(TargetKind::File));
    assert!(p.create_parents);
    assert!(p.apply_times);
    assert!(p.apply_mode);

    let mut o = default_options();
    o.modification_time_only = true;
    let p = plan_path(&o, true, Some(TargetKind::File));
    assert!(p.apply_times);
}

#[test]
fn create_steps_on_existing_paths() {
    assert_eq!(file_create_step(true), CreateStep::AlreadyPresent);
    assert_eq!(directory_create_step(true, true), Ok(CreateStep::AlreadyPresent));
    assert!(directory_create_step(true, false).is_err());
}

#[test]
fn time_source_priority() {
    let mut o = default_options();
    assert!(matches!(select_time_source(&o), TimeSource::CurrentTime));

    o.timestamp = Some("202312251530".to_string());
    assert!(matches!(select_time_source(&o), TimeSource::CompactStamp(_)));

    o.date = Some("2023-12-25".to_string());
    assert!(matches!(select_time_source(&o), TimeSource::DateString(_)));

    o.reference = Some("ref.txt".to_string());
    match select_time_source(&o) {
        TimeSource::ReferenceFile(p) => assert_eq!(p, "ref.txt"),
        _ => panic!("reference file should win"),
    }
}

#[test]
fn octal_mode_parsing() {
    assert_eq!(parse_mode("755"), Ok(0o755));
    assert_eq!(parse_mode("0644"), Ok(0o644));
    assert_eq!(parse_mode("000777"), Ok(0o777));
    assert_eq!(parse_mode("37777777777"), Ok(u32::MAX));
    assert_eq!(parse_mode(""), Err(ParseError::BadMode));
    assert_eq!(parse_mode("8"), Err(ParseError::BadMode));
    assert_eq!(parse_mode("75a"), Err(ParseError::BadMode));
    assert_eq!(parse_mode("40000000000"), Err(ParseError::BadMode));
    assert_eq!(parse_mode("777777777777777"), Err(ParseError::BadMode));
}

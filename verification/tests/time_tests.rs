use bank::calendar::fields_to_epoch;
use bank::calendar::DateTimeFields;
use bank::datestr::parse_date_string;
use bank::errors::ParseError;
use bank::errors::ResolveError;
use bank::options::TimeSource;
use bank::resolve::resolve;
use bank::resolve::resolve_reference;
use bank::resolve::RefProbe;
use bank::stamp::parse_compact_stamp;
use bank::stamp::parse_timestamp_format;
use bank::timespec::derive_application;
use bank::timespec::effective_times;
use bank::timespec::times_route;
use bank::timespec::TimesRoute;

#[test]
fn test_date_parsing() {
    let result = parse_date_string("2023-12-25 15:30:00");
    assert!(result.is_ok());

    let result = parse_date_string("2023-12-25");
    assert!(result.is_ok());

    let result = parse_date_string("invalid-date");
    assert!(result.is_err());
}

#[test]
fn test_timestamp_parsing() {
    let result = parse_timestamp_format("202312251530", 2025);
    assert!(result.is_ok());

    let result = parse_timestamp_format("202312251530.45", 2025);
    assert!(result.is_ok());

    let result = parse_timestamp_format("invalid", 2025);
    assert!(result.is_err());
}

#[test]
fn date_string_exact_values() {
    assert_eq!(parse_date_string("2023-12-25 15:30:00"), Ok(1703518200));
    assert_eq!(parse_date_string("2023-12-25 15:30"), Ok(1703518200));
    assert_eq!(parse_date_string("2023-12-25"), Ok(1703462400));
    assert_eq!(parse_date_string("12/25/2023 15:30:00"), Ok(1703518200));
    assert_eq!(parse_date_string("12/25/2023"), Ok(1703462400));
    assert_eq!(parse_date_string("25.12.2023 15:30:45"), Ok(1703518245));
    assert_eq!(parse_date_string("25.12.2023"), Ok(1703462400));
    assert_eq!(parse_date_string("12/25/2023 15:30"), Ok(1703518200));
    assert_eq!(parse_date_string("2023-1-5"), Ok(1672876800));
    assert_eq!(parse_date_string("1.2.2003"), Ok(1044057600));
    assert_eq!(parse_date_string("1970-01-01"), Ok(0));
}

#[test]
fn date_string_rejections() {
    assert_eq!(parse_date_string("2023-13-01"), Err(ParseError::UnrecognizedDate));
    assert_eq!(parse_date_string("2023-02-29"), Err(ParseError::UnrecognizedDate));
    assert_eq!(parse_date_string("2023-12-25 24:00"), Err(ParseError::UnrecognizedDate));
    assert_eq!(parse_date_string(""), Err(ParseError::UnrecognizedDate));
    assert_eq!(parse_date_string("2023-12"), Err(ParseError::UnrecognizedDate));
    assert_eq!(parse_date_string("23-12-25"), Err(ParseError::UnrecognizedDate));
}

#[test]
fn compact_stamp_lengths() {
    let f = parse_compact_stamp("12251530", 2024).unwrap();
    assert_eq!(
        f,
        DateTimeFields { year: 2024, month: 12, day: 25, hour: 15, minute: 30, second: 0 }
    );

    let f = parse_compact_stamp("2312251530", 2024).unwrap();
    assert_eq!(f.year, 2023);

    let f = parse_compact_stamp("202312251530.45", 2024).unwrap();
    assert_eq!(
        f,
        DateTimeFields { year: 2023, month: 12, day: 25, hour: 15, minute: 30, second: 45 }
    );
}

#[test]
fn compact_stamp_round_trip_concrete() {
    let f = parse_compact_stamp("199904051234", 2025).unwrap();
    assert_eq!(
        f,
        DateTimeFields { year: 1999, month: 4, day: 5, hour: 12, minute: 34, second: 0 }
    );
    let again = parse_compact_stamp("199904051234", 1999).unwrap();
    assert_eq!(f, again);
}

#[test]
fn two_digit_year_pivot_boundary() {
    let f = parse_compact_stamp("7001010000", 2025).unwrap();
    assert_eq!(f.year, 1970);
    assert_eq!(parse_timestamp_format("7001010000", 2025), Ok(0));

    let f = parse_compact_stamp("6901010000", 2025).unwrap();
    assert_eq!(f.year, 2069);

    let f = parse_compact_stamp("9912312359", 2025).unwrap();
    assert_eq!(f.year, 1999);
}

#[test]
fn compact_stamp_errors() {
    assert_eq!(parse_compact_stamp("1234567", 2025), Err(ParseError::BadStampLength { len: 7 }));
    assert_eq!(
        parse_compact_stamp("1234567890123", 2025),
        Err(ParseError::BadStampLength { len: 13 })
    );
    assert_eq!(parse_compact_stamp("12a45678", 2025), Err(ParseError::NotNumeric));
    assert_eq!(parse_compact_stamp("12345678.1.2", 2025), Err(ParseError::NotNumeric));
    assert_eq!(parse_compact_stamp("12345678.", 2025), Err(ParseError::NotNumeric));
    assert_eq!(parse_compact_stamp("12345678.x", 2025), Err(ParseError::NotNumeric));
    assert_eq!(
        parse_compact_stamp("202313251530", 2025),
        Err(
            ParseError::InvalidDateTime {
                year: 2023,
                month: 13,
                day: 25,
                hour: 15,
                minute: 30,
                second: 0,
            }
        )
    );
    assert_eq!(
        parse_compact_stamp("202302291000", 2025),
        Err(
            ParseError::InvalidDateTime {
                year: 2023,
                month: 2,
                day: 29,
                hour: 10,
                minute: 0,
                second: 0,
            }
        )
    );
    assert!(parse_compact_stamp("202312251530.75", 2025).is_err());
}

#[test]
fn leap_year_handling() {
    assert!(parse_compact_stamp("202402291000", 2025).is_ok());
    assert!(parse_compact_stamp("210002291000", 2025).is_err());
    assert!(parse_compact_stamp("200002291000", 2025).is_ok());
}

#[test]
fn epoch_conversion_exact() {
    let f = DateTimeFields { year: 1970, month: 1, day: 1, hour: 0, minute: 0, second: 0 };
    assert_eq!(fields_to_epoch(&f), 0);
    let f = DateTimeFields { year: 2023, month: 12, day: 25, hour: 15, minute: 30, second: 0 };
    assert_eq!(fields_to_epoch(&f), 1703518200);
    let f = DateTimeFields { year: 1969, month: 12, day: 31, hour: 23, minute: 59, second: 59 };
    assert_eq!(fields_to_epoch(&f), -1);
}

#[test]
fn timestamp_scenario_both_fields_set() {
    let t = parse_timestamp_format("202312251530", 2025).unwrap();
    assert_eq!(t, 1703518200);
    let app = derive_application(Some(t), 99, false, false);
    assert_eq!(app.access, Some(1703518200));
    assert_eq!(app.modification, Some(1703518200));
}

#[test]
fn mtime_only_preserves_access() {
    let app = derive_application(Some(1703518200), 7, false, true);
    assert_eq!(app.access, None);
    let (a, m) = effective_times(&app, 555, 666);
    assert_eq!(a, 555);
    assert_eq!(m, 1703518200);
}

#[test]
fn atime_only_preserves_modification() {
    let app = derive_application(Some(1703518200), 7, true, false);
    let (a, m) = effective_times(&app, 555, 666);
    assert_eq!(a, 1703518200);
    assert_eq!(m, 666);
}

#[test]
fn no_source_uses_now() {
    let app = derive_application(None, 424242, false, false);
    let (a, m) = effective_times(&app, 1, 2);
    assert_eq!(a, 424242);
    assert_eq!(m, 424242);
}

#[test]
fn resolve_sources() {
    assert_eq!(resolve(&TimeSource::CurrentTime, None, 2025), Ok(None));
    assert_eq!(
        resolve(&TimeSource::DateString("2023-12-25".to_string()), None, 2025),
        Ok(Some(1703462400))
    );
    assert_eq!(
        resolve(&TimeSource::CompactStamp("202312251530".to_string()), None, 2025),
        Ok(Some(1703518200))
    );
    assert_eq!(
        resolve(&TimeSource::ReferenceFile("ref".to_string()), Some(RefProbe::ModifiedAt(42)), 2025),
        Ok(Some(42))
    );
    assert_eq!(
        resolve(&TimeSource::ReferenceFile("ref".to_string()), Some(RefProbe::Missing), 2025),
        Err(ResolveError::ReferenceNotFound)
    );
    assert_eq!(
        resolve(&TimeSource::ReferenceFile("ref".to_string()), Some(RefProbe::Unreadable), 2025),
        Err(ResolveError::ReferenceIo)
    );
    assert_eq!(
        resolve(&TimeSource::DateString("nonsense".to_string()), None, 2025),
        Err(ResolveError::Parse(ParseError::UnrecognizedDate))
    );
    assert_eq!(resolve_reference(&RefProbe::ModifiedAt(-5)), Ok(-5));
}

#[test]
fn symlink_route() {
    assert_eq!(times_route(true, true), TimesRoute::LinkItself);
    assert_eq!(times_route(true, false), TimesRoute::Target);
    assert_eq!(times_route(false, true), TimesRoute::Target);
    assert_eq!(times_route(false, false), TimesRoute::Target);
}

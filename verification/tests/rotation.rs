use loggit::helper::Clock;
use loggit::logger::file_handler::file_manager::{
    CompressFileError, CompressionType, CreateNewFileError, FileAction, FileEvent, FileManager,
    FileManagerFromStringError, Rotation, RotationOutcome, RotationReport, RotationType,
    VerifyConstraintsError, VerifyConstraintsRes, WriteOutcome, WritePhase,
};
use loggit::logger::file_handler::file_formatter::FileFormatterTryFromStringError;
use loggit::logger::file_handler::file_name::FileNameFromFileFormatterError;
use loggit::Level;

fn clock(unix: u64, local_hour: u32, local_minute: u32) -> Clock {
    Clock {
        unix,
        local_hour,
        local_minute,
        day: 28,
        month: 10,
        year: 2026,
        hour: 9,
        minute: 8,
        second: 7,
    }
}

fn manager(template: &str) -> FileManager {
    FileManager::init_from_string_at(template, Level::INFO, "9:8:7", "28-10-2026").unwrap()
}

#[test]
fn size_rules() {
    assert_eq!(RotationType::try_from_string("1 KB"), Some(RotationType::Size(1024)));
    assert_eq!(RotationType::try_from_string("500 MB"), Some(RotationType::Size(524288000)));
    assert_eq!(RotationType::try_from_string("1 GB"), Some(RotationType::Size(1073741824)));
    assert_eq!(RotationType::try_from_string("2 TB"), Some(RotationType::Size(2199023255552)));
    assert_eq!(RotationType::try_from_string("0 KB"), Some(RotationType::Size(0)));
    assert_eq!(RotationType::try_from_string("+5 KB"), Some(RotationType::Size(5120)));
    assert_eq!(RotationType::try_from_string("5KB"), None);
    assert_eq!(RotationType::try_from_string("5 kb"), None);
    assert_eq!(RotationType::try_from_string(" KB"), None);
    assert_eq!(RotationType::try_from_string("5  KB"), None);
    assert_eq!(RotationType::try_from_string("-5 KB"), None);
    assert_eq!(RotationType::try_from_string("1.5 MB"), None);
    assert_eq!(RotationType::try_from_string("5 PB"), None);
}

#[test]
fn period_rules() {
    assert_eq!(RotationType::try_from_string("1 hour"), Some(RotationType::Period(3600)));
    assert_eq!(RotationType::try_from_string("2 day"), Some(RotationType::Period(172800)));
    assert_eq!(RotationType::try_from_string("33 week"), Some(RotationType::Period(19958400)));
    assert_eq!(RotationType::try_from_string("6 month"), Some(RotationType::Period(15552000)));
    assert_eq!(RotationType::try_from_string("12 year"), Some(RotationType::Period(378432000)));
    assert_eq!(RotationType::try_from_string("1 days"), None);
    assert_eq!(RotationType::try_from_string("1 Hour"), None);
    assert_eq!(RotationType::try_from_string("hour"), None);
    assert_eq!(RotationType::try_from_string("1 minute"), None);
    assert_eq!(RotationType::try_from_string(""), None);
    assert_eq!(RotationType::try_from_string("invalid rotation"), None);
}

#[test]
fn rules_too_large_for_64_bits_are_refused() {
    assert_eq!(RotationType::try_from_string("16777215 TB"), Some(RotationType::Size(18446742974197923840)));
    assert_eq!(RotationType::try_from_string("16777216 TB"), None);
    assert_eq!(RotationType::try_from_string("18446744073709551615 KB"), None);
    assert_eq!(RotationType::try_from_string("18446744073709551616 KB"), None);
    assert_eq!(RotationType::try_from_string("584942417356 year"), None);
    assert_eq!(
        RotationType::try_from_string("584942417355 year"),
        Some(RotationType::Period(18446744073707280000))
    );
}

#[test]
fn time_of_day_rules() {
    assert_eq!(RotationType::try_from_string("12:30"), Some(RotationType::Time(12, 30)));
    assert_eq!(RotationType::try_from_string("00:00"), Some(RotationType::Time(0, 0)));
    assert_eq!(RotationType::try_from_string("23:59"), Some(RotationType::Time(23, 59)));
    assert_eq!(RotationType::try_from_string("7:5"), Some(RotationType::Time(7, 5)));
    assert_eq!(RotationType::try_from_string("24:00"), None);
    assert_eq!(RotationType::try_from_string("12:60"), None);
    assert_eq!(RotationType::try_from_string("12:30:00"), None);
    assert_eq!(RotationType::try_from_string("12:"), None);
    assert_eq!(RotationType::try_from_string(":30"), None);
    assert_eq!(RotationType::try_from_string(":"), None);
    assert_eq!(RotationType::try_from_string("ab:cd"), None);
    assert_eq!(RotationType::try_from_string("300:10"), None);
    assert_eq!(RotationType::try_from_string("12:30 KB"), None);
    assert_eq!(RotationType::try_from_string("1 day:"), None);
}

#[test]
fn triggers_at_the_start_of_a_cycle() {
    let at = clock(1000, 10, 0);
    assert_eq!(
        Rotation::init_from_rotation_type_at(RotationType::Period(3600), &at),
        Rotation { rotation_type: RotationType::Period(3600), next_rotation: 4600 }
    );
    assert_eq!(
        Rotation::init_from_rotation_type_at(RotationType::Size(1024), &at),
        Rotation { rotation_type: RotationType::Size(1024), next_rotation: 1024 }
    );
    // later the same day: two and a half hours from 10:00
    assert_eq!(
        Rotation::init_from_rotation_type_at(RotationType::Time(12, 30), &at).next_rotation,
        1000 + 9000
    );
    // the same minute counts as passed: the day after
    assert_eq!(
        Rotation::init_from_rotation_type_at(RotationType::Time(10, 0), &at).next_rotation,
        1000 + 86400
    );
    assert_eq!(
        Rotation::init_from_rotation_type_at(RotationType::Time(10, 1), &at).next_rotation,
        1000 + 60
    );
    assert_eq!(
        Rotation::init_from_rotation_type_at(RotationType::Time(9, 59), &at).next_rotation,
        1000 + 86400 - 60
    );
    assert_eq!(
        Rotation::init_from_rotation_type_at(RotationType::Time(0, 0), &clock(5, 23, 59))
            .next_rotation,
        5 + 60
    );
}

#[test]
fn triggers_that_do_not_fit_stay_at_the_largest_number() {
    let late = clock(u64::MAX - 10, 10, 0);
    assert_eq!(
        Rotation::init_from_rotation_type_at(RotationType::Period(11), &late).next_rotation,
        u64::MAX
    );
    assert_eq!(
        Rotation::init_from_rotation_type_at(RotationType::Period(10), &late).next_rotation,
        u64::MAX
    );
    assert_eq!(
        Rotation::init_from_rotation_type_at(RotationType::Period(9), &late).next_rotation,
        u64::MAX - 1
    );
    assert_eq!(
        Rotation::init_from_rotation_type_at(RotationType::Time(12, 0), &late).next_rotation,
        u64::MAX
    );
    assert_eq!(
        Rotation::init_from_rotation_type_at(RotationType::Period(u64::MAX), &clock(1, 0, 0))
            .next_rotation,
        u64::MAX
    );
}

#[test]
fn rules_fire_past_their_trigger_only() {
    let at = clock(5000, 10, 0);
    let period = Rotation { rotation_type: RotationType::Period(10), next_rotation: 5000 };
    assert!(!period.is_due(u64::MAX, &at));
    assert!(period.is_due(0, &clock(5001, 10, 0)));
    let time = Rotation { rotation_type: RotationType::Time(1, 1), next_rotation: 4999 };
    assert!(time.is_due(0, &at));
    let size = Rotation { rotation_type: RotationType::Size(1024), next_rotation: 1024 };
    assert!(!size.is_due(1024, &clock(u64::MAX, 0, 0)));
    assert!(size.is_due(1025, &clock(0, 0, 0)));
}

#[test]
fn cycle_at_the_clock_starts_now() {
    let before = Clock::now().unix;
    let rotation = Rotation::init_from_rotation_type(RotationType::Period(100));
    let after = Clock::now().unix;
    assert_eq!(rotation.rotation_type, RotationType::Period(100));
    assert!(before + 100 <= rotation.next_rotation && rotation.next_rotation <= after + 100);
    let daily = Rotation::init_from_rotation_type(RotationType::Time(12, 0));
    assert!(daily.next_rotation > before && daily.next_rotation <= after + 86400);
    let size = Rotation::init_from_rotation_type(RotationType::Size(7));
    assert_eq!(size.next_rotation, 7);
}

#[test]
fn compression_names() {
    assert_eq!(CompressionType::try_from_string("zip"), Some(CompressionType::Zip));
    assert_eq!(CompressionType::try_from_string("Zip"), None);
    assert_eq!(CompressionType::try_from_string("rar"), None);
    assert_eq!(CompressionType::try_from_string(""), None);
}

#[test]
fn manager_of_a_template() {
    let fm = manager("log_{date}_{time}.txt");
    assert_eq!(fm.get_file_name(), "log_28-10-2026_9:8:7.txt");
    assert_eq!(fm.retired_file_name(), None);
    assert_eq!(fm.rotations(), vec![]);
    assert_eq!(fm.compression(), None);
    assert_eq!(fm.phase(), WritePhase::Ready);
    assert_eq!(
        FileManager::init_from_string_at("a<b.txt", Level::INFO, "", "").err(),
        Some(FileManagerFromStringError::FileFormatParsingError(
            FileFormatterTryFromStringError::IncorrectCharacterGiven('<')
        ))
    );
    assert_eq!(
        FileManager::init_from_string_at("a.csv", Level::INFO, "", "").err(),
        Some(FileManagerFromStringError::FileFormatParsingError(
            FileFormatterTryFromStringError::NoFileExtensionProvided
        ))
    );
    assert_ne!(
        FileManagerFromStringError::FileNameParsingError(
            FileNameFromFileFormatterError::IncorrectFileExtension
        ),
        FileManagerFromStringError::FileFormatParsingError(
            FileFormatterTryFromStringError::NoFileExtensionProvided
        )
    );
}

#[test]
fn rules_are_added_in_order_and_refusals_change_nothing() {
    let mut fm = manager("app.log");
    let at = clock(1000, 10, 0);
    assert!(fm.add_rotation_at("1 hour", &at));
    assert!(fm.add_rotation_at("1 KB", &at));
    let two = vec![
        Rotation { rotation_type: RotationType::Period(3600), next_rotation: 4600 },
        Rotation { rotation_type: RotationType::Size(1024), next_rotation: 1024 },
    ];
    assert_eq!(fm.rotations(), two);
    assert!(!fm.add_rotation_at("invalid", &at));
    assert_eq!(fm.rotations(), two);
    assert!(!fm.add_rotation("invalid"));
    assert_eq!(fm.rotations(), two);
    assert!(!fm.set_compression("rar"));
    assert_eq!(fm.compression(), None);
    assert!(fm.set_compression("zip"));
    assert_eq!(fm.compression(), Some(CompressionType::Zip));
    assert!(!fm.set_compression("rar"));
    assert_eq!(fm.compression(), Some(CompressionType::Zip));
    fm.remove_compression();
    assert_eq!(fm.compression(), None);
    fm.remove_rotations();
    assert_eq!(fm.rotations(), vec![]);
}

#[test]
fn archive_plan() {
    let mut fm = manager("app.log");
    assert_eq!(
        fm.compress_file("app.log"),
        Err(CompressFileError::UnableToGetCompressionSettings)
    );
    fm.set_compression("zip");
    assert_eq!(
        fm.compress_file("logs/app(1).log"),
        Ok((CompressionType::Zip, "logs/app(1).log.zip".to_string()))
    );
}

#[test]
fn a_file_past_its_size_rotates_and_the_threshold_stays() {
    let mut fm = manager("app.log");
    let at = clock(1000, 10, 0);
    fm.add_rotation_at("1 KB", &at);
    fm.add_rotation_at("1 hour", &at);
    let later = clock(2000, 10, 20);
    assert_eq!(fm.should_rotate_and_advance_at(1024, &later), RotationOutcome::Keep);
    assert_eq!(fm.rotations()[1].next_rotation, 4600);
    assert_eq!(fm.should_rotate_and_advance_at(1025, &later), RotationOutcome::Rotate);
    assert_eq!(
        fm.rotations(),
        vec![
            Rotation { rotation_type: RotationType::Size(1024), next_rotation: 1024 },
            Rotation { rotation_type: RotationType::Period(3600), next_rotation: 5600 },
        ]
    );
}

#[test]
fn any_rule_that_fires_renews_every_rule() {
    let mut fm = manager("app.log");
    let at = clock(1000, 10, 0);
    fm.add_rotation_at("1 hour", &at);
    fm.add_rotation_at("2 hour", &at);
    fm.add_rotation_at("12:30", &at);
    // past the first period only
    let later = clock(4601, 11, 0);
    assert_eq!(fm.should_rotate_and_advance_at(0, &later), RotationOutcome::Rotate);
    let triggers: Vec<u64> = fm.rotations().iter().map(|r| r.next_rotation).collect();
    assert_eq!(triggers, vec![4601 + 3600, 4601 + 7200, 4601 + 5400]);
    assert_eq!(fm.should_rotate_and_advance_at(0, &later), RotationOutcome::Keep);
    // the last rule fires alone
    let mut fm = manager("app.log");
    fm.add_rotation_at("1 year", &at);
    fm.add_rotation_at("1 KB", &at);
    assert_eq!(fm.should_rotate_and_advance_at(2000, &clock(1001, 10, 0)), RotationOutcome::Rotate);
    assert_eq!(fm.rotations()[0].next_rotation, 1001 + 31536000);
    // no rule, no rotation
    let mut fm = manager("app.log");
    assert_eq!(fm.should_rotate_and_advance_at(u64::MAX, &clock(u64::MAX, 0, 0)), RotationOutcome::Keep);
    assert_eq!(fm.should_rotate_and_advance(u64::MAX), RotationOutcome::Keep);
}

#[test]
fn rotation_at_the_clock() {
    let mut fm = manager("app.log");
    assert!(fm.add_rotation("1 KB"));
    assert!(fm.add_rotation("1 day"));
    assert_eq!(fm.should_rotate_and_advance(10), RotationOutcome::Keep);
    assert_eq!(fm.should_rotate_and_advance(5000), RotationOutcome::Rotate);
    assert_eq!(fm.rotations()[0], Rotation { rotation_type: RotationType::Size(1024), next_rotation: 1024 });
}

fn passed(res: VerifyConstraintsRes, written: bool) -> FileAction {
    FileAction::Finish(WriteOutcome { rotation: RotationReport::Passed(res), written })
}

fn failed(e: VerifyConstraintsError, written: bool) -> FileAction {
    FileAction::Finish(WriteOutcome { rotation: RotationReport::Failed(e), written })
}

#[test]
fn write_without_rotation() {
    let mut fm = manager("app.log");
    let at = clock(1000, 10, 0);
    fm.add_rotation_at("1 KB", &at);
    assert_eq!(fm.write_log_at(FileEvent::Begin, Level::INFO, &at), FileAction::CheckExists);
    assert_eq!(fm.phase(), WritePhase::CheckingFile);
    assert_eq!(fm.write_log_at(FileEvent::Exists(false), Level::INFO, &at), FileAction::Create);
    assert_eq!(fm.write_log_at(FileEvent::Done, Level::INFO, &at), FileAction::Measure);
    assert_eq!(fm.write_log_at(FileEvent::Measured(0), Level::INFO, &at), FileAction::Append);
    assert_eq!(
        fm.write_log_at(FileEvent::Done, Level::INFO, &at),
        passed(VerifyConstraintsRes::ConstraintsPassed, true)
    );
    assert_eq!(fm.phase(), WritePhase::Ready);
    assert_eq!(fm.get_file_name(), "app.log");
    // the file exists now
    assert_eq!(fm.write_log_at(FileEvent::Begin, Level::INFO, &at), FileAction::CheckExists);
    assert_eq!(fm.write_log_at(FileEvent::Exists(true), Level::INFO, &at), FileAction::Measure);
    assert_eq!(fm.write_log_at(FileEvent::Measured(1024), Level::INFO, &at), FileAction::Append);
    assert_eq!(
        fm.write_log_at(FileEvent::Failed, Level::INFO, &at),
        passed(VerifyConstraintsRes::ConstraintsPassed, false)
    );
}

#[test]
fn write_with_rotation_and_archive() {
    let mut fm = manager("app_{time}.log");
    let at = clock(1000, 10, 0);
    fm.add_rotation_at("1 KB", &at);
    fm.set_compression("zip");
    assert_eq!(fm.get_file_name(), "app_9:8:7.log");
    let later = Clock { second: 9, ..at };
    fm.write_log_at(FileEvent::Begin, Level::INFO, &later);
    fm.write_log_at(FileEvent::Exists(true), Level::INFO, &later);
    assert_eq!(
        fm.write_log_at(FileEvent::Measured(2000), Level::INFO, &later),
        FileAction::CheckExists
    );
    assert_eq!(fm.phase(), WritePhase::Probing);
    assert_eq!(fm.get_file_name(), "app_9:8:9.log");
    assert_eq!(fm.retired_file_name(), Some("app_9:8:7.log".to_string()));
    assert_eq!(fm.write_log_at(FileEvent::Exists(false), Level::INFO, &later), FileAction::Create);
    assert_eq!(
        fm.write_log_at(FileEvent::Done, Level::INFO, &later),
        FileAction::Archive(CompressionType::Zip)
    );
    assert_eq!(fm.write_log_at(FileEvent::Done, Level::INFO, &later), FileAction::Delete);
    assert_eq!(fm.write_log_at(FileEvent::Done, Level::INFO, &later), FileAction::Append);
    assert_eq!(fm.retired_file_name(), None);
    assert_eq!(
        fm.write_log_at(FileEvent::Done, Level::INFO, &later),
        passed(VerifyConstraintsRes::NewFileCreated, true)
    );
    assert_eq!(fm.get_file_name(), "app_9:8:9.log");
    assert_eq!(
        fm.rotations(),
        vec![Rotation { rotation_type: RotationType::Size(1024), next_rotation: 1024 }]
    );
}

#[test]
fn write_with_rotation_without_compression_keeps_the_old_file() {
    let mut fm = manager("app_{time}.log");
    let at = clock(1000, 10, 0);
    fm.add_rotation_at("1 KB", &at);
    let later = Clock { minute: 9, ..at };
    fm.write_log_at(FileEvent::Begin, Level::INFO, &later);
    fm.write_log_at(FileEvent::Exists(true), Level::INFO, &later);
    fm.write_log_at(FileEvent::Measured(2000), Level::INFO, &later);
    fm.write_log_at(FileEvent::Exists(false), Level::INFO, &later);
    assert_eq!(fm.write_log_at(FileEvent::Done, Level::INFO, &later), FileAction::Append);
    assert_eq!(
        fm.write_log_at(FileEvent::Done, Level::INFO, &later),
        passed(VerifyConstraintsRes::NewFileCreated, true)
    );
    assert_eq!(fm.get_file_name(), "app_9:9:7.log");
}

#[test]
fn colliding_names_are_numbered() {
    let mut fm = manager("app.log");
    let at = clock(1000, 10, 0);
    fm.add_rotation_at("1 KB", &at);
    fm.write_log_at(FileEvent::Begin, Level::INFO, &at);
    fm.write_log_at(FileEvent::Exists(true), Level::INFO, &at);
    assert_eq!(fm.write_log_at(FileEvent::Measured(2000), Level::INFO, &at), FileAction::CheckExists);
    // the name expanded anew is the name of the old file
    assert_eq!(fm.get_file_name(), "app.log");
    assert_eq!(fm.write_log_at(FileEvent::Exists(true), Level::INFO, &at), FileAction::CheckExists);
    assert_eq!(fm.get_file_name(), "app(1).log");
    assert_eq!(fm.write_log_at(FileEvent::Exists(true), Level::INFO, &at), FileAction::CheckExists);
    assert_eq!(fm.get_file_name(), "app(2).log");
    assert_eq!(fm.write_log_at(FileEvent::Exists(false), Level::INFO, &at), FileAction::Create);
    assert_eq!(fm.write_log_at(FileEvent::Done, Level::INFO, &at), FileAction::Append);
    assert_eq!(fm.get_file_name(), "app(2).log");
}

#[test]
fn failures_are_reported_and_the_line_is_still_appended() {
    let at = clock(1000, 10, 0);
    let begin = |fm: &mut FileManager| {
        fm.write_log_at(FileEvent::Begin, Level::INFO, &at);
    };
    let end = |fm: &mut FileManager| fm.write_log_at(FileEvent::Done, Level::INFO, &at);

    let mut fm = manager("app_{time}.log");
    fm.add_rotation_at("1 KB", &at);
    fm.set_compression("zip");

    begin(&mut fm);
    assert_eq!(fm.write_log_at(FileEvent::Failed, Level::INFO, &at), FileAction::Append);
    assert_eq!(end(&mut fm), failed(VerifyConstraintsError::UnableToVerifyFileExistence, true));

    begin(&mut fm);
    fm.write_log_at(FileEvent::Exists(false), Level::INFO, &at);
    assert_eq!(fm.write_log_at(FileEvent::Failed, Level::INFO, &at), FileAction::Append);
    assert_eq!(end(&mut fm), failed(VerifyConstraintsError::UnableToCreateFile, true));

    begin(&mut fm);
    fm.write_log_at(FileEvent::Exists(true), Level::INFO, &at);
    assert_eq!(fm.write_log_at(FileEvent::OpenFailed, Level::INFO, &at), FileAction::Append);
    assert_eq!(end(&mut fm), failed(VerifyConstraintsError::UnableToOpenFile, true));

    begin(&mut fm);
    fm.write_log_at(FileEvent::Exists(true), Level::INFO, &at);
    assert_eq!(fm.write_log_at(FileEvent::Failed, Level::INFO, &at), FileAction::Append);
    assert_eq!(end(&mut fm), failed(VerifyConstraintsError::UnableToGetFileMetadata, true));

    // the search for a new name fails: the old file is current again
    let later = Clock { second: 30, ..at };
    begin(&mut fm);
    fm.write_log_at(FileEvent::Exists(true), Level::INFO, &later);
    fm.write_log_at(FileEvent::Measured(5000), Level::INFO, &later);
    assert_eq!(fm.get_file_name(), "app_9:8:30.log");
    assert_eq!(fm.write_log_at(FileEvent::Failed, Level::INFO, &later), FileAction::Append);
    assert_eq!(fm.get_file_name(), "app_9:8:7.log");
    assert_eq!(
        end(&mut fm),
        failed(
            VerifyConstraintsError::UnableToCreateNewFile(
                CreateNewFileError::UnableToVerifyFileExistence
            ),
            true
        )
    );

    begin(&mut fm);
    fm.write_log_at(FileEvent::Exists(true), Level::INFO, &later);
    fm.write_log_at(FileEvent::Measured(5000), Level::INFO, &later);
    fm.write_log_at(FileEvent::Exists(false), Level::INFO, &later);
    assert_eq!(fm.write_log_at(FileEvent::Failed, Level::INFO, &later), FileAction::Append);
    assert_eq!(fm.get_file_name(), "app_9:8:7.log");
    assert_eq!(
        end(&mut fm),
        failed(
            VerifyConstraintsError::UnableToCreateNewFile(CreateNewFileError::UnableToCreateFileIO),
            true
        )
    );

    // the archive fails: the new file stays current
    begin(&mut fm);
    fm.write_log_at(FileEvent::Exists(true), Level::INFO, &later);
    fm.write_log_at(FileEvent::Measured(5000), Level::INFO, &later);
    fm.write_log_at(FileEvent::Exists(false), Level::INFO, &later);
    fm.write_log_at(FileEvent::Done, Level::INFO, &later);
    assert_eq!(fm.phase(), WritePhase::Archiving);
    assert_eq!(fm.write_log_at(FileEvent::Failed, Level::INFO, &later), FileAction::Append);
    assert_eq!(fm.get_file_name(), "app_9:8:30.log");
    assert_eq!(end(&mut fm), failed(VerifyConstraintsError::UnableToCompressFile, true));

    let last = Clock { second: 31, ..at };
    begin(&mut fm);
    fm.write_log_at(FileEvent::Exists(true), Level::INFO, &last);
    fm.write_log_at(FileEvent::Measured(5000), Level::INFO, &last);
    fm.write_log_at(FileEvent::Exists(false), Level::INFO, &last);
    fm.write_log_at(FileEvent::Done, Level::INFO, &last);
    fm.write_log_at(FileEvent::Done, Level::INFO, &last);
    assert_eq!(fm.phase(), WritePhase::Deleting);
    assert_eq!(fm.write_log_at(FileEvent::Failed, Level::INFO, &last), FileAction::Append);
    assert_eq!(
        fm.write_log_at(FileEvent::Failed, Level::INFO, &last),
        failed(VerifyConstraintsError::UnableToDeleteOldLogFile, false)
    );
}

#[test]
fn numbers_count_up_while_names_are_taken() {
    let at = clock(1000, 10, 0);
    let mut fm = manager("app.log");
    fm.add_rotation_at("1 KB", &at);
    fm.write_log_at(FileEvent::Begin, Level::INFO, &at);
    fm.write_log_at(FileEvent::Exists(true), Level::INFO, &at);
    fm.write_log_at(FileEvent::Measured(5000), Level::INFO, &at);
    let mut probes: u64 = 0;
    while fm.phase() == WritePhase::Probing && probes < 3 {
        fm.write_log_at(FileEvent::Exists(true), Level::INFO, &at);
        probes += 1;
    }
    assert_eq!(fm.get_file_name(), "app(3).log");
    assert_eq!(fm.phase(), WritePhase::Probing);
}

#[test]
fn events_out_of_turn_end_the_write() {
    let at = clock(1000, 10, 0);
    let mut fm = manager("app.log");
    assert_eq!(fm.write_log_at(FileEvent::Done, Level::INFO, &at), FileAction::Rejected);
    assert_eq!(fm.write_log_at(FileEvent::Measured(1), Level::INFO, &at), FileAction::Rejected);
    assert_eq!(fm.write_log_at(FileEvent::Exists(true), Level::INFO, &at), FileAction::Rejected);
    assert_eq!(fm.write_log_at(FileEvent::Failed, Level::INFO, &at), FileAction::Rejected);
    assert_eq!(fm.write_log_at(FileEvent::OpenFailed, Level::INFO, &at), FileAction::Rejected);
    fm.write_log_at(FileEvent::Begin, Level::INFO, &at);
    assert_eq!(fm.write_log_at(FileEvent::Measured(1), Level::INFO, &at), FileAction::Rejected);
    assert_eq!(fm.phase(), WritePhase::Ready);
    // a write can begin anew at any time
    fm.write_log_at(FileEvent::Begin, Level::INFO, &at);
    fm.write_log_at(FileEvent::Exists(true), Level::INFO, &at);
    assert_eq!(fm.write_log_at(FileEvent::Begin, Level::INFO, &at), FileAction::CheckExists);
    assert_eq!(fm.phase(), WritePhase::CheckingFile);
}

#[test]
fn write_at_the_clock() {
    let mut fm = manager("app.log");
    assert_eq!(fm.write_log(FileEvent::Begin, Level::INFO), FileAction::CheckExists);
    assert_eq!(fm.write_log(FileEvent::Exists(true), Level::INFO), FileAction::Measure);
    assert_eq!(fm.write_log(FileEvent::Measured(3), Level::INFO), FileAction::Append);
    assert_eq!(
        fm.write_log(FileEvent::Done, Level::INFO),
        passed(VerifyConstraintsRes::ConstraintsPassed, true)
    );
}

#[test]
fn the_threshold_handed_over_names_the_new_file() {
    let at = clock(1000, 10, 0);
    let mut fm = manager("{level}.log");
    assert_eq!(fm.get_file_name(), "INFO.log");
    fm.add_rotation_at("1 KB", &at);
    fm.write_log_at(FileEvent::Begin, Level::ERROR, &at);
    fm.write_log_at(FileEvent::Exists(true), Level::ERROR, &at);
    fm.write_log_at(FileEvent::Measured(5000), Level::ERROR, &at);
    assert_eq!(fm.get_file_name(), "ERROR.log");
}

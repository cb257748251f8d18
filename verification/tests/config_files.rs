use loggit::logger::from_file_config::{config_file_kind, ConfigFileKind, ConfigForSerde};
use loggit::logger::set_errors::ReadFromConfigFileError;
use loggit::logger::{init, load_config_from_file};
use loggit::Config;

/// What a driver of the library hands over for a path at which no file
/// stands: the format is told by the path, and the reading fails.
fn read_config_file(path: &str) -> Result<ConfigForSerde, ReadFromConfigFileError> {
    let _kind: ConfigFileKind = config_file_kind(path)?;
    Err(ReadFromConfigFileError::ReadFileError(
        "No such file or directory (os error 2)".to_string(),
    ))
}

/// The same for an env file, whatever its extension is.
fn read_from_env_file(_path: &str) -> Result<ConfigForSerde, ReadFromConfigFileError> {
    Err(ReadFromConfigFileError::ReadFileError(
        "No such file or directory (os error 2)".to_string(),
    ))
}

#[test]
fn env_missing_file() {
    let mut config = Config::default();
    init(&mut config);
    let bogus_path = "/no/such/path/to_env_file.loggit";
    let res = load_config_from_file(&mut config, read_from_env_file(bogus_path), true);
    assert!(matches!(
        res,
        Err(ReadFromConfigFileError::ReadFileError(_))
    ));
}

#[test]
fn ini_missing_file() {
    let mut config = Config::default();
    init(&mut config);
    let bogus_path = "/no/such/path/to_ini_file.ini";
    let res = load_config_from_file(&mut config, read_config_file(bogus_path), true);
    assert!(matches!(
        res,
        Err(ReadFromConfigFileError::ReadFileError(_))
    ));
}

#[test]
fn json_missing_file() {
    let mut config = Config::default();
    init(&mut config);
    let bogus_path = "/no/such/path/to_json_file.json";
    let res = load_config_from_file(&mut config, read_config_file(bogus_path), true);
    assert!(matches!(
        res,
        Err(ReadFromConfigFileError::ReadFileError(_))
    ));
}

use loggit::helper::Clock;
use loggit::logger::file_handler::file_manager::{CompressionType, Rotation, RotationType};
use loggit::logger::from_env::{environment_keys, load_config_from_env, parse_config_from_env};
use loggit::logger::from_file_config::{
    archive_dir_to_create, config_from_env_vars, drop_mark, find_value, load_config,
    load_config_at,
    parse_config_from_env_text, parse_config_from_ini_text, parse_inter_config_from_serde_config,
    InterConfig,
};
use loggit::logger::formatter::LogFormatter;
use loggit::logger::set_errors::{
    AddRotationError, ParseConfigError, SetArchiveDirError, SetCompressionError,
    SetLevelFormattingError,
};
use loggit::Level;

fn clock() -> Clock {
    Clock {
        unix: 1000,
        local_hour: 10,
        local_minute: 0,
        day: 28,
        month: 10,
        year: 2026,
        hour: 9,
        minute: 8,
        second: 7,
    }
}

fn some(text: &str) -> Option<String> {
    Some(text.to_string())
}

#[test]
fn format_of_a_configuration_file_is_told_by_its_extension() {
    assert_eq!(config_file_kind("loggit.ini"), Ok(ConfigFileKind::Ini));
    assert_eq!(config_file_kind("my_conf.json"), Ok(ConfigFileKind::Json));
    assert_eq!(config_file_kind("/tmp/a.b/loggit.env"), Ok(ConfigFileKind::Env));
    assert_eq!(config_file_kind(".env"), Ok(ConfigFileKind::Env));
    assert_eq!(
        config_file_kind("loggit_ini_test_no_ext"),
        Err(ReadFromConfigFileError::IncorrectFileName)
    );
    assert_eq!(config_file_kind(""), Err(ReadFromConfigFileError::IncorrectFileName));
    assert_eq!(
        config_file_kind("loggit.txt"),
        Err(ReadFromConfigFileError::IncorrectFileExtension)
    );
    assert_eq!(
        config_file_kind("/no/such/path/to_env_file.loggit"),
        Err(ReadFromConfigFileError::IncorrectFileExtension)
    );
    assert_eq!(
        config_file_kind("loggit.INI"),
        Err(ReadFromConfigFileError::IncorrectFileExtension)
    );
    assert_eq!(
        config_file_kind("loggit.ini."),
        Err(ReadFromConfigFileError::IncorrectFileExtension)
    );
}

#[test]
fn ini_text_is_read_into_fields() {
    let text = "level=trace\n[Other]\ncolorized=false\n[Config]\nenabled=true\nlevel=warn\nprint_to_terminal=false\ncolorized=true\nglobal_formatting={level}: {message}\ntrace_formatting=T {message}\ndebug_formatting=D {message}\ninfo_formatting=I {message}\nwarn_formatting=W {message}\nerror_formatting=E {message}\nfile=app_{date}.txt\ncompression=zip\nrotations=1 week, 50 KB, 00:00\narchive_dir=archives_loggit\nunknown_key=value\n";
    let fields = parse_config_from_ini_text(text).unwrap();
    assert_eq!(fields.enabled, some("true"));
    assert_eq!(fields.level, some("warn"));
    assert_eq!(fields.print_to_terminal, some("false"));
    assert_eq!(fields.colorized, some("true"));
    assert_eq!(fields.global_formatting, some("{level}: {message}"));
    assert_eq!(fields.trace_formatting, some("T {message}"));
    assert_eq!(fields.debug_formatting, some("D {message}"));
    assert_eq!(fields.info_formatting, some("I {message}"));
    assert_eq!(fields.warn_formatting, some("W {message}"));
    assert_eq!(fields.error_formatting, some("E {message}"));
    assert_eq!(fields.file_name, some("app_{date}.txt"));
    assert_eq!(fields.compression, some("zip"));
    assert_eq!(
        fields.rotations,
        Some(vec!["1 week".to_string(), "50 KB".to_string(), "00:00".to_string()])
    );
    assert_eq!(fields.archive_dir, some("archives_loggit"));
}

#[test]
fn ini_text_with_few_fields() {
    let fields = parse_config_from_ini_text("[Config]\nlevel=info\nrotations=1 day\n").unwrap();
    assert_eq!(fields.level, some("info"));
    assert_eq!(fields.rotations, Some(vec!["1 day".to_string()]));
    assert_eq!(fields.enabled, None);
    assert_eq!(fields.print_to_terminal, None);
    assert_eq!(fields.colorized, None);
    assert_eq!(fields.global_formatting, None);
    assert_eq!(fields.file_name, None);
    assert_eq!(fields.compression, None);
    assert_eq!(fields.archive_dir, None);
    // the key of the template is `file`, not `file_name`
    let fields = parse_config_from_ini_text("[Config]\nfile_name=app.log\n").unwrap();
    assert_eq!(fields.file_name, None);
}

#[test]
fn ini_text_without_the_section_is_refused() {
    let missing = ReadFromConfigFileError::ParseError(
        "couldn't find Config section in the provided ini file".to_string(),
    );
    assert_eq!(parse_config_from_ini_text("").err(), Some(missing));
    let missing = ReadFromConfigFileError::ParseError(
        "couldn't find Config section in the provided ini file".to_string(),
    );
    assert_eq!(
        parse_config_from_ini_text("level=info\n[OtherSection]\nkey=val\n").err(),
        Some(missing)
    );
    assert!(matches!(
        parse_config_from_ini_text("[Config\nlevel=info\n"),
        Err(ReadFromConfigFileError::ParseError(_))
    ));
}

#[test]
fn env_text_is_read_into_fields() {
    let text = "enabled=true\nlevel=DEBUG\ncolorized=true\nglobal_formatting=\"[{level}] {message}\"\nfile=\"ok_test_app_{date}_{time}.txt\"\ncompression=zip\nrotations=\"1 day,500 MB,12:30\"\narchive_dir=\"archives_loggit\"\nother=1\n";
    let fields = parse_config_from_env_text(text).unwrap();
    assert_eq!(fields.enabled, some("true"));
    assert_eq!(fields.level, some("DEBUG"));
    assert_eq!(fields.print_to_terminal, None);
    assert_eq!(fields.colorized, some("true"));
    assert_eq!(fields.global_formatting, some("[{level}] {message}"));
    assert_eq!(fields.file_name, some("ok_test_app_{date}_{time}.txt"));
    assert_eq!(fields.compression, some("zip"));
    assert_eq!(
        fields.rotations,
        Some(vec!["1 day".to_string(), "500 MB".to_string(), "12:30".to_string()])
    );
    assert_eq!(fields.archive_dir, some("archives_loggit"));
    let none = parse_config_from_env_text("").unwrap();
    assert_eq!(none.level, None);
    assert_eq!(none.rotations, None);
}

#[test]
fn env_text_in_another_format_is_refused() {
    assert_eq!(
        parse_config_from_env_text("key with whitespace=x").err(),
        Some(ReadFromConfigFileError::ReadFileError("ParseError".to_string()))
    );
}

#[test]
fn values_among_pairs() {
    let pairs = vec![
        ("level".to_string(), "warn".to_string()),
        ("file".to_string(), "a.log".to_string()),
        ("file_name".to_string(), "b.log".to_string()),
        ("level".to_string(), "error".to_string()),
        ("enabled".to_string(), "false".to_string()),
        ("rotations".to_string(), "1 day, 2 MB".to_string()),
    ];
    assert_eq!(find_value(&pairs, "level"), some("warn"));
    assert_eq!(find_value(&pairs, "file"), some("a.log"));
    assert_eq!(find_value(&pairs, "colorized"), None);
    assert_eq!(find_value(&vec![], "level"), None);
    let of_file = config_from_env_vars(&pairs);
    assert_eq!(of_file.file_name, some("a.log"));
    assert_eq!(of_file.enabled, some("false"));
    let of_environment = parse_config_from_env(&pairs);
    assert_eq!(of_environment.file_name, some("b.log"));
    assert_eq!(of_environment.enabled, None);
    assert_eq!(of_environment.level, some("warn"));
    assert_eq!(
        of_environment.rotations,
        Some(vec!["1 day".to_string(), "2 MB".to_string()])
    );
}

#[test]
fn values_of_fields_are_read() {
    let fields = ConfigForSerde {
        enabled: some("true"),
        level: some("WaRn"),
        print_to_terminal: some("false"),
        colorized: some("true"),
        file_name: some("a.log"),
        rotations: Some(vec!["x".to_string()]),
        ..Default::default()
    };
    let inter = parse_inter_config_from_serde_config(fields).unwrap();
    assert_eq!(inter.enabled, Some(true));
    assert_eq!(inter.level, Some(Level::WARN));
    assert_eq!(inter.print_to_terminal, Some(false));
    assert_eq!(inter.colorized, Some(true));
    assert_eq!(inter.file_name, some("a.log"));
    assert_eq!(inter.rotations, Some(vec!["x".to_string()]));
    assert_eq!(inter.compression, None);
    for (text, level) in [
        ("trace", Level::TRACE),
        ("DEBUG", Level::DEBUG),
        ("info", Level::INFO),
        ("Warn", Level::WARN),
        ("eRRoR", Level::ERROR),
    ] {
        let fields = ConfigForSerde { level: some(text), ..Default::default() };
        assert_eq!(parse_inter_config_from_serde_config(fields).unwrap().level, Some(level));
    }
    let empty = parse_inter_config_from_serde_config(ConfigForSerde::default()).unwrap();
    assert_eq!(empty.enabled, None);
    assert_eq!(empty.level, None);
}

#[test]
fn values_that_make_no_sense_are_refused() {
    let refused = |fields: ConfigForSerde| {
        assert_eq!(
            parse_inter_config_from_serde_config(fields).err(),
            Some(ParseConfigError::IncorrectValue)
        );
    };
    refused(ConfigForSerde { enabled: some("maybe"), ..Default::default() });
    refused(ConfigForSerde { enabled: some("True"), ..Default::default() });
    refused(ConfigForSerde { level: some("verbose"), ..Default::default() });
    refused(ConfigForSerde { level: some(""), ..Default::default() });
    refused(ConfigForSerde { print_to_terminal: some("maybe"), ..Default::default() });
    refused(ConfigForSerde { colorized: some("rainbow"), ..Default::default() });
    assert_eq!(ParseConfigError::IncorrectValue.message(), "incorrect value given");
}

#[test]
fn fields_are_loaded_into_the_configuration() {
    let mut config = Config::default();
    let fields = ConfigForSerde {
        level: some("error"),
        print_to_terminal: some("false"),
        colorized: some("true"),
        global_formatting: some("G {message}"),
        info_formatting: some("I {message}"),
        file_name: some("app_{date}.log"),
        compression: some("zip"),
        rotations: Some(vec!["1 day".to_string(), "10 MB".to_string()]),
        archive_dir: some("archives"),
        ..Default::default()
    };
    assert_eq!(load_config_at(&mut config, fields, &clock(), true), Ok(()));
    assert_eq!(config.level, Level::ERROR);
    assert!(!config.print_to_terminal);
    assert!(config.colorized);
    let global = LogFormatter::parse_from_string("G {message}").unwrap();
    assert_eq!(config.trace_log_format, global);
    assert_eq!(config.error_log_format, global);
    assert_eq!(
        config.info_log_format,
        LogFormatter::parse_from_string("I {message}").unwrap()
    );
    let manager = config.file_manager.as_ref().unwrap();
    assert_eq!(manager.get_file_name(), "app_28-10-2026.log");
    assert_eq!(manager.compression(), Some(CompressionType::Zip));
    assert_eq!(
        manager.rotations(),
        vec![
            Rotation { rotation_type: RotationType::Period(86400), next_rotation: 87400 },
            Rotation { rotation_type: RotationType::Size(10485760), next_rotation: 10485760 },
        ]
    );
    assert_eq!(config.archive_dir, some("archives"));
}

#[test]
fn refused_fields_leave_the_configuration_as_it_was() {
    let check = |fields: ConfigForSerde, created: bool, error: ReadFromConfigFileError| {
        let mut config = Config::default();
        loggit::logger::set_file_at(&mut config, "old.log", "", "").unwrap();
        loggit::logger::add_rotation_at(&mut config, "1 KB", &clock()).unwrap();
        let before = config.clone();
        assert_eq!(load_config_at(&mut config, fields, &clock(), created), Err(error));
        assert_eq!(config.level, before.level);
        assert_eq!(config.print_to_terminal, before.print_to_terminal);
        assert_eq!(config.colorized, before.colorized);
        assert_eq!(config.info_log_format, before.info_log_format);
        assert_eq!(config.trace_log_format, before.trace_log_format);
        assert_eq!(config.archive_dir, before.archive_dir);
        let manager = config.file_manager.as_ref().unwrap();
        assert_eq!(manager.get_file_name(), "old.log");
        assert_eq!(manager.rotations(), before.file_manager.as_ref().unwrap().rotations());
        assert_eq!(manager.compression(), None);
    };
    check(
        ConfigForSerde { enabled: some("false"), level: some("error"), ..Default::default() },
        true,
        ReadFromConfigFileError::DisabledToBeUsed,
    );
    check(
        ConfigForSerde { level: some("error"), colorized: some("rainbow"), ..Default::default() },
        true,
        ReadFromConfigFileError::ParseError("incorrect value given".to_string()),
    );
    let unmatched = SetLevelFormattingError::IncorrectFormatGiven(
        loggit::logger::formatter::ParseStringToWrappersError::UnableToParsePartsToFormatter(
            loggit::logger::formatter::ParsePartsToFormatterError::IncorrectDataGiven,
        ),
    );
    check(
        ConfigForSerde {
            level: some("error"),
            global_formatting: some("<red>[{level}]"),
            ..Default::default()
        },
        true,
        ReadFromConfigFileError::SetLevelFormatting(unmatched),
    );
    check(
        ConfigForSerde {
            global_formatting: some("{message}"),
            debug_formatting: some("<blue>{message}"),
            ..Default::default()
        },
        true,
        ReadFromConfigFileError::SetLevelFormatting(unmatched),
    );
    check(
        ConfigForSerde {
            colorized: some("true"),
            compression: some("rar"),
            ..Default::default()
        },
        true,
        ReadFromConfigFileError::SetCompression(SetCompressionError::IncorrectCompressionValue),
    );
    check(
        ConfigForSerde {
            file_name: some("new.log"),
            compression: some("zip"),
            rotations: Some(vec!["1 day".to_string(), "invalid rotation".to_string()]),
            ..Default::default()
        },
        true,
        ReadFromConfigFileError::AddRotation(AddRotationError::IncorrectFormatGiven),
    );
    check(
        ConfigForSerde {
            file_name: some("new.log"),
            archive_dir: some("not_a_directory"),
            ..Default::default()
        },
        false,
        ReadFromConfigFileError::SetArchiveDirError(SetArchiveDirError::UnableToCreateDir),
    );
}

#[test]
fn file_output_fields_need_a_log_file() {
    let mut config = Config::default();
    let fields = ConfigForSerde { compression: some("zip"), ..Default::default() };
    assert_eq!(
        load_config(&mut config, fields, true),
        Err(ReadFromConfigFileError::SetCompression(SetCompressionError::FileIsntSet))
    );
    let fields = ConfigForSerde { rotations: Some(vec!["1 day".to_string()]), ..Default::default() };
    assert_eq!(
        load_config(&mut config, fields, true),
        Err(ReadFromConfigFileError::AddRotation(AddRotationError::FileIsntSet))
    );
    let fields = ConfigForSerde {
        file_name: some("bad<name>.txt"),
        ..Default::default()
    };
    assert!(matches!(
        load_config(&mut config, fields, true),
        Err(ReadFromConfigFileError::SetFile(_))
    ));
    let fields = ConfigForSerde {
        file_name: some("app.log"),
        rotations: Some(vec![]),
        ..Default::default()
    };
    assert_eq!(load_config(&mut config, fields, true), Ok(()));
    assert_eq!(config.file_manager.as_ref().unwrap().rotations(), vec![]);
}

#[test]
fn rules_come_before_the_archive_directory() {
    let mut config = Config::default();
    let fields = ConfigForSerde {
        file_name: some("app.log"),
        rotations: Some(vec!["nonsense".to_string()]),
        archive_dir: some("somewhere"),
        ..Default::default()
    };
    assert_eq!(
        load_config_at(&mut config, fields, &clock(), false),
        Err(ReadFromConfigFileError::AddRotation(AddRotationError::IncorrectFormatGiven))
    );
}

#[test]
fn applying_keeps_what_was_set_before_a_failure() {
    let mut config = Config::default();
    let inter = InterConfig {
        level: Some(Level::TRACE),
        colorized: Some(true),
        compression: some("zip"),
        ..Default::default()
    };
    assert_eq!(
        inter.apply_at(&mut config, &clock(), true),
        Err(ReadFromConfigFileError::SetCompression(SetCompressionError::FileIsntSet))
    );
    assert_eq!(config.level, Level::TRACE);
    assert!(config.colorized);
    let mut config = Config::default();
    let inter = InterConfig { enabled: Some(false), level: Some(Level::TRACE), ..Default::default() };
    assert_eq!(
        inter.apply(&mut config, true),
        Err(ReadFromConfigFileError::DisabledToBeUsed)
    );
    assert_eq!(config.level, Level::INFO);
    let inter = InterConfig { enabled: Some(true), level: Some(Level::TRACE), ..Default::default() };
    assert_eq!(inter.apply(&mut config, true), Ok(()));
    assert_eq!(config.level, Level::TRACE);
}

#[test]
fn configuration_file_end_to_end() {
    let mut config = Config::default();
    let text = "[Config]\ncolorized=true\nlevel=debug\nfile=app_{level}.txt\nrotations=1 day, 12 MB\n";
    let res = load_config_from_file(&mut config, parse_config_from_ini_text(text), true);
    assert_eq!(res, Ok(()));
    assert!(config.colorized);
    assert_eq!(config.level, Level::DEBUG);
    let manager = config.file_manager.as_ref().unwrap();
    assert_eq!(manager.get_file_name(), "app_DEBUG.txt");
    assert_eq!(manager.rotations().len(), 2);
    assert_eq!(manager.rotations()[1].rotation_type, RotationType::Size(12582912));

    let mut config = Config::default();
    let res = load_config_from_file(
        &mut config,
        parse_config_from_env_text("level=error\nenabled=false\n"),
        true,
    );
    assert_eq!(res, Err(ReadFromConfigFileError::DisabledToBeUsed));
    assert_eq!(config.level, Level::INFO);
}

#[test]
fn environment_end_to_end() {
    let mut config = Config::default();
    let vars = vec![
        ("HOME".to_string(), "/root".to_string()),
        ("level".to_string(), "verbose".to_string()),
    ];
    assert_eq!(
        load_config_from_env(&mut config, &vars, true),
        Err(ReadFromConfigFileError::ParseError("incorrect value given".to_string()))
    );
    let vars = vec![
        ("enabled".to_string(), "false".to_string()),
        ("level".to_string(), "WaRn".to_string()),
        ("file_name".to_string(), "env_{level}.log".to_string()),
        ("compression".to_string(), "zip".to_string()),
        ("rotations".to_string(), "1 day".to_string()),
    ];
    assert_eq!(load_config_from_env(&mut config, &vars, true), Ok(()));
    assert_eq!(config.level, Level::WARN);
    let manager = config.file_manager.as_ref().unwrap();
    assert_eq!(manager.get_file_name(), "env_WARN.log");
    assert_eq!(manager.compression(), Some(CompressionType::Zip));
    assert_eq!(manager.rotations().len(), 1);
}

#[test]
fn byte_order_mark_of_an_ini_file_is_dropped() {
    let fields = parse_config_from_ini_text("\u{feff}[Config]\nlevel=warn\n").unwrap();
    assert_eq!(fields.level, some("warn"));
    assert_eq!(drop_mark("\u{feff}abc"), "abc");
    assert_eq!(drop_mark("\u{feff}\u{feff}abc"), "\u{feff}abc");
    assert_eq!(drop_mark("abc\u{feff}"), "abc\u{feff}");
    assert_eq!(drop_mark("\u{feff}"), "");
    assert_eq!(drop_mark(""), "");
}

#[test]
fn names_of_the_variables_of_the_environment() {
    assert_eq!(
        environment_keys(),
        [
            "level",
            "print_to_terminal",
            "colorized",
            "global_formatting",
            "trace_formatting",
            "debug_formatting",
            "info_formatting",
            "warn_formatting",
            "error_formatting",
            "file_name",
            "compression",
            "archive_dir",
            "rotations",
        ]
    );
    // every field of the environment is read under one of the names
    let vars: Vec<(String, String)> = environment_keys()
        .iter()
        .map(|key| (key.to_string(), format!("value of {}", key)))
        .collect();
    let fields = parse_config_from_env(&vars);
    assert_eq!(fields.enabled, None);
    assert_eq!(fields.level, some("value of level"));
    assert_eq!(fields.print_to_terminal, some("value of print_to_terminal"));
    assert_eq!(fields.colorized, some("value of colorized"));
    assert_eq!(fields.global_formatting, some("value of global_formatting"));
    assert_eq!(fields.trace_formatting, some("value of trace_formatting"));
    assert_eq!(fields.debug_formatting, some("value of debug_formatting"));
    assert_eq!(fields.info_formatting, some("value of info_formatting"));
    assert_eq!(fields.warn_formatting, some("value of warn_formatting"));
    assert_eq!(fields.error_formatting, some("value of error_formatting"));
    assert_eq!(fields.file_name, some("value of file_name"));
    assert_eq!(fields.compression, some("value of compression"));
    assert_eq!(fields.archive_dir, some("value of archive_dir"));
    assert_eq!(fields.rotations, Some(vec!["value of rotations".to_string()]));
}

#[test]
fn archive_directory_is_made_for_accepted_fields_only() {
    let config = Config::default();
    let accepted = ConfigForSerde {
        level: some("warn"),
        file_name: some("app.log"),
        rotations: Some(vec!["1 day".to_string()]),
        archive_dir: some("archives"),
        ..Default::default()
    };
    assert_eq!(archive_dir_to_create(&config, &accepted), some("archives"));
    // the configuration is not touched
    assert_eq!(config.level, Level::INFO);
    assert!(config.file_manager.is_none());
    assert_eq!(config.archive_dir, None);
    assert_eq!(accepted.clone().archive_dir, some("archives"));
    assert_eq!(accepted.clone().rotations, Some(vec!["1 day".to_string()]));

    let no_dir = ConfigForSerde { level: some("warn"), ..Default::default() };
    assert_eq!(archive_dir_to_create(&config, &no_dir), None);

    let refused = [
        ConfigForSerde { enabled: some("false"), archive_dir: some("a"), ..Default::default() },
        ConfigForSerde { level: some("loud"), archive_dir: some("a"), ..Default::default() },
        ConfigForSerde {
            global_formatting: some("<red>x"),
            archive_dir: some("a"),
            ..Default::default()
        },
        ConfigForSerde { file_name: some("app.csv"), archive_dir: some("a"), ..Default::default() },
        ConfigForSerde { compression: some("zip"), archive_dir: some("a"), ..Default::default() },
        ConfigForSerde {
            file_name: some("app.log"),
            rotations: Some(vec!["never".to_string()]),
            archive_dir: some("a"),
            ..Default::default()
        },
    ];
    for fields in &refused {
        assert_eq!(archive_dir_to_create(&config, fields), None);
    }
}

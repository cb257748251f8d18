use loggit::logger::file_handler::file_formatter::{
    FileFormatter, FileFormatterTryFromStringError,
};
use loggit::logger::file_handler::file_name::{FileName, FileNameFromFileFormatterError};
use loggit::logger::formatter::LogPart;
use loggit::Level;

#[test]
fn file_templates_with_extension_compile() {
    assert!(FileFormatter::try_from_string("app_{date}.txt").is_ok());
    assert!(FileFormatter::try_from_string("{level}-log-on-{date}.log").is_ok());
}

#[test]
fn file_template_without_extension_fails() {
    assert_eq!(
        FileFormatter::try_from_string("app_{date}").err(),
        Some(FileFormatterTryFromStringError::NoFileExtensionProvided)
    );
    assert_eq!(
        FileFormatter::try_from_string("app.").err(),
        Some(FileFormatterTryFromStringError::NoFileExtensionProvided)
    );
    assert_eq!(
        FileFormatter::try_from_string(".").err(),
        Some(FileFormatterTryFromStringError::NoFileExtensionProvided)
    );
    assert_eq!(
        FileFormatter::try_from_string("app.log{date}").err(),
        Some(FileFormatterTryFromStringError::NoFileExtensionProvided)
    );
}

#[test]
fn file_template_with_another_extension_fails() {
    for template in [
        "log_{date}.csv",
        "app.json",
        "app.TXT",
        "app.Log",
        "app.txt.bak",
        "app.log ",
        "app.logs",
        "{date}.tx",
        "app.lo{time}g",
    ] {
        assert_eq!(
            FileFormatter::try_from_string(template).err(),
            Some(FileFormatterTryFromStringError::NoFileExtensionProvided),
            "{}",
            template
        );
    }
    for template in ["app.txt", "app.log", ".log", "a.b.c.txt", "{date}.{time}.log", "app.csv.log"] {
        assert!(FileFormatter::try_from_string(template).is_ok(), "{}", template);
    }
}

#[test]
fn accepted_file_templates_end_in_txt_or_log_and_always_expand() {
    for template in ["app_{date}.txt", "{level}-log-on-{date}.log", "a.b{time}.c.log"] {
        let formatter = FileFormatter::try_from_string(template).unwrap();
        match formatter.format.last() {
            Some(LogPart::Text(text)) => {
                let extension = text.rsplit('.').next().unwrap();
                assert!(extension == "txt" || extension == "log");
            }
            _ => panic!("the last part is no text"),
        }
        for level in [Level::TRACE, Level::ERROR] {
            let name = FileName::from_file_formatter_at(&formatter, level, "1:2:3", "4-5-6");
            assert!(name.is_ok());
            assert!(FileName::from_file_formatter(formatter.clone(), level).is_ok());
        }
    }
}

#[test]
fn file_template_with_forbidden_character_fails() {
    assert_eq!(
        FileFormatter::try_from_string("bad<name>.txt").err(),
        Some(FileFormatterTryFromStringError::IncorrectCharacterGiven('<'))
    );
    assert_eq!(
        FileFormatter::try_from_string("bad>name.txt").err(),
        Some(FileFormatterTryFromStringError::IncorrectCharacterGiven('>'))
    );
    assert_eq!(
        FileFormatter::try_from_string("a&b.txt").err(),
        Some(FileFormatterTryFromStringError::IncorrectCharacterGiven('&'))
    );
    assert_eq!(
        FileFormatter::try_from_string("a%b.txt").err(),
        Some(FileFormatterTryFromStringError::IncorrectCharacterGiven('%'))
    );
    // the characters are looked for in the order < > & %
    assert_eq!(
        FileFormatter::try_from_string("a%b&c>d<.txt").err(),
        Some(FileFormatterTryFromStringError::IncorrectCharacterGiven('<'))
    );
    assert_eq!(
        FileFormatter::try_from_string("a%b&c.txt").err(),
        Some(FileFormatterTryFromStringError::IncorrectCharacterGiven('&'))
    );
}

#[test]
fn empty_file_template_fails() {
    assert_eq!(
        FileFormatter::try_from_string("").err(),
        Some(FileFormatterTryFromStringError::EmptyStringGiven)
    );
}

#[test]
fn file_template_with_per_call_parts_fails() {
    for template in ["{message}.txt", "{file}.txt", "{line}.log", "{module}.log"] {
        assert_eq!(
            FileFormatter::try_from_string(template).err(),
            Some(FileFormatterTryFromStringError::IncorrectFormatPartGiven),
            "{}",
            template
        );
    }
    assert_eq!(
        FileFormatter::try_from_string("{foo}.txt").err(),
        Some(FileFormatterTryFromStringError::IncorrectFormatPartGiven)
    );
    assert_eq!(
        FileFormatter::try_from_string("{date.txt").err(),
        Some(FileFormatterTryFromStringError::IncorrectFormatPartGiven)
    );
}

#[test]
fn file_template_keeps_its_parts() {
    let formatter = FileFormatter::try_from_string("{level}-log-on-{date}.log").unwrap();
    assert_eq!(
        formatter.format,
        vec![
            LogPart::Text(String::new()),
            LogPart::Level,
            LogPart::Text("-log-on-".to_string()),
            LogPart::Date,
            LogPart::Text(".log".to_string()),
        ]
    );
    assert!(FileFormatter::is_part_authorized(&LogPart::Time));
    assert!(FileFormatter::is_part_authorized(&LogPart::Date));
    assert!(FileFormatter::is_part_authorized(&LogPart::Level));
    assert!(FileFormatter::is_part_authorized(&LogPart::Text("x".to_string())));
    assert!(!FileFormatter::is_part_authorized(&LogPart::Message));
    assert!(!FileFormatter::is_part_authorized(&LogPart::File));
    assert!(!FileFormatter::is_part_authorized(&LogPart::Line));
    assert!(!FileFormatter::is_part_authorized(&LogPart::ModulePath));
    assert_eq!(FileFormatter::forbidden_characters(), ['<', '>', '&', '%']);
}

#[test]
fn file_name_is_the_template_at_a_moment() {
    let formatter = FileFormatter::try_from_string("log_{date}_{time}-{level}.txt").unwrap();
    let name =
        FileName::from_file_formatter_at(&formatter, Level::WARN, "1:2:3", "4-5-2026").unwrap();
    assert_eq!(name.file_name, "log_4-5-2026_1:2:3-WARN");
    assert_eq!(name.file_num, None);
    assert_eq!(name.file_extension, "txt");
    assert_eq!(name.get_full_file_name(), "log_4-5-2026_1:2:3-WARN.txt");
}

#[test]
fn extension_is_what_follows_the_last_dot() {
    let formatter = FileFormatter::try_from_string("a.b{date}.c.d.log").unwrap();
    let name = FileName::from_file_formatter_at(&formatter, Level::INFO, "t", "D").unwrap();
    assert_eq!(name.file_name, "a.bD.c.d");
    assert_eq!(name.file_extension, "log");
    assert_eq!(name.get_full_file_name(), "a.bD.c.d.log");
}

#[test]
fn file_name_numbers_count_up_from_one() {
    let formatter = FileFormatter::try_from_string("app.log").unwrap();
    let mut name = FileName::from_file_formatter_at(&formatter, Level::INFO, "", "").unwrap();
    assert_eq!(name.get_full_file_name(), "app.log");
    name.increase_num();
    assert_eq!(name.file_num, Some(1));
    assert_eq!(name.get_full_file_name(), "app(1).log");
    name.increase_num();
    assert_eq!(name.get_full_file_name(), "app(2).log");
    name.file_num = Some(4294967294);
    name.increase_num();
    assert_eq!(name.get_full_file_name(), "app(4294967295).log");
    let text: String = name.into();
    assert_eq!(text, "app(4294967295).log");
}

#[test]
fn file_name_errors() {
    let none = FileFormatter { format: vec![] };
    assert_eq!(
        FileName::from_file_formatter_at(&none, Level::INFO, "t", "d").err(),
        Some(FileNameFromFileFormatterError::NoFormatProvided)
    );
    let date_last = FileFormatter {
        format: vec![LogPart::Text("a.txt".to_string()), LogPart::Date],
    };
    assert_eq!(
        FileName::from_file_formatter_at(&date_last, Level::INFO, "t", "d").err(),
        Some(FileNameFromFileFormatterError::IncorrectLastPart)
    );
    let no_dot = FileFormatter {
        format: vec![LogPart::Text("atxt".to_string())],
    };
    assert_eq!(
        FileName::from_file_formatter_at(&no_dot, Level::INFO, "t", "d").err(),
        Some(FileNameFromFileFormatterError::NoFileExtensionProvided)
    );
    let csv = FileFormatter {
        format: vec![
            LogPart::Text("log_".to_string()),
            LogPart::Date,
            LogPart::Text(".csv".to_string()),
        ],
    };
    assert_eq!(
        FileName::from_file_formatter_at(&csv, Level::INFO, "t", "d").err(),
        Some(FileNameFromFileFormatterError::IncorrectFileExtension)
    );
    assert_eq!(
        FileName::from_file_formatter(csv, Level::INFO).err(),
        Some(FileNameFromFileFormatterError::IncorrectFileExtension)
    );
}

#[test]
fn acceptable_extensions() {
    assert_eq!(FileName::acceptable_file_extensions(), vec!["txt", "log"]);
    assert!(FileName::is_acceptable_file_extension("txt"));
    assert!(FileName::is_acceptable_file_extension("log"));
    assert!(!FileName::is_acceptable_file_extension("csv"));
    assert!(!FileName::is_acceptable_file_extension("TXT"));
    assert!(!FileName::is_acceptable_file_extension(""));
}

#[test]
fn parts_that_no_file_name_holds_expand_to_nothing() {
    let parts = vec![
        LogPart::Text("a".to_string()),
        LogPart::Message,
        LogPart::Level,
        LogPart::File,
        LogPart::Time,
        LogPart::Line,
        LogPart::Date,
        LogPart::ModulePath,
    ];
    let all = FileName::expand_parts(&parts, parts.len(), Level::ERROR, "T", "D");
    assert_eq!(all, "aERRORTD");
    let some = FileName::expand_parts(&parts, 3, Level::TRACE, "T", "D");
    assert_eq!(some, "aTRACE");
}

#[test]
fn file_name_at_the_clock_has_date_and_time() {
    let text = FileName::get_string_from_log_parts(
        vec![LogPart::Date, LogPart::Text("_".to_string()), LogPart::Time],
        Level::INFO,
    );
    let (date, time) = text.split_once('_').unwrap();
    let date: Vec<i64> = date.splitn(3, '-').map(|n| n.parse().unwrap()).collect();
    let time: Vec<u32> = time.split(':').map(|n| n.parse().unwrap()).collect();
    assert_eq!(date.len(), 3);
    assert!((1..=31).contains(&date[0]));
    assert!((1..=12).contains(&date[1]));
    assert!(date[2] >= 2024);
    assert_eq!(time.len(), 3);
    assert!(time[0] <= 23 && time[1] <= 59 && time[2] <= 59);
}

use habit_tracker::cli::{ocr_preview, report_date, Cli, CliError, Commands};
use habit_tracker::timestamp::Timestamp;

#[test]
fn test_start_command_no_args() {
    let cli = Cli::try_parse_from(&["tracker", "start"]);
    assert!(cli.is_ok());

    if let Commands::Start { interval, quality } = cli.unwrap().command {
        assert_eq!(interval, None);
        assert_eq!(quality, None);
    } else {
        panic!("Expected Start command");
    }
}

#[test]
fn test_start_command_with_args() {
    let cli = Cli::try_parse_from(&["tracker", "start", "--interval", "30", "--quality", "80"]);
    assert!(cli.is_ok());

    if let Commands::Start { interval, quality } = cli.unwrap().command {
        assert_eq!(interval, Some(30));
        assert_eq!(quality, Some(80));
    } else {
        panic!("Expected Start command");
    }
}

#[test]
fn test_pause_command() {
    let cli = Cli::try_parse_from(&["tracker", "pause"]);
    assert!(cli.is_ok());
    assert!(matches!(cli.unwrap().command, Commands::Pause));
}

#[test]
fn test_resume_command() {
    let cli = Cli::try_parse_from(&["tracker", "resume"]);
    assert!(cli.is_ok());
    assert!(matches!(cli.unwrap().command, Commands::Resume));
}

#[test]
fn test_report_with_date() {
    let cli = Cli::try_parse_from(&["tracker", "report", "--date", "2024-12-30"]);
    assert!(cli.is_ok());

    if let Commands::Report { date, today } = cli.unwrap().command {
        assert_eq!(date, Some("2024-12-30".to_string()));
        assert!(!today);
    } else {
        panic!("Expected Report command");
    }
}

#[test]
fn test_report_with_today() {
    let cli = Cli::try_parse_from(&["tracker", "report", "--today"]);
    assert!(cli.is_ok());

    if let Commands::Report { date, today } = cli.unwrap().command {
        assert_eq!(date, None);
        assert!(today);
    } else {
        panic!("Expected Report command");
    }
}

#[test]
fn test_report_date_and_today_conflicts() {
    let cli = Cli::try_parse_from(&["tracker", "report", "--date", "2024-12-30", "--today"]);
    assert!(cli.is_err());
}

#[test]
fn conflict_is_reported_as_such() {
    let cli = Cli::try_parse_from(&["tracker", "report", "--today", "-d", "2024-12-30"]);
    assert!(matches!(cli, Err(CliError::ConflictingArguments)));
}

#[test]
fn short_names_and_attached_values() {
    let cli = Cli::try_parse_from(&["tracker", "start", "-i", "15", "--quality=70"]).unwrap();
    assert!(matches!(
        cli.command,
        Commands::Start { interval: Some(15), quality: Some(70) }
    ));
    let cli = Cli::try_parse_from(&["tracker", "ocr", "--batch=-1"]).unwrap();
    assert!(matches!(cli.command, Commands::Ocr { file: None, batch: Some(-1) }));
    let cli = Cli::try_parse_from(&["tracker", "ocr", "-f", "/tmp/a.jpg"]).unwrap();
    if let Commands::Ocr { file, batch } = cli.command {
        assert_eq!(file, Some("/tmp/a.jpg".to_string()));
        assert_eq!(batch, None);
    } else {
        panic!("Expected Ocr command");
    }
}

#[test]
fn missing_command_is_refused() {
    assert!(matches!(Cli::try_parse_from(&["tracker"]), Err(CliError::MissingCommand)));
    assert!(matches!(Cli::try_parse_from(&[]), Err(CliError::MissingCommand)));
}

#[test]
fn unknown_command_is_refused() {
    match Cli::try_parse_from(&["tracker", "stop"]) {
        Err(CliError::UnknownCommand(word)) => assert_eq!(word, "stop"),
        _ => panic!("Expected UnknownCommand"),
    }
}

#[test]
fn unknown_argument_is_refused() {
    match Cli::try_parse_from(&["tracker", "pause", "--interval", "3"]) {
        Err(CliError::UnknownArgument(word)) => assert_eq!(word, "--interval"),
        _ => panic!("Expected UnknownArgument"),
    }
    match Cli::try_parse_from(&["tracker", "start", "-i=3"]) {
        Err(CliError::UnknownArgument(word)) => assert_eq!(word, "-i=3"),
        _ => panic!("Expected UnknownArgument"),
    }
}

#[test]
fn missing_value_is_refused() {
    match Cli::try_parse_from(&["tracker", "start", "--interval"]) {
        Err(CliError::MissingValue(name)) => assert_eq!(name, "--interval"),
        _ => panic!("Expected MissingValue"),
    }
}

#[test]
fn invalid_value_is_refused() {
    match Cli::try_parse_from(&["tracker", "start", "--quality", "256"]) {
        Err(CliError::InvalidValue { argument, value }) => {
            assert_eq!(argument, "--quality");
            assert_eq!(value, "256");
        }
        _ => panic!("Expected InvalidValue"),
    }
    assert!(matches!(
        Cli::try_parse_from(&["tracker", "start", "--interval", "-5"]),
        Err(CliError::InvalidValue { .. })
    ));
    assert!(matches!(
        Cli::try_parse_from(&["tracker", "start", "--interval", "18446744073709551616"]),
        Err(CliError::InvalidValue { .. })
    ));
    assert!(matches!(
        Cli::try_parse_from(&["tracker", "start", "--interval", "18446744073709551615"]),
        Ok(Cli { command: Commands::Start { interval: Some(u64::MAX), quality: None } })
    ));
    assert!(matches!(
        Cli::try_parse_from(&["tracker", "ocr", "--batch", "-9223372036854775808"]),
        Ok(Cli { command: Commands::Ocr { file: None, batch: Some(i64::MIN) } })
    ));
    assert!(matches!(
        Cli::try_parse_from(&["tracker", "ocr", "--batch", "9223372036854775808"]),
        Err(CliError::InvalidValue { .. })
    ));
}

#[test]
fn duplicate_argument_is_refused() {
    match Cli::try_parse_from(&["tracker", "start", "-i", "1", "--interval", "2"]) {
        Err(CliError::DuplicateArgument(name)) => assert_eq!(name, "--interval"),
        _ => panic!("Expected DuplicateArgument"),
    }
}

#[test]
fn value_for_a_switch_is_refused() {
    match Cli::try_parse_from(&["tracker", "report", "--today=yes"]) {
        Err(CliError::UnexpectedValue(name)) => assert_eq!(name, "--today"),
        _ => panic!("Expected UnexpectedValue"),
    }
}

#[test]
fn report_date_prefers_today() {
    let now = Timestamp::new(2025, 1, 2, 3, 4, 5).unwrap();
    assert_eq!(report_date(None, false, &now), "2025-01-02");
    assert_eq!(report_date(None, true, &now), "2025-01-02");
    assert_eq!(report_date(Some("2024-12-30".to_string()), false, &now), "2024-12-30");
    assert_eq!(report_date(Some("2024-12-30".to_string()), true, &now), "2025-01-02");
}

#[test]
fn preview_is_cut_and_put_on_one_line() {
    assert_eq!(ocr_preview("one\ntwo"), "one two");
    assert_eq!(ocr_preview(""), "");
    let fifty = "a".repeat(50);
    assert_eq!(ocr_preview(&fifty), fifty);
    let longer = "あ".repeat(51);
    assert_eq!(ocr_preview(&longer), format!("{}...", "あ".repeat(50)));
}

#[test]
fn refusals_have_a_message() {
    assert_eq!(CliError::MissingCommand.message(), "サブコマンドを指定してください");
    assert_eq!(CliError::UnknownCommand("stop".to_string()).message(), "不明なサブコマンド: stop");
    assert_eq!(CliError::UnknownArgument("-x".to_string()).message(), "不明な引数: -x");
    assert_eq!(CliError::MissingValue("--date".to_string()).message(), "値がありません: --date");
    assert_eq!(
        CliError::InvalidValue { argument: "-q".to_string(), value: "x".to_string() }.message(),
        "無効な値: -q x"
    );
    assert_eq!(
        CliError::DuplicateArgument("-q".to_string()).message(),
        "引数が重複しています: -q"
    );
    assert_eq!(
        CliError::UnexpectedValue("--today".to_string()).message(),
        "値を取らない引数です: --today"
    );
    assert_eq!(
        CliError::ConflictingArguments.message(),
        "--date と --today は同時に指定できません"
    );
}

use chatlog::config::{
    load_config, log_file_name, missing_file_warning, open_log_files, open_log_files_at,
    session_marker_line, Action, ConfigError, FileHandleManager, GhostConfig, LogFileOpening,
};

fn names(list: &[&str]) -> Vec<String> {
    list.iter().map(|s| s.to_string()).collect()
}

fn manager(list: &[&str]) -> FileHandleManager {
    FileHandleManager::new(&names(list))
}

fn channels_of(manager: &FileHandleManager) -> Vec<String> {
    (0..manager.len()).map(|h| manager.channel_of(h).unwrap().clone()).collect()
}

#[test]
fn table_has_one_handle_for_each_channel() {
    let table = manager(&["#a", "#b", "#c"]);
    assert_eq!(table.len(), 3);
    assert_eq!(table.handle_of("#a"), Some(0));
    assert_eq!(table.handle_of("#b"), Some(1));
    assert_eq!(table.handle_of("#c"), Some(2));
    assert_eq!(table.handle_of("#d"), None);
    assert_eq!(table.handle_of("a"), None);
    assert_eq!(table.channel_of(1), Some(&"#b".to_string()));
    assert_eq!(table.channel_of(3), None);
}

#[test]
fn table_for_no_channels_is_empty() {
    let table = manager(&[]);
    assert_eq!(table.len(), 0);
    assert_eq!(table.handle_of("#a"), None);
    assert_eq!(table.channel_of(0), None);
}

#[test]
fn repeated_channel_has_one_handle() {
    let table = manager(&["#a", "#b", "#a", "#c", "#b"]);
    assert_eq!(channels_of(&table), names(&["#a", "#b", "#c"]));
    assert_eq!(table.handle_of("#a"), Some(0));
    assert_eq!(table.handle_of("#c"), Some(2));
}

#[test]
fn record_is_appended_with_time_and_line_end() {
    let table = manager(&["#foo", "#bar"]);
    let action = table.write_to_log_at(
        &"#bar".to_string(),
        "CLEARCHAT(tags:{})".to_string(),
        "2024-05-06T07:08:09+02:00",
    );
    assert_eq!(
        action,
        Action::Append {
            handle: 1,
            text: "CLEARCHAT(tags:{}) // 2024-05-06T07:08:09+02:00\n".to_string(),
        }
    );
}

#[test]
fn record_for_channel_without_file_is_reported_and_not_written() {
    let table = manager(&["#foo"]);
    let action = table.write_to_log_at(
        &"#other".to_string(),
        "PRIVMSG(sender:\"a\",message:\"b\",tags:{})".to_string(),
        "2024-05-06T07:08:09+02:00",
    );
    assert_eq!(
        action,
        Action::Warn {
            text: "No file opened for #other, would have logged:\n\"PRIVMSG(sender:\\\"a\\\",message:\\\"b\\\",tags:{})\""
                .to_string(),
        }
    );
}

#[test]
fn record_for_empty_table_is_reported() {
    let table = manager(&[]);
    let action = table.write_to_log_at(&"#foo".to_string(), "X".to_string(), "T");
    assert_eq!(
        action,
        Action::Warn { text: "No file opened for #foo, would have logged:\n\"X\"".to_string() }
    );
}

#[test]
fn warning_is_what_the_format_string_gives() {
    let line = "a \"quoted\" line\twith a tab";
    let expected = format!("No file opened for {}, would have logged:\n{:?}", "#foo", line);
    let table = manager(&[]);
    let action = table.write_to_log_at(&"#foo".to_string(), line.to_string(), "T");
    assert_eq!(action, Action::Warn { text: expected });
}

#[test]
fn warning_is_made_of_its_parts() {
    assert_eq!(
        missing_file_warning("#c", "QUOTED"),
        "No file opened for #c, would have logged:\nQUOTED"
    );
}

#[test]
fn record_written_now_carries_a_local_rfc3339_time() {
    let table = manager(&["#foo"]);
    let before = chrono::Local::now();
    let action = table.write_to_log(&"#foo".to_string(), "LINE".to_string());
    let after = chrono::Local::now();
    match action {
        Action::Append { handle, text } => {
            assert_eq!(handle, 0);
            let rest = text.strip_prefix("LINE // ").unwrap();
            let stamp = rest.strip_suffix("\n").unwrap();
            let time = chrono::DateTime::parse_from_rfc3339(stamp).unwrap();
            assert!(before <= time && time <= after);
        }
        other => panic!("unexpected action {:?}", other),
    }
}

#[test]
fn record_written_now_for_channel_without_file_is_reported() {
    let table = manager(&["#foo"]);
    let action = table.write_to_log(&"#bar".to_string(), "LINE".to_string());
    assert_eq!(
        action,
        Action::Warn { text: "No file opened for #bar, would have logged:\n\"LINE\"".to_string() }
    );
}

#[test]
fn log_file_stands_in_the_logs_directory() {
    assert_eq!(log_file_name("#foo"), "logs/#foo.txt");
    assert_eq!(log_file_name(""), "logs/.txt");
}

#[test]
fn session_marker_names_the_time() {
    assert_eq!(
        session_marker_line("2024-05-06T07:08:09+02:00"),
        "// File opened at 2024-05-06T07:08:09+02:00\n"
    );
}

#[test]
fn one_opening_for_each_handle() {
    let (table, openings) = open_log_files_at(&names(&["#a", "#b", "#a"]), "T0");
    assert_eq!(channels_of(&table), names(&["#a", "#b"]));
    assert_eq!(
        openings,
        vec![
            LogFileOpening {
                path: "logs/#a.txt".to_string(),
                first_line: "// File opened at T0\n".to_string(),
            },
            LogFileOpening {
                path: "logs/#b.txt".to_string(),
                first_line: "// File opened at T0\n".to_string(),
            },
        ]
    );
}

#[test]
fn no_channels_need_no_opening() {
    let (table, openings) = open_log_files_at(&[], "T0");
    assert_eq!(table.len(), 0);
    assert_eq!(openings, Vec::new());
}

#[test]
fn openings_made_now_share_one_local_rfc3339_time() {
    let before = chrono::Local::now();
    let (table, openings) = open_log_files(&names(&["#a", "#b"]));
    let after = chrono::Local::now();
    assert_eq!(table.len(), 2);
    assert_eq!(openings.len(), 2);
    assert_eq!(openings[0].path, "logs/#a.txt");
    assert_eq!(openings[1].path, "logs/#b.txt");
    assert_eq!(openings[0].first_line, openings[1].first_line);
    let rest = openings[0].first_line.strip_prefix("// File opened at ").unwrap();
    let stamp = rest.strip_suffix("\n").unwrap();
    let time = chrono::DateTime::parse_from_rfc3339(stamp).unwrap();
    assert!(before <= time && time <= after);
}

#[test]
fn configuration_is_put_into_effect() {
    let config = GhostConfig {
        channels: names(&["Foo", "bar_2", "FOO"]),
        log_path: "logs".to_string(),
    };
    let (channels, table, openings) = load_config(&config).unwrap();
    assert_eq!(channels, names(&["#foo", "#bar_2", "#foo"]));
    assert_eq!(channels_of(&table), names(&["#foo", "#bar_2"]));
    assert_eq!(openings.len(), 2);
    assert_eq!(openings[0].path, "logs/#foo.txt");
    assert_eq!(openings[1].path, "logs/#bar_2.txt");
    assert!(openings[0].first_line.starts_with("// File opened at "));
    assert!(openings[0].first_line.ends_with('\n'));
}

#[test]
fn configuration_without_channels_is_put_into_effect() {
    let config = GhostConfig { channels: Vec::new(), log_path: "logs".to_string() };
    let (channels, table, openings) = load_config(&config).unwrap();
    assert_eq!(channels, Vec::<String>::new());
    assert_eq!(table.len(), 0);
    assert_eq!(openings, Vec::new());
}

#[test]
fn configuration_with_invalid_channel_name_is_refused() {
    let config = GhostConfig {
        channels: names(&["fine", "not fine", "#neither"]),
        log_path: "logs".to_string(),
    };
    assert_eq!(
        load_config(&config).err(),
        Some(ConfigError::InvalidChannelName("not fine".to_string()))
    );
}

#[test]
fn configuration_with_empty_channel_name_is_refused() {
    let config = GhostConfig { channels: names(&["a", ""]), log_path: "logs".to_string() };
    assert_eq!(load_config(&config).err(), Some(ConfigError::InvalidChannelName(String::new())));
}

#[test]
fn each_configuration_error_in_words() {
    assert_eq!(
        ConfigError::Unreadable("no such file".to_string()).message(),
        "read config.ron: no such file"
    );
    assert_eq!(
        ConfigError::Unparseable("1:1: unexpected".to_string()).message(),
        "parse config: 1:1: unexpected"
    );
    assert_eq!(
        ConfigError::InvalidChannelName("a b".to_string()).message(),
        "Invalid channel name: a b"
    );
    assert_eq!(
        ConfigError::LogDirectory("denied".to_string()).message(),
        "create log directory: denied"
    );
}

//! The rules around the store, showcases, the configuration and the log.

use showcase_studio::config::{apply_config_row, config_writes, ConfigWrite};
use showcase_studio::logging::{
    archive_name, console_line, file_line, has_byte_length, is_archivable_log, is_enabled,
    is_frontend_target, level_color, level_name, log_file_name, LogLevel,
};
use showcase_studio::models::{AppConfig, OverlayPosition, OverlayStyle, UpdateShowcasePayload};
use showcase_studio::schema::{
    add_column_statement, column_definition, has_name, missing_column_statements,
    parse_create_table_statement, read_column, read_columns, refusal_message, remove_all,
    schema_action, SchemaAction, CURRENT_SCHEMA_VERSION, SQL_CREATE_CONFIG_TABLE,
    SQL_CREATE_MESSAGES_TABLE, SQL_CREATE_SCHEMA_VERSION_TABLE, SQL_CREATE_SHOWCASES_TABLE,
};
use showcase_studio::showcase_manager::{
    decode_base64_image, has_value, has_value_trimmed, is_valid_phase, parse_data_uri,
    position_of, pptx_file_name, pptx_relative_path, showcase_image_file_name, update_statement,
    SqlValue,
};
use showcase_studio::sqlite_manager::{
    cleanup_threshold, data_uri, delete_statement, files_of_message, image_data_uri,
    is_safe_relative_path, media_type, stored_attachments,
};
use showcase_studio::text::{
    chars_of, is_whitespace, split_words, string_of, trim_chars,
};

fn owned(pairs: &[(&str, &str)]) -> Vec<(String, String)> {
    pairs.iter().map(|p| (p.0.to_string(), p.1.to_string())).collect()
}

#[test]
fn an_uploaded_image_is_read() {
    let (bytes, extension) = decode_base64_image("data:image/png;base64,aGVsbG8=").unwrap();
    assert_eq!(bytes, b"hello");
    assert_eq!(extension, "png");
    let (bytes, extension) = decode_base64_image("data:image/jpeg;base64,AAEC/w==").unwrap();
    assert_eq!(bytes, vec![0u8, 1, 2, 255]);
    assert_eq!(extension, "jpg");
    assert_eq!(decode_base64_image("data:image/webp,").unwrap(), (Vec::new(), "webp".to_string()));
    assert_eq!(decode_base64_image("data:image/gif;x=1;y,QQ==").unwrap().1, "gif");
}

#[test]
fn why_an_uploaded_image_is_not_read() {
    assert_eq!(
        decode_base64_image("data:image/png;base64"),
        Err("Invalid Data URI format (missing data)".to_string())
    );
    assert_eq!(
        decode_base64_image(""),
        Err("Invalid Data URI format (missing data)".to_string())
    );
    assert_eq!(
        decode_base64_image("image/png;base64,aGVsbG8="),
        Err("Invalid Data URI format (missing 'data:' or ';')".to_string())
    );
    assert_eq!(
        decode_base64_image("x;data:image/png,aGVsbG8="),
        Err("Invalid Data URI format (missing 'data:' or ';')".to_string())
    );
    assert_eq!(
        decode_base64_image("data:image/bmp;base64,aGVsbG8="),
        Err("Unsupported image MIME type: image/bmp".to_string())
    );
    assert_eq!(
        decode_base64_image("data:;base64,aGVsbG8="),
        Err("Unsupported image MIME type: ".to_string())
    );
    assert_eq!(
        decode_base64_image("data:IMAGE/PNG;base64,aGVsbG8="),
        Err("Unsupported image MIME type: IMAGE/PNG".to_string())
    );
    let why = decode_base64_image("data:image/png;base64,not base64!").unwrap_err();
    assert!(why.starts_with("Base64 decoding failed: "), "{}", why);
    assert!(why.len() > "Base64 decoding failed: ".len());
    // A type that is not supported is told before the data is looked at.
    assert_eq!(
        decode_base64_image("data:text/plain;base64,!!!"),
        Err("Unsupported image MIME type: text/plain".to_string())
    );
}

#[test]
fn a_data_uri_is_taken_apart() {
    assert_eq!(
        parse_data_uri("data:image/png;base64,aGVs,bG8="),
        Ok(("png".to_string(), "aGVs,bG8=".to_string()))
    );
    assert_eq!(parse_data_uri("data:image/gif,"), Ok(("gif".to_string(), String::new())));
}

#[test]
fn phases_are_one_to_four() {
    for phase in [1, 2, 3, 4] {
        assert!(is_valid_phase(phase));
    }
    for phase in [0, 5, -1, i32::MIN, i32::MAX] {
        assert!(!is_valid_phase(phase));
    }
}

#[test]
fn the_files_of_a_showcase() {
    assert_eq!(showcase_image_file_name("sc1", "42", "jpg"), "sc1_42.jpg");
    assert_eq!(pptx_file_name("sc1"), "showcase_sc1.pptx");
    assert_eq!(pptx_relative_path("sc1"), "presentations/sc1/showcase_sc1.pptx");
}

#[test]
fn whether_a_stored_text_holds_a_value() {
    assert!(has_value("[]"));
    assert!(has_value(" null"));
    assert!(has_value(" "));
    assert!(!has_value(""));
    assert!(!has_value("null"));
    assert!(has_value_trimmed("[1]"));
    assert!(has_value_trimmed("  [1]\n"));
    assert!(!has_value_trimmed(" null\t"));
    assert!(!has_value_trimmed("   "));
    assert!(!has_value_trimmed(""));
    assert!(has_value_trimmed("NULL"));
}

#[test]
fn the_place_of_an_image_in_a_showcase() {
    let ids = vec!["a".to_string(), "b".to_string(), "a".to_string()];
    assert_eq!(position_of(&ids, "a"), Some(0));
    assert_eq!(position_of(&ids, "b"), Some(1));
    assert_eq!(position_of(&ids, "c"), None);
    assert_eq!(position_of(&Vec::new(), "a"), None);
}

fn shown(values: &[SqlValue]) -> Vec<String> {
    values
        .iter()
        .map(|v| match v {
            SqlValue::Text(t) => format!("text:{}", t),
            SqlValue::Integer(n) => format!("int:{}", n),
        })
        .collect()
}

#[test]
fn the_statement_that_updates_a_showcase() {
    let all = UpdateShowcasePayload {
        title: Some("T".to_string()),
        description: Some("D".to_string()),
        status: Some("Done".to_string()),
    };
    let (sql, values) = update_statement("sc9", all, 1700).unwrap();
    assert_eq!(
        sql,
        "UPDATE showcases SET title = ?, description = ?, status = ?, last_modified = ? WHERE id = ?5"
    );
    assert_eq!(shown(&values), vec!["text:T", "text:D", "text:Done", "int:1700", "text:sc9"]);

    let one =
        UpdateShowcasePayload { title: None, description: Some("D".to_string()), status: None };
    let (sql, values) = update_statement("sc9", one, -5).unwrap();
    assert_eq!(sql, "UPDATE showcases SET description = ?, last_modified = ? WHERE id = ?3");
    assert_eq!(shown(&values), vec!["text:D", "int:-5", "text:sc9"]);

    let none = UpdateShowcasePayload { title: None, description: None, status: None };
    assert!(update_statement("sc9", none, 1700).is_none());
}

#[test]
fn the_update_statement_runs() {
    let conn = rusqlite::Connection::open_in_memory().unwrap();
    conn.execute(SQL_CREATE_SHOWCASES_TABLE, ()).unwrap();
    conn.execute("INSERT INTO showcases (id, title) VALUES ('sc9', 'old')", ()).unwrap();
    let change = UpdateShowcasePayload {
        title: Some("new".to_string()),
        description: None,
        status: Some("Done".to_string()),
    };
    let (sql, values) = update_statement("sc9", change, 1700).unwrap();
    let bound: Vec<rusqlite::types::Value> = values
        .into_iter()
        .map(|v| match v {
            SqlValue::Text(t) => rusqlite::types::Value::Text(t),
            SqlValue::Integer(n) => rusqlite::types::Value::Integer(n),
        })
        .collect();
    let rows = conn.execute(&sql, rusqlite::params_from_iter(bound)).unwrap();
    assert_eq!(rows, 1);
    let (title, status, modified): (String, String, i64) = conn
        .query_row("SELECT title, status, last_modified FROM showcases WHERE id = 'sc9'", (), |r| {
            Ok((r.get(0)?, r.get(1)?, r.get(2)?))
        })
        .unwrap();
    assert_eq!((title.as_str(), status.as_str(), modified), ("new", "Done", 1700));
}

#[test]
fn stored_paths_are_read_back() {
    assert_eq!(
        stored_attachments(Some("[\"cached/1_2.png\",\"cached/1_3.jpg\"]")),
        Ok(vec!["cached/1_2.png".to_string(), "cached/1_3.jpg".to_string()])
    );
    assert_eq!(stored_attachments(Some("[]")), Ok(Vec::new()));
    assert_eq!(stored_attachments(Some("")), Ok(Vec::new()));
    assert_eq!(stored_attachments(Some("null")), Ok(Vec::new()));
    assert_eq!(stored_attachments(None), Ok(Vec::new()));
    assert!(stored_attachments(Some("{\"a\":1}")).is_err());
    assert!(stored_attachments(Some("[1,2]")).is_err());
    assert!(stored_attachments(Some(" null")).is_err());
    assert_eq!(files_of_message(Some("[\"a.png\"]")), vec!["a.png".to_string()]);
    assert!(files_of_message(Some("not json")).is_empty());
    assert!(files_of_message(None).is_empty());
}

#[test]
fn what_a_cleanup_removes() {
    assert_eq!(cleanup_threshold(2_592_000), Some(0));
    assert_eq!(cleanup_threshold(1_700_000_000), Some(1_697_408_000));
    assert_eq!(cleanup_threshold(0), Some(-2_592_000));
    assert_eq!(cleanup_threshold(i64::MIN), None);
    assert_eq!(cleanup_threshold(i64::MIN + 2_592_000), Some(i64::MIN));
    assert_eq!(cleanup_threshold(i64::MIN + 2_591_999), None);
    assert_eq!(delete_statement(0), "DELETE FROM messages WHERE message_id IN ()");
    assert_eq!(delete_statement(1), "DELETE FROM messages WHERE message_id IN (?)");
    assert_eq!(delete_statement(3), "DELETE FROM messages WHERE message_id IN (?,?,?)");
    for n in 0..20 {
        assert_eq!(
            delete_statement(n),
            format!("DELETE FROM messages WHERE message_id IN ({})", vec!["?"; n].join(","))
        );
    }
}

#[test]
fn paths_that_may_be_read() {
    for path in ["cached/1_2.png", "a", "", "a/b/c.png", "a.b.c", "./a", "a\\b", ". ."] {
        assert!(is_safe_relative_path(path), "{:?}", path);
    }
    for path in ["../a", "a/../b", "a/..", "..", "/a", "\\a", "/", "a..b", "..."] {
        assert!(!is_safe_relative_path(path), "{:?}", path);
    }
}

#[test]
fn a_cached_image_as_a_data_uri() {
    assert_eq!(image_data_uri("cached/1_2.png", &b"hello".to_vec()), "data:image/png;base64,aGVsbG8=");
    assert_eq!(image_data_uri("cached/1_2.JPG", &vec![0, 1, 2, 255]), "data:image/jpeg;base64,AAEC/w==");
    assert_eq!(image_data_uri("cached/1_2.webp", &Vec::new()), "data:image/webp;base64,");
    assert_eq!(image_data_uri("cached/1_2.gif", &vec![255]), "data:image/gif;base64,/w==");
    // Where the extension says nothing the image counts as PNG.
    assert_eq!(image_data_uri("cached/1_2", &vec![1]), "data:image/png;base64,AQ==");
    assert_eq!(image_data_uri("cached/1_2.", &vec![1]), "data:image/png;base64,AQ==");
    assert_eq!(image_data_uri("cached/1_2.zzzzzz", &vec![1]), "data:image/png;base64,AQ==");
    assert_eq!(media_type("notes.txt"), "text/plain");
    assert_eq!(media_type("a.svg"), "image/svg+xml");
    assert_eq!(data_uri("a/b", "QQ=="), "data:a/b;base64,QQ==");
}

#[test]
fn the_media_type_agrees_with_the_guess_by_path() {
    for path in ["a.png", "b.jpeg", "c.JPG", "d.webp", "e", "f.tar.gz", "dir.d/g", "h.html", ".i"] {
        let expected = mime_guess::from_path(path)
            .first()
            .map(|m| m.essence_str().to_string())
            .unwrap_or("image/png".to_string());
        assert_eq!(media_type(path), expected, "{}", path);
    }
}

#[test]
fn the_tables_of_the_store_are_read() {
    assert_eq!(
        parse_create_table_statement(SQL_CREATE_CONFIG_TABLE),
        Ok((
            "config".to_string(),
            owned(&[("key", "TEXT PRIMARY KEY NOT NULL"), ("value", "TEXT NOT NULL")])
        ))
    );
    assert_eq!(
        parse_create_table_statement(SQL_CREATE_SCHEMA_VERSION_TABLE),
        Ok(("schema_version".to_string(), owned(&[("version", "INTEGER PRIMARY KEY NOT NULL")])))
    );
    assert_eq!(
        parse_create_table_statement(SQL_CREATE_MESSAGES_TABLE),
        Ok((
            "messages".to_string(),
            owned(&[
                ("message_id", "TEXT PRIMARY KEY NOT NULL"),
                ("channel_id", "TEXT NOT NULL"),
                ("author_id", "TEXT NOT NULL"),
                ("author_name", "TEXT NOT NULL"),
                ("author_avatar", "TEXT"),
                ("message_content", "TEXT NOT NULL"),
                ("attachments", "TEXT NOT NULL DEFAULT '[]'"),
                ("timestamp", "INTEGER NOT NULL"),
                ("is_used", "INTEGER NOT NULL DEFAULT 0"),
            ])
        ))
    );
    // A comma inside a default cuts the definition short.
    assert_eq!(
        parse_create_table_statement(SQL_CREATE_SHOWCASES_TABLE),
        Ok((
            "showcases".to_string(),
            owned(&[
                ("id", "TEXT PRIMARY KEY NOT NULL"),
                ("title", "TEXT NOT NULL"),
                ("description", "TEXT"),
                ("status", "TEXT NOT NULL DEFAULT 'Draft'"),
                ("created_at", "INTEGER NOT NULL DEFAULT (strftime('%s'"),
                ("last_modified", "INTEGER NOT NULL DEFAULT (strftime('%s'"),
                ("phase", "INTEGER NOT NULL DEFAULT 1"),
                ("selected_messages_json", "TEXT"),
                ("pptx_path", "TEXT"),
                ("images_json", "TEXT"),
            ])
        ))
    );
}

#[test]
fn why_a_table_is_not_read() {
    assert_eq!(
        parse_create_table_statement("CREATE TABLE t (a TEXT);"),
        Err("Could not extract table name from CREATE TABLE statement".to_string())
    );
    assert_eq!(
        parse_create_table_statement("CREATE TABLE IF NOT EXISTS t (a TEXT)"),
        Err("Could not extract column definitions from CREATE TABLE statement".to_string())
    );
    assert_eq!(
        parse_create_table_statement("CREATE TABLE IF NOT EXISTS t ();"),
        Err("Could not extract column definitions from CREATE TABLE statement".to_string())
    );
    assert_eq!(
        parse_create_table_statement(
            "CREATE TABLE IF NOT EXISTS t1 (\n a INTEGER,\n PRIMARY KEY (a),\n b,\n\n FOREIGN KEY (a) REFERENCES u(x),\n c   TEXT\tNOT\n NULL );"
        ),
        Ok(("t1".to_string(), owned(&[("a", "INTEGER"), ("c", "TEXT NOT NULL")])))
    );
}

#[test]
fn the_lines_of_a_table() {
    assert_eq!(
        read_column(&chars_of("  name TEXT  NOT NULL ")),
        Some(("name".to_string(), "TEXT NOT NULL".to_string()))
    );
    assert_eq!(read_column(&chars_of("name")), None);
    assert_eq!(read_column(&chars_of("")), None);
    assert_eq!(read_column(&chars_of("   ")), None);
    assert_eq!(read_column(&chars_of("PRIMARY KEY (a, b)")), None);
    assert_eq!(read_column(&chars_of("  FOREIGN KEY (a)")), None);
    assert_eq!(
        read_column(&chars_of("primary key")),
        Some(("primary".to_string(), "key".to_string()))
    );
    assert_eq!(read_columns("a TEXT, b, c INTEGER"), owned(&[("a", "TEXT"), ("c", "INTEGER")]));
    assert!(read_columns("").is_empty());
}

#[test]
fn how_a_column_describes_itself() {
    assert_eq!(column_definition("TEXT", false, false, None), "TEXT");
    assert_eq!(column_definition("TEXT", true, true, None), "TEXT PRIMARY KEY NOT NULL");
    assert_eq!(column_definition("INTEGER", false, true, Some("0")), "INTEGER NOT NULL DEFAULT 0");
    assert_eq!(column_definition("", true, false, Some("")), " PRIMARY KEY DEFAULT ");
}

#[test]
fn a_missing_column_is_added() {
    assert_eq!(
        add_column_statement("messages", "is_used", "INTEGER NOT NULL DEFAULT 0"),
        "ALTER TABLE messages ADD COLUMN is_used INTEGER NOT NULL DEFAULT 0"
    );
    assert_eq!(
        add_column_statement("config", "key", "TEXT PRIMARY KEY NOT NULL"),
        "ALTER TABLE config ADD COLUMN key TEXT  NOT NULL"
    );
    assert_eq!(
        add_column_statement("t", "c", "PRIMARY KEY TEXT PRIMARY KEY"),
        "ALTER TABLE t ADD COLUMN c TEXT"
    );
    assert_eq!(add_column_statement("t", "c", " TEXT "), "ALTER TABLE t ADD COLUMN c  TEXT ");
    for (text, pattern) in [
        ("aXbXc", "X"),
        ("ZZZ", "Z"),
        ("abab", "ab"),
        ("aaa", "aa"),
        ("PRIMARY KEYPRIMARY KEY", "PRIMARY KEY"),
        ("PRIMARY PRIMARY KEY KEY", "PRIMARY KEY"),
        ("", "x"),
        ("x", "xy"),
        ("ababa", "aba"),
    ] {
        assert_eq!(
            string_of(&remove_all(&chars_of(text), &chars_of(pattern))),
            text.replace(pattern, ""),
            "{} without {}",
            text,
            pattern
        );
    }
    let expected = owned(&[("a", "TEXT"), ("b", "INTEGER PRIMARY KEY"), ("c", "TEXT NOT NULL")]);
    let existing = vec!["c".to_string(), "a".to_string()];
    assert_eq!(
        missing_column_statements("t", &expected, &existing),
        owned(&[("b", "ALTER TABLE t ADD COLUMN b INTEGER")])
    );
    assert!(missing_column_statements("t", &expected, &["a", "b", "c"].map(String::from).to_vec())
        .is_empty());
    assert_eq!(missing_column_statements("t", &expected, &Vec::new()).len(), 3);
    assert!(has_name(&existing, "a"));
    assert!(!has_name(&existing, "A"));
}

#[test]
fn what_is_done_with_a_store() {
    assert_eq!(CURRENT_SCHEMA_VERSION, 1);
    assert_eq!(schema_action(0), SchemaAction::Update);
    assert_eq!(schema_action(-3), SchemaAction::Update);
    assert_eq!(schema_action(1), SchemaAction::Keep);
    assert_eq!(schema_action(2), SchemaAction::Refuse);
    assert_eq!(
        refusal_message(2),
        "Database schema version 2 is newer than application version 1. Please update the application."
    );
    assert_eq!(
        refusal_message(i32::MAX),
        "Database schema version 2147483647 is newer than application version 1. Please update the application."
    );
}

fn put(key: &str, value: &str) -> String {
    format!("put {}={}", key, value)
}

fn told(writes: &[ConfigWrite]) -> Vec<String> {
    writes
        .iter()
        .map(|w| match w {
            ConfigWrite::Put { key, value } => put(key, value),
            ConfigWrite::Remove { key } => format!("remove {}", key),
        })
        .collect()
}

#[test]
fn a_configuration_is_stored() {
    let config = AppConfig {
        selected_server_id: Some("55".to_string()),
        selected_channel_ids: vec!["900".to_string(), "901".to_string()],
        is_setup_complete: true,
    };
    assert_eq!(
        told(&config_writes(&config).unwrap()),
        vec![
            put("selected_server_id", "55"),
            put("selected_channel_ids", "[\"900\",\"901\"]"),
            put("is_setup_complete", "true"),
        ]
    );
    assert_eq!(
        told(&config_writes(&AppConfig::default()).unwrap()),
        vec![
            "remove selected_server_id".to_string(),
            put("selected_channel_ids", "[]"),
            put("is_setup_complete", "false"),
        ]
    );
}

#[test]
fn a_configuration_is_read_back() {
    let mut config = AppConfig::default();
    assert_eq!(config.selected_server_id, None);
    assert!(config.selected_channel_ids.is_empty());
    assert!(!config.is_setup_complete);
    apply_config_row(&mut config, "selected_server_id", "55".to_string());
    apply_config_row(&mut config, "selected_channel_ids", "[\"900\",\"x\"]".to_string());
    apply_config_row(&mut config, "is_setup_complete", "true".to_string());
    apply_config_row(&mut config, "theme", "dark".to_string());
    assert_eq!(config.selected_server_id, Some("55".to_string()));
    assert_eq!(config.selected_channel_ids, vec!["900".to_string(), "x".to_string()]);
    assert!(config.is_setup_complete);
    apply_config_row(&mut config, "selected_channel_ids", "oops".to_string());
    assert!(config.selected_channel_ids.is_empty());
    apply_config_row(&mut config, "is_setup_complete", "True".to_string());
    assert!(!config.is_setup_complete);
    assert_eq!(config.selected_server_id, Some("55".to_string()));
}

#[test]
fn the_levels_of_the_log() {
    assert!(is_enabled(LogLevel::Error));
    assert!(is_enabled(LogLevel::Warn));
    assert!(is_enabled(LogLevel::Info));
    assert!(!is_enabled(LogLevel::Debug));
    assert!(!is_enabled(LogLevel::Trace));
    assert_eq!(level_name(LogLevel::Warn), "WARN");
    assert_eq!(level_color(LogLevel::Error), "\x1B[31m");
    assert_eq!(level_color(LogLevel::Trace), "\x1B[36m");
    for (ours, theirs) in [
        (LogLevel::Error, log::Level::Error),
        (LogLevel::Warn, log::Level::Warn),
        (LogLevel::Info, log::Level::Info),
        (LogLevel::Debug, log::Level::Debug),
        (LogLevel::Trace, log::Level::Trace),
    ] {
        assert_eq!(level_name(ours), theirs.to_string());
        assert_eq!(is_enabled(ours), theirs <= log::Level::Info);
    }
}

#[test]
fn the_lines_of_the_log() {
    assert_eq!(
        console_line("2024-03-01 10:00:00.000", LogLevel::Info, "app::run", "started"),
        "2024-03-01 10:00:00.000 \x1B[32m[INFO]\x1B[0m [app::run] started"
    );
    assert_eq!(
        file_line("2024-03-01 10:00:00.000", LogLevel::Error, "app::run", "failed"),
        "2024-03-01 10:00:00.000 [ERROR] [app::run] failed\n"
    );
    assert!(is_frontend_target("showcase_app_lib::log_frontend_info"));
    assert!(is_frontend_target("showcase_app_lib::log_frontend_"));
    assert!(!is_frontend_target("showcase_app_lib::discord::start"));
    assert!(!is_frontend_target("log_frontend_info"));
    assert!(!is_frontend_target(""));
}

#[test]
fn the_files_of_the_log() {
    assert_eq!(log_file_name("backend", "2024-03-01", 1), "backend_2024-03-01_1.log");
    assert_eq!(log_file_name("frontend", "2024-03-01", 12), "frontend_2024-03-01_12.log");
    assert_eq!(archive_name("backend_2024-03-01_1.log"), "backend_2024-03-01_1.log.zip");
    let today = "2024-03-02";
    assert!(is_archivable_log("backend_2024-03-01_1.log", today));
    assert!(is_archivable_log("frontend_2024-03-01_7.log", today));
    assert!(is_archivable_log("backend_yesterday!_1.log", today));
    assert!(is_archivable_log("backend_2024-03-01_1_extra_.log", today));
    assert!(!is_archivable_log("backend_2024-03-02_1.log", today));
    assert!(!is_archivable_log("backend_2024-03-01_1.log.zip", today));
    assert!(!is_archivable_log("other_2024-03-01_1.log", today));
    assert!(!is_archivable_log("Backend_2024-03-01_1.log", today));
    assert!(!is_archivable_log("backend_2024-3-1_1.log", today));
    assert!(!is_archivable_log("backend.log", today));
    assert!(!is_archivable_log("backend_2024-03-01.log", today));
    assert!(!is_archivable_log("backend_20240301.log", today));
    assert!(is_archivable_log("backend_2024.3.log", today));
    // Ten bytes, not ten characters.
    assert!(!is_archivable_log("backend_2024-03-0é_1.log", today));
    assert!(is_archivable_log("backend_2024-03-é_1.log", today));
    assert!(!is_archivable_log("", today));
    for text in ["", "a", "é", "日本", "🙂", "2024-03-01", "2024-03-0é", "\u{7f}\u{80}\u{7ff}\u{800}\u{ffff}\u{10000}"] {
        for wanted in 0..20 {
            assert_eq!(has_byte_length(&chars_of(text), wanted), text.len() == wanted);
        }
    }
}

#[test]
fn white_space_is_what_the_standard_library_takes_for_it() {
    for n in 0..=0x10ffffu32 {
        if let Some(c) = char::from_u32(n) {
            assert_eq!(is_whitespace(c), c.is_whitespace(), "U+{:04X}", n);
        }
    }
}

#[test]
fn trimming_and_words() {
    let cases = [
        "", " ", "a", " a", "a ", "  a b  ", "\t\na\u{a0}b\u{3000}", "a  b   c", " \u{2003} ",
        "one", "x y", "\u{85}x\u{1680}", "tab\tsep", "  lead", "trail\r\n",
    ];
    for case in cases {
        assert_eq!(string_of(&trim_chars(&chars_of(case))), case.trim(), "{:?}", case);
        let words: Vec<String> =
            split_words(&chars_of(case)).iter().map(|w| string_of(w)).collect();
        let expected: Vec<String> = case.split_whitespace().map(|w| w.to_string()).collect();
        assert_eq!(words, expected, "{:?}", case);
    }
}

#[test]
fn the_names_of_overlay_settings() {
    assert_eq!(OverlayPosition::TopLeft.name(), "top-left");
    assert_eq!(OverlayPosition::TopRight.name(), "top-right");
    assert_eq!(OverlayPosition::BottomLeft.name(), "bottom-left");
    assert_eq!(OverlayPosition::BottomRight.name(), "bottom-right");
    assert_eq!(OverlayPosition::Hidden.name(), "hidden");
    assert_eq!(OverlayStyle::Black.name(), "black");
    assert_eq!(OverlayStyle::White.name(), "white");
    assert_ne!(OverlayPosition::TopLeft, OverlayPosition::Hidden);
}

#[test]
fn a_presentation_is_read() {
    assert_eq!(showcase_studio::showcase_manager::decode_pptx("UEsDBA=="), Ok(vec![80, 75, 3, 4]));
    assert_eq!(showcase_studio::showcase_manager::decode_pptx(""), Ok(Vec::new()));
    let why = showcase_studio::showcase_manager::decode_pptx("***").unwrap_err();
    assert!(why.starts_with("Failed to decode base64 PPTX data: "), "{}", why);
    assert!(why.len() > "Failed to decode base64 PPTX data: ".len());
}

#[test]
fn the_cleanup_reaches_back_thirty_days() {
    let now = chrono::DateTime::from_timestamp(1_700_000_000, 0).unwrap();
    let expected = now.checked_sub_signed(chrono::Duration::days(30)).unwrap().timestamp();
    assert_eq!(cleanup_threshold(1_700_000_000), Some(expected));
}

#[test]
fn what_is_kept_on_disk() {
    let usage = showcase_studio::sqlite_manager::storage_usage(
        4096,
        1_000_000,
        "/data/showcase_app_data.db".to_string(),
        12,
        3,
        2,
        7,
        Some(100),
        None,
    );
    assert_eq!(usage.total_size_bytes, 1_004_096);
    assert_eq!(usage.database_size_bytes, 4096);
    assert_eq!(usage.image_cache_size_bytes, 1_000_000);
    assert_eq!(usage.database_path, "/data/showcase_app_data.db");
    assert_eq!(
        (usage.message_count, usage.showcase_count, usage.protected_message_count),
        (12, 3, 2)
    );
    assert_eq!(usage.cache_file_count, 7);
    assert_eq!(usage.oldest_message_date, Some(100));
    assert_eq!(usage.newest_message_date, None);
    let full = showcase_studio::sqlite_manager::storage_usage(
        u64::MAX - 1,
        1,
        String::new(),
        0,
        0,
        0,
        0,
        None,
        None,
    );
    assert_eq!(full.total_size_bytes, u64::MAX);
}

fn read_back(
    attachments: Option<&str>,
    is_used: Option<bool>,
) -> Result<showcase_studio::models::IndexedMessage, String> {
    showcase_studio::sqlite_manager::indexed_message(
        "1".to_string(),
        "2".to_string(),
        "3".to_string(),
        "ada".to_string(),
        None,
        "hello".to_string(),
        attachments,
        99,
        is_used,
    )
}

#[test]
fn a_stored_message_is_read_back() {
    let m = read_back(Some("[\"cached/1_5.png\"]"), Some(true)).unwrap();
    assert_eq!(m.message_id, "1");
    assert_eq!(m.channel_id, "2");
    assert_eq!(m.author_id, "3");
    assert_eq!(m.author_name, "ada");
    assert_eq!(m.author_avatar, None);
    assert_eq!(m.message_content, "hello");
    assert_eq!(m.attachments, vec!["cached/1_5.png".to_string()]);
    assert_eq!(m.timestamp, 99);
    assert!(m.is_used);
    assert!(!read_back(None, None).unwrap().is_used);
    assert!(!read_back(None, Some(false)).unwrap().is_used);
    assert!(read_back(Some("null"), None).unwrap().attachments.is_empty());
    assert!(read_back(Some("{}"), None).is_err());
}

#[test]
fn a_setting_is_written_or_removed() {
    use_settings();
}

fn use_settings() {
    let write = showcase_studio::config::setting_write;
    assert_eq!(told(&[write("auto_update_enabled", Some("true".to_string()))]), vec![put(
        "auto_update_enabled",
        "true"
    )]);
    assert_eq!(told(&[write("overlay_settings_json", None)]), vec![
        "remove overlay_settings_json".to_string()
    ]);
    assert_eq!(showcase_studio::config::flag_value(true), "true");
    assert_eq!(showcase_studio::config::flag_value(false), "false");
}

#[test]
fn what_is_done_for_a_table() {
    let update = showcase_studio::schema::table_update;
    let existing = vec!["config".to_string(), "users".to_string()];
    match update(SQL_CREATE_CONFIG_TABLE, &existing).unwrap() {
        showcase_studio::schema::TableUpdate::Complete { table, expected } => {
            assert_eq!(table, "config");
            assert_eq!(
                expected,
                owned(&[("key", "TEXT PRIMARY KEY NOT NULL"), ("value", "TEXT NOT NULL")])
            );
        }
        other => panic!("{:?}", other),
    }
    match update(SQL_CREATE_MESSAGES_TABLE, &existing).unwrap() {
        showcase_studio::schema::TableUpdate::Create { table, sql } => {
            assert_eq!(table, "messages");
            assert_eq!(sql, SQL_CREATE_MESSAGES_TABLE)
        }
        other => panic!("{:?}", other),
    }
    assert_eq!(
        update("DROP TABLE config;", &existing).unwrap_err(),
        "Could not extract table name from CREATE TABLE statement"
    );
}

#[test]
fn an_older_store_is_brought_up_to_date() {
    let conn = rusqlite::Connection::open_in_memory().unwrap();
    conn.execute("CREATE TABLE messages (message_id TEXT PRIMARY KEY NOT NULL, timestamp INTEGER NOT NULL)", ())
        .unwrap();
    let existing_tables = vec!["messages".to_string()];
    for create_sql in [SQL_CREATE_CONFIG_TABLE, SQL_CREATE_MESSAGES_TABLE] {
        match showcase_studio::schema::table_update(create_sql, &existing_tables).unwrap() {
            showcase_studio::schema::TableUpdate::Create { table, sql } => {
                assert_eq!(table, "config");
                conn.execute(&sql, ()).unwrap();
            }
            showcase_studio::schema::TableUpdate::Complete { table, expected } => {
                let existing = vec!["message_id".to_string(), "timestamp".to_string()];
                for (column, sql) in missing_column_statements(&table, &expected, &existing) {
                    assert!(sql.contains(&column), "{}", sql);
                    conn.execute(&sql, ()).unwrap();
                }
            }
        }
    }
    let columns: Vec<String> = conn
        .prepare("PRAGMA table_info(messages)")
        .unwrap()
        .query_map((), |row| row.get::<_, String>(1))
        .unwrap()
        .map(|c| c.unwrap())
        .collect();
    assert!(columns.contains(&"author_avatar".to_string()));
    assert!(columns.contains(&"attachments".to_string()));
    assert!(columns.contains(&"is_used".to_string()));
    let tables: i64 = conn
        .query_row("SELECT COUNT(*) FROM sqlite_master WHERE type='table' AND name='config'", (), |r| r.get(0))
        .unwrap();
    assert_eq!(tables, 1);
}

#[test]
fn the_next_log_file_takes_the_least_free_number() {
    let next = showcase_studio::logging::next_log_number;
    let names = |list: &[&str]| -> Vec<String> { list.iter().map(|n| n.to_string()).collect() };
    assert_eq!(next("backend", "2024-03-01", &Vec::new()), 1);
    assert_eq!(next("backend", "2024-03-01", &names(&["backend_2024-03-01_1.log"])), 2);
    assert_eq!(
        next(
            "backend",
            "2024-03-01",
            &names(&[
                "backend_2024-03-01_3.log",
                "backend_2024-03-01_1.log",
                "frontend_2024-03-01_2.log",
                "backend_2024-03-01_2.log.zip",
                "backend_2024-02-29_2.log",
            ])
        ),
        2
    );
    assert_eq!(
        next(
            "frontend",
            "2024-03-01",
            &names(&[
                "frontend_2024-03-01_2.log",
                "frontend_2024-03-01_1.log",
                "frontend_2024-03-01_1.log",
                "frontend_2024-03-01_3.log",
            ])
        ),
        4
    );
    let many: Vec<String> = (1..=25).rev().map(|n| format!("backend_d_{}.log", n)).collect();
    assert_eq!(next("backend", "d", &many), 26);
    // A number written otherwise is another name.
    assert_eq!(next("backend", "d", &names(&["backend_d_01.log", "backend_d_+1.log"])), 1);
}

#[test]
fn a_stored_message_with_its_paths() {
    let m = showcase_studio::sqlite_manager::indexed_message_with(
        "1".to_string(),
        "2".to_string(),
        "3".to_string(),
        "ada".to_string(),
        Some("a.png".to_string()),
        "hello".to_string(),
        vec!["cached/1_5.png".to_string()],
        99,
        None,
    );
    assert_eq!(m.message_id, "1");
    assert_eq!(m.channel_id, "2");
    assert_eq!(m.author_id, "3");
    assert_eq!(m.author_name, "ada");
    assert_eq!(m.author_avatar, Some("a.png".to_string()));
    assert_eq!(m.message_content, "hello");
    assert_eq!(m.attachments, vec!["cached/1_5.png".to_string()]);
    assert_eq!(m.timestamp, 99);
    assert!(!m.is_used);
}

#[test]
fn what_is_made_of_decoded_data() {
    let image = showcase_studio::showcase_manager::image_from;
    let pptx = showcase_studio::showcase_manager::pptx_from;
    assert_eq!(image(Ok(vec![1, 2]), "png".to_string()), Ok((vec![1, 2], "png".to_string())));
    assert_eq!(
        image(Err("bad symbol".to_string()), "png".to_string()),
        Err("Base64 decoding failed: bad symbol".to_string())
    );
    assert_eq!(pptx(Ok(vec![9])), Ok(vec![9]));
    assert_eq!(
        pptx(Err("bad symbol".to_string())),
        Err("Failed to decode base64 PPTX data: bad symbol".to_string())
    );
    let kind = showcase_studio::sqlite_manager::media_type_from;
    assert_eq!(kind(Some("image/webp".to_string())), "image/webp");
    assert_eq!(kind(None), "image/png");
}

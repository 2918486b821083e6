use gulfi::cli::{BuildInfo, CliError, DatabaseInfo, HashErrorKind, IoErrorKind, JsonErrorKind, SqliteCode, SqliteErrorKind, SyncStrategy};
use gulfi::commands::{
    document_position, gitignore_plan, is_yes, may_write_config, options_text,
    pick_option, validate_field_name, CorruptionInfo, GitignorePlan, PoolLedger, PoolStats, ServerOverrides,
    ServerSettings, config_template, valid_pool_capacity, sync_target, SyncTargetError,
};
use gulfi::datasources::Document;

#[test]
fn exit_codes() {
    let t = String::from("x");
    assert_eq!(CliError::MetaParseError { kind: JsonErrorKind::Eof, text: t.clone() }.exit_code(), 10);
    assert_eq!(CliError::MetaOpenError { kind: IoErrorKind::NotFound, text: t.clone() }.exit_code(), 11);
    assert_eq!(CliError::SqliteError { kind: SqliteErrorKind::Unlisted, text: t.clone() }.exit_code(), 12);
    assert_eq!(CliError::Other { text: t }.exit_code(), 99);
}

#[test]
fn messages_and_tips() {
    let e = CliError::MetaParseError {
        kind: JsonErrorKind::Syntax { line: 3, column: 14 },
        text: "expected value".to_string(),
    };
    assert_eq!(e.message(), "Could not parse `meta.json`: expected value");
    assert_eq!(
        e.tip_lines(),
        vec![
            "💡 Failed to parse meta.json:".to_string(),
            "   • JSON syntax error at line 3, column 14".to_string(),
            "   • Check for missing commas, brackets, or quotes near this location".to_string(),
            "   • Look for trailing commas or unclosed strings".to_string(),
        ]
    );
    let e = CliError::SqliteError {
        kind: SqliteErrorKind::Failure { code: SqliteCode::Unlisted(5), message: None },
        text: "busy".to_string(),
    };
    assert_eq!(e.tip_lines()[1], "   • SQLite error (5): No additional details");
    let e = CliError::SqliteError {
        kind: SqliteErrorKind::InvalidColumnType {
            index: 2,
            name: "edad".to_string(),
            value_type: "Integer".to_string(),
        },
        text: String::new(),
    };
    assert_eq!(
        e.tip_lines()[1],
        "   • Type mismatch for column 2 ('edad'): expected different type than Integer"
    );
    let e = CliError::MetaOpenError { kind: IoErrorKind::Unlisted, text: "odd".to_string() };
    assert_eq!(e.tip_lines()[1], "   • File system error: odd");
    assert_eq!(CliError::Other { text: "z".to_string() }.tip_lines().len(), 9);
}

#[test]
fn sync_strategies() {
    assert!(SyncStrategy::All.syncs_fts() && SyncStrategy::All.syncs_vectors());
    assert!(SyncStrategy::Fts.syncs_fts() && !SyncStrategy::Fts.syncs_vectors());
    assert!(!SyncStrategy::Vector.syncs_fts() && SyncStrategy::Vector.syncs_vectors());
}

#[test]
fn prompts() {
    assert_eq!(validate_field_name("nombre_1"), Ok(()));
    assert_eq!(
        validate_field_name("año"),
        Err("El nombre debe pertenecer a la regex [_a-zA-Z0-9]+".to_string())
    );
    let yn = vec!['Y', 'N'];
    assert_eq!(options_text(&yn), "Y/N");
    assert_eq!(pick_option("y", &yn), Ok('Y'));
    assert_eq!(pick_option("N", &yn), Ok('N'));
    assert_eq!(pick_option("yes", &yn), Err("Input invalida. Las opciones son (Y/N)".to_string()));
    assert_eq!(pick_option("x", &yn), Err("Input invalida. Las opciones son (Y/N)".to_string()));
    assert_eq!(pick_option("ñ", &yn), Err("Input invalida. Las opciones son (Y/N)".to_string()));
    assert!(is_yes('Y') && !is_yes('N'));
}

#[test]
fn documents_are_found_ignoring_case() {
    let docs = vec![
        Document { name: "tnea".to_string(), fields: vec![] },
        Document { name: "Otros".to_string(), fields: vec![] },
    ];
    assert_eq!(document_position(&docs, "OTROS"), Some(1));
    assert_eq!(document_position(&docs, "nada"), None);
}

#[test]
fn server_overrides_replace_given_settings() {
    let mut s = ServerSettings {
        host: "127.0.0.1".to_string(),
        port: 3000,
        db_path: "./gulfi.db".to_string(),
        pool_size: 10,
    };
    ServerOverrides::new(None, Some(8080), None, Some(4)).apply_to_config(&mut s);
    assert_eq!((s.host.as_str(), s.port, s.db_path.as_str(), s.pool_size), ("127.0.0.1", 8080, "./gulfi.db", 4));
}

#[test]
fn configuration_files() {
    assert!(may_write_config(None));
    assert!(may_write_config(Some("  \n")));
    assert!(!may_write_config(Some("app_settings:")));
    assert_eq!(gitignore_plan(None), GitignorePlan::Create);
    assert_eq!(gitignore_plan(Some("target\n  /configuration  \n")), GitignorePlan::AlreadyListed);
    assert_eq!(gitignore_plan(Some("target")), GitignorePlan::Append { newline_first: true });
    assert_eq!(gitignore_plan(Some("target\n")), GitignorePlan::Append { newline_first: false });
    assert_eq!(gitignore_plan(Some("")), GitignorePlan::Append { newline_first: false });
    assert!(config_template().starts_with("# Application Configuration\napp_settings:\n"));
    assert!(config_template().ends_with("  db_path: \"./gulfi.db\"\n"));
}

#[test]
fn pool_statistics() {
    assert_eq!(PoolStats::new(6, 4), PoolStats { capacity: 6, available: 4, in_use: 2 });
    assert!(PoolLedger::new(0).is_none());
    let mut pool = PoolLedger::new(6).unwrap();
    assert!(pool.take());
    assert!(pool.take());
    // Connections checked out are not lost.
    assert!(!pool.is_corrupted());
    assert_eq!(pool.corruption_info(), None);
    assert_eq!(pool.stats(), PoolStats { capacity: 6, available: 4, in_use: 2 });
    pool.give_back(true);
    assert_eq!(pool.checked_out(), 1);
    assert_eq!(pool.available(), 5);
    // A handle that could not give its connection back loses it.
    pool.give_back(false);
    assert!(pool.is_corrupted());
    assert_eq!(
        pool.corruption_info(),
        Some(CorruptionInfo { expected_connections: 6, actual_connections: 5, missing_connections: 1 })
    );
    assert_eq!(pool.close(), 5);
    assert_eq!(pool.available(), 0);
    assert_eq!(pool.capacity(), 6);
    let mut empty = PoolLedger::new(1).unwrap();
    assert!(empty.take());
    assert!(!empty.take());
    assert!(!valid_pool_capacity(0));
    assert!(valid_pool_capacity(1));
}

#[test]
fn build_info_lines() {
    let mut b = BuildInfo {
        version: "0.4.0".to_string(),
        target: "x86_64-unknown-linux-gnu".to_string(),
        profile: "release".to_string(),
        build_date: "2025-01-02".to_string(),
        git_commit: None,
        git_branch: Some("main".to_string()),
        rustc_version: "1.85.0".to_string(),
    };
    assert_eq!(
        b.lines(),
        vec![
            "",
            "Binary Information:",
            "  Version:  0.4.0",
            "  Built:  2025-01-02",
            "  Target:  x86_64-unknown-linux-gnu",
            "  Profile: release",
            "  Rustc:  1.85.0",
            "  Git branch: main",
        ]
    );
    b.git_commit = Some("abc123".to_string());
    b.git_branch = None;
    let lines = b.lines();
    assert_eq!(lines.len(), 8);
    assert_eq!(lines[7], "  Git commit: abc123");
}

#[test]
fn database_info_lines() {
    let mut d = DatabaseInfo {
        path: "./gulfi.db".to_string(),
        sqlite_version: "3.45.0".to_string(),
        sqlite_vec_version: "v0.1.6".to_string(),
        page_count: 12,
        page_size: 4096,
        schema_version: -3,
        tables: vec!["historial".to_string()],
        encoding: "UTF-8".to_string(),
        journal_mode: "wal".to_string(),
    };
    assert_eq!(
        d.lines("49152 bytes (0.05 MB)"),
        vec![
            "",
            "Database Information:",
            "  Path: ./gulfi.db",
            "  sqlite_version: v3.45.0",
            "  sqlite-vec_version: v0.1.6",
            "  Size:         49152 bytes (0.05 MB)",
            "  Page count:   12",
            "  Page size:    4096 bytes",
            "  Schema ver:   -3",
            "  Encoding:     UTF-8",
            "  Journal mode: wal",
            "  Tables:       1 table",
            "    • historial",
        ]
    );
    d.tables = vec![];
    let lines = d.lines("0 bytes (0.00 KB)");
    assert_eq!(lines[11], "  Tables:       0 tables");
    assert_eq!(lines[12], "    (no tables)");
    assert_eq!(lines.len(), 13);
}

#[test]
fn sync_targets() {
    let docs = vec![
        Document { name: "Tnea".to_string(), fields: vec![] },
        Document { name: "ventas".to_string(), fields: vec![] },
    ];
    assert_eq!(sync_target("./gulfi.db", &docs, "ventas"), Ok(1));
    let err = sync_target("./gulfi.db", &docs, "tnea").unwrap_err();
    assert_eq!(
        err,
        SyncTargetError::UnknownDocument { name: "tnea".to_string(), available: "Tnea, ventas".to_string() }
    );
    assert_eq!(err.message(), "tnea is not one of the available documents: [Tnea, ventas]");
    let t = sync_target(" :memory: ", &docs, "ventas").unwrap_err();
    assert_eq!(t, SyncTargetError::TransientDatabase);
    assert_eq!(
        t.message(),
        "You should not sync on a transient database, it will dissapear immediately after"
    );
}

#[test]
fn config_and_hashing_errors() {
    let c = CliError::ConfigError { text: "missing field `db_settings`".to_string() };
    assert_eq!(c.exit_code(), 10);
    assert_eq!(c.message(), "Config error: missing field `db_settings`");
    assert_eq!(
        c.tip_lines(),
        vec![
            "⚙️  Configuration error occurred:",
            "   • Error details: missing field `db_settings`",
            "   • Check if your config.yml file exists and is valid",
        ]
    );
    let h = CliError::HashingError { kind: HashErrorKind::SaltInvalid, text: "salt invalid".to_string() };
    assert_eq!(h.exit_code(), 10);
    assert_eq!(h.message(), "Password hashing failed: salt invalid");
    assert_eq!(h.tip_lines(), vec!["💡 Password hashing failed:", "   • Invalid salt format or length"]);
    let u = CliError::HashingError {
        kind: HashErrorKind::Unlisted { debug: "ParamsMaxExceeded".to_string() },
        text: "x".to_string(),
    };
    assert_eq!(u.tip_lines()[1], "   • Password hashing error: ParamsMaxExceeded");
}

use axum_harness::secrets::{
    check_counter_shared_db, shared_db_tokens_ok, export_get, insert_export, mask_token, maskable_token, merge_exports,
    parse_env_exports, read_age_public_key, require_export, require_libsql_url, require_real_token,
    secret_command, secret_name, ExportsError,
};

fn exports(pairs: &[(&str, &str)]) -> Vec<(String, String)> {
    let mut v: Vec<(String, String)> = Vec::new();
    for (k, val) in pairs {
        insert_export(&mut v, k.to_string(), val.to_string());
    }
    v
}

#[test]
fn parses_kubernetes_secret_string_data() {
    let exports = parse_env_exports("stringData:\n  A: one\n  B: two\n").unwrap();
    assert_eq!(export_get(&exports, "A"), Some("one".to_string()));
    assert_eq!(export_get(&exports, "B"), Some("two".to_string()));
}

#[test]
fn parses_flat_string_mapping() {
    let exports = parse_env_exports("A: one\nB: two\n").unwrap();
    assert_eq!(export_get(&exports, "A"), Some("one".to_string()));
    assert_eq!(export_get(&exports, "B"), Some("two".to_string()));
}

#[test]
fn masks_short_and_long_tokens() {
    assert_eq!(mask_token("short"), "***");
    assert_eq!(mask_token("abcd1234wxyz"), "abcd***wxyz");
}

#[test]
fn masking_treats_eight_bytes_as_short() {
    assert_eq!(mask_token("12345678"), "***");
    assert_eq!(mask_token("123456789"), "1234***6789");
}

#[test]
fn token_splitting_a_character_cannot_be_masked() {
    assert!(maskable_token(&"abcd1234wxyz".to_string()));
    assert!(!maskable_token(&"abcé12345xyz".to_string()));
    assert!(maskable_token(&"é".to_string()));
}

#[test]
fn non_string_entries_are_left_out_of_exports() {
    let exports = parse_env_exports("A: one\nB: 2\nC: [x]\n").unwrap();
    assert_eq!(exports, vec![("A".to_string(), "one".to_string())]);
}

#[test]
fn exports_come_sorted_with_later_keys_winning() {
    let exports = parse_env_exports("Z: last\nA: first\n").unwrap();
    assert_eq!(
        exports,
        vec![
            ("A".to_string(), "first".to_string()),
            ("Z".to_string(), "last".to_string())
        ]
    );
}

#[test]
fn invalid_yaml_and_scalars_are_rejected() {
    assert_eq!(parse_env_exports("a: [unclosed"), Err(ExportsError::InvalidYaml));
    assert_eq!(parse_env_exports("just text"), Err(ExportsError::NoMapping));
    assert_eq!(ExportsError::NoMapping.message(), "decrypted YAML does not contain stringData or flat key-value mapping");
    assert_eq!(ExportsError::InvalidYaml.message(), "failed to parse decrypted YAML");
}

#[test]
fn require_export_rejects_missing_and_empty_values() {
    let e = exports(&[("A", "one"), ("B", "")]);
    assert_eq!(require_export(&e, "A"), Ok("one".to_string()));
    assert_eq!(require_export(&e, "B"), Err("B is empty or missing".to_string()));
    assert_eq!(require_export(&e, "C"), Err("C is empty or missing".to_string()));
}

#[test]
fn libsql_urls_are_checked() {
    assert_eq!(require_libsql_url("URL", "libsql://db.example"), Ok(()));
    assert_eq!(
        require_libsql_url("URL", "file:local.db"),
        Err("URL still points to local file path: file:local.db".to_string())
    );
    assert_eq!(
        require_libsql_url("URL", "https://db"),
        Err("URL must use libsql:// URL, got: https://db".to_string())
    );
}

#[test]
fn placeholder_tokens_are_rejected() {
    assert_eq!(
        require_real_token("TOKEN", "REPLACE_WITH_TURSO_TOKEN"),
        Err("TOKEN still uses template placeholder".to_string())
    );
    assert_eq!(require_real_token("TOKEN", "real"), Ok(()));
}

fn shared_db(url_b: &str, token_c: &str) -> Vec<(String, String)> {
    exports(&[
        ("APP_TURSO_URL", "libsql://shared.example"),
        ("APP_TURSO_AUTH_TOKEN", "abcd1234wxyz"),
        ("OUTBOX_DATABASE_URL", url_b),
        ("OUTBOX_TURSO_AUTH_TOKEN", "short"),
        ("PROJECTOR_DATABASE_URL", "libsql://shared.example"),
        ("PROJECTOR_TURSO_AUTH_TOKEN", token_c),
    ])
}

#[test]
fn shared_db_secret_passes_with_aligned_urls() {
    let s = check_counter_shared_db(&shared_db("libsql://shared.example", "projector-token")).unwrap();
    assert_eq!(s.url, "libsql://shared.example");
    assert_eq!(s.app_token, "abcd***wxyz");
    assert_eq!(s.outbox_token, "***");
    assert_eq!(s.projector_token, "proj***oken");
}

#[test]
fn shared_db_secret_fails_on_misaligned_urls() {
    let r = check_counter_shared_db(&shared_db("libsql://other.example", "projector-token"));
    assert_eq!(
        r.err(),
        Some("shared counter DB URLs are not aligned across web-bff/outbox/projector".to_string())
    );
}

#[test]
fn shared_db_secret_fails_on_placeholder_token() {
    let r = check_counter_shared_db(&shared_db("libsql://shared.example", "REPLACE_WITH_TURSO_TOKEN"));
    assert_eq!(
        r.err(),
        Some("PROJECTOR_TURSO_AUTH_TOKEN still uses template placeholder".to_string())
    );
}

#[test]
fn shared_db_secret_reports_first_missing_export() {
    let e = exports(&[("APP_TURSO_URL", "libsql://x")]);
    assert_eq!(
        check_counter_shared_db(&e).err(),
        Some("APP_TURSO_AUTH_TOKEN is empty or missing".to_string())
    );
}

#[test]
fn age_public_key_comes_from_first_comment() {
    let content = "# created: now\n# public key: age1abc\n# public key: age1zzz\nAGE-SECRET-KEY-1";
    assert_eq!(read_age_public_key(content), Some("age1abc".to_string()));
    assert_eq!(read_age_public_key("AGE-SECRET-KEY-1"), None);
}

#[test]
fn merged_exports_prefer_the_later_source() {
    let mut base = exports(&[("A", "1"), ("B", "2")]);
    let more = exports(&[("B", "3"), ("C", "4")]);
    merge_exports(&mut base, &more);
    assert_eq!(base, exports(&[("A", "1"), ("B", "3"), ("C", "4")]));
}

#[test]
fn secret_names_drop_the_encrypted_suffix() {
    assert_eq!(secret_name("web-bff.enc.yaml"), "web-bff");
    assert_eq!(secret_name("x.enc.yaml.enc.yaml"), "x");
    assert_eq!(secret_name("plain.yaml"), "plain.yaml");
}

#[test]
fn secret_command_defaults_to_cargo_run() {
    assert_eq!(
        secret_command(&Vec::new(), "web-bff"),
        vec!["cargo".to_string(), "run".to_string(), "-p".to_string(), "web-bff".to_string()]
    );
    let given = vec!["echo".to_string(), "hi".to_string()];
    assert_eq!(secret_command(&given, "web-bff"), given);
}

#[test]
fn shared_db_secret_checks_urls_before_tokens() {
    let e = shared_db("file:./local.db", "REPLACE_WITH_TURSO_TOKEN");
    assert_eq!(
        check_counter_shared_db(&e).err(),
        Some("OUTBOX_DATABASE_URL still points to local file path: file:./local.db".to_string())
    );
    let e = shared_db("https://shared.example", "projector-token");
    assert_eq!(
        check_counter_shared_db(&e).err(),
        Some("OUTBOX_DATABASE_URL must use libsql:// URL, got: https://shared.example".to_string())
    );
    assert!(shared_db_tokens_ok(&shared_db("libsql://shared.example", "projector-token")));
    assert!(!shared_db_tokens_ok(&shared_db("libsql://shared.example", "aaa€bbbbbbb")));
}

#[test]
fn encrypted_secret_files_end_with_enc_yaml() {
    assert!(axum_harness::secrets::is_encrypted_secret("counter-shared-db.enc.yaml"));
    assert!(!axum_harness::secrets::is_encrypted_secret("counter-shared-db.yaml"));
    assert_eq!(secret_name("web-bff.enc.yaml"), "web-bff");
}

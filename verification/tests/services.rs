use rustsync::auth::{
    claims_at, create_jwt, create_jwt_at, extract_token, generate_random_password, hash_password,
    passwd2hash, reset_plan, session_cookie, session_hours, validate_jwt, validate_jwt_at,
    verify_password, ResetPlan,
};
use rustsync::config::{
    generate_random_string, get_data_dir, get_log_dir, listen_port, stored_secret, Config, EnvVars,
};
use rustsync::db::{
    has_business_data, init_plan, initial_password, migration_steps, missing_builtin_columns,
    uses_random_password, InitPlan, Migration, DB_VERSION,
};
use rustsync::models::{ApiResponse, ErrorCode};

#[test]
fn password_hashes_are_32_lower_hex_digits() {
    for (p, k) in [("", ""), ("admin", ""), ("密码", "key"), ("x", "y")] {
        let h = hash_password(p, k);
        assert_eq!(h.len(), 32);
        assert!(h.chars().all(|c| c.is_ascii_digit() || ('a'..='f').contains(&c)));
        assert_eq!(hash_password(p, k), h);
    }
}

#[test]
fn session_tokens_round_trip_until_they_expire() {
    let t = create_jwt_at(7, "admin", 48, 1_000_000, "secret");
    let c = validate_jwt_at(&t, "secret", 1_000_000).unwrap();
    assert_eq!((c.sub, c.user_name.as_str(), c.iat, c.exp), (7, "admin", 1_000_000, 1_000_000 + 48 * 3600));
    // Sixty seconds of leeway after the expiry, then refused.
    assert!(validate_jwt_at(&t, "secret", 1_000_000 + 48 * 3600 + 60).is_some());
    assert!(validate_jwt_at(&t, "secret", 1_000_000 + 48 * 3600 + 61).is_none());
    // A wrong secret or a damaged token is refused at any time.
    assert!(validate_jwt_at(&t, "other", 1_000_000).is_none());
    assert!(validate_jwt_at("not.a.token", "secret", 0).is_none());
    assert!(validate_jwt("not.a.token", "secret").is_none());
    // A token that expires after the clock's last second is always accepted.
    let late = create_jwt_at(9, "eve", 1, i64::MAX / 1000 - 3600, "s");
    assert!(validate_jwt(&late, "s").is_some());
    // A token made now is accepted now.
    let now = create_jwt(3, "bob", 2, "k");
    let c = validate_jwt(&now, "k").unwrap();
    assert_eq!((c.sub, c.user_name.as_str(), c.exp - c.iat), (3, "bob", 2 * 3600));
}

fn base64url_decode(s: &str) -> Vec<u8> {
    let alphabet = "ABCDEFGHIJKLMNOPQRSTUVWXYZabcdefghijklmnopqrstuvwxyz0123456789-_";
    let mut bits: u32 = 0;
    let mut count = 0;
    let mut out = Vec::new();
    for c in s.chars() {
        let v = alphabet.find(c).unwrap() as u32;
        bits = (bits << 6) | v;
        count += 6;
        if count >= 8 {
            count -= 8;
            out.push((bits >> count) as u8);
            bits &= (1 << count) - 1;
        }
    }
    out
}

#[test]
fn session_token_claims_keep_the_struct_order() {
    let t = create_jwt_at(7, "admin", 1, 100, "secret");
    let parts: Vec<&str> = t.split('.').collect();
    assert_eq!(parts.len(), 3);
    let header = String::from_utf8(base64url_decode(parts[0])).unwrap();
    assert_eq!(header, r#"{"typ":"JWT","alg":"HS256"}"#);
    let payload = String::from_utf8(base64url_decode(parts[1])).unwrap();
    assert_eq!(payload, r#"{"sub":7,"user_name":"admin","exp":3700,"iat":100}"#);
}

fn alnum(s: &str) -> bool {
    s.chars().all(|c| c.is_ascii_alphanumeric())
}

#[test]
fn password_hash_is_md5_of_password_and_key() {
    assert_eq!(passwd2hash("admin", ""), "21232f297a57a5a743894a0e4a801fc3");
    assert_eq!(passwd2hash("", ""), "d41d8cd98f00b204e9800998ecf8427e");
    assert_eq!(passwd2hash("ad", "min"), passwd2hash("admin", ""));
    assert_eq!(hash_password("admin", ""), "21232f297a57a5a743894a0e4a801fc3");
    assert_ne!(passwd2hash("admin", "k"), passwd2hash("admin", ""));
}

#[test]
fn password_verification_round_trip() {
    let stored = hash_password("s3cret", "pepper");
    assert!(verify_password("s3cret", &stored, "pepper"));
    assert!(!verify_password("s3cret", &stored, "salt"));
    assert!(!verify_password("wrong", &stored, "pepper"));
}

#[test]
fn generated_passwords_and_secrets_are_alphanumeric() {
    let p = generate_random_password();
    assert_eq!(p.chars().count(), 12);
    assert!(alnum(&p));
    let s = generate_random_string(256);
    assert_eq!(s.chars().count(), 256);
    assert!(alnum(&s));
    assert_eq!(generate_random_string(0), "");
}

#[test]
fn session_claims_and_cookie() {
    let c = claims_at(1, "admin", session_hours(2), 1000);
    assert_eq!((c.sub, c.iat, c.exp), (1, 1000, 1000 + 48 * 3600));
    assert_eq!(c.user_name, "admin");
    assert_eq!(
        session_cookie("tok", 2),
        "rust_sync=tok; Path=/; HttpOnly; SameSite=Lax; Max-Age=172800"
    );
}

#[test]
fn token_is_read_from_cookie_then_bearer_header() {
    assert_eq!(extract_token(Some("a=1; rust_sync=abc ; b=2"), None), Some("abc".to_string()));
    assert_eq!(extract_token(Some("a=1"), Some("Bearer xyz")), Some("xyz".to_string()));
    assert_eq!(extract_token(Some("rust_sync=c1"), Some("Bearer h1")), Some("c1".to_string()));
    assert_eq!(extract_token(None, Some("Basic zzz")), None);
    assert_eq!(extract_token(None, None), None);
}

#[test]
fn password_reset_plans() {
    assert_eq!(reset_plan(" key ", "key", Some(" new ")), ResetPlan::Use("new".to_string()));
    assert_eq!(reset_plan("key", "key", None), ResetPlan::Generate);
    assert_eq!(reset_plan("key", "key", Some("")), ResetPlan::Generate);
    assert_eq!(reset_plan("bad", "key", Some("x")), ResetPlan::WrongKey);
}

#[test]
fn configuration_defaults_follow_the_documentation() {
    let d = Config::default_for("data", "log", "sek");
    assert_eq!(d.password, "admin");
    assert_eq!((d.port, d.expires, d.log_level, d.console_level), (8023, 2, 1, 2));
    assert_eq!((d.log_save, d.task_save, d.task_timeout), (7, 0, 72));
    assert_eq!(d.log_dir, "log");
    assert_eq!(d.db_path, "data/rustsync.db");
    assert_eq!(d.timezone, "Asia/Shanghai");
    assert_eq!(get_data_dir(true), "/data/adb/rustsync/data");
    assert_eq!(get_data_dir(false), "data");
    assert_eq!(get_log_dir(true), "/data/adb/rustsync");
    assert_eq!(get_log_dir(false), "log");
    assert_eq!(stored_secret("  abc \n"), "abc");
}

#[test]
fn configuration_reads_the_environment() {
    let d = Config::default_for("data", "log", "sek");
    let env = EnvVars {
        password: None,
        passwd: Some("pw".to_string()),
        port: Some("9000".to_string()),
        expires: Some("x".to_string()),
        log_level: None,
        console_level: Some("3".to_string()),
        log_save: None,
        task_save: Some("5".to_string()),
        task_timeout: None,
        tz: Some("UTC".to_string()),
    };
    let c = Config::load(&d, &env);
    assert_eq!(c.password, "pw");
    assert_eq!((c.port, c.expires, c.console_level, c.task_save), (9000, 2, 3, 5));
    assert_eq!(c.timezone, "UTC");
    assert_eq!(c.jwt_secret, "sek");
    assert_eq!(listen_port(Some("8080")), 8080);
    assert_eq!(listen_port(Some("70000")), 8023);
    assert_eq!(listen_port(None), 8023);
}

#[test]
fn database_start_up_plans() {
    assert_eq!(init_plan(false, 0, true), InitPlan::CreateTables);
    assert_eq!(init_plan(true, 1, true), InitPlan::Migrate);
    assert_eq!(init_plan(true, 0, true), InitPlan::Refuse);
    assert_eq!(init_plan(true, 0, false), InitPlan::RecreateTables);
    assert!(has_business_data(&[0, 0, 3], 0));
    assert!(has_business_data(&[], 1));
    assert!(!has_business_data(&[0, 0], 0));
}

#[test]
fn initial_administrator_password() {
    assert!(uses_random_password("RANDOM"));
    assert!(uses_random_password(""));
    assert!(!uses_random_password("admin"));
    let fixed = initial_password("admin");
    assert_eq!(fixed.password, "admin");
    assert!(fixed.generated.is_none());
    let random = initial_password("RANDOM");
    assert_eq!(random.generated.as_deref(), Some(random.password.as_str()));
    assert_eq!(random.password.chars().count(), 12);
    assert!(alnum(&random.password));
}

#[test]
fn migrations_follow_the_stored_version() {
    assert!(migration_steps(DB_VERSION).is_empty());
    assert!(migration_steps(DB_VERSION + 5).is_empty());
    assert_eq!(migration_steps(0).len(), 13);
    assert_eq!(
        migration_steps(260715),
        vec![
            Migration::EnginesAndMounts,
            Migration::SourceSnapshot,
            Migration::SnapshotFingerprint,
            Migration::StoreVersion
        ]
    );
    assert_eq!(migration_steps(260717), vec![Migration::SnapshotFingerprint, Migration::StoreVersion]);
}

#[test]
fn builtin_engine_columns_to_add() {
    let have = vec!["id".to_string(), "systemKey".to_string()];
    assert_eq!(
        missing_builtin_columns(&have),
        vec![
            ("engineType".to_string(), "alist".to_string()),
            ("protected".to_string(), "0".to_string())
        ]
    );
    let all = vec!["engineType".to_string(), "systemKey".to_string(), "protected".to_string()];
    assert!(missing_builtin_columns(&all).is_empty());
}

#[test]
fn api_responses_carry_codes() {
    let r: ApiResponse<i32> = ApiResponse::ok(5);
    assert_eq!((r.code, r.data, r.msg), (200, Some(5), None));
    let e: ApiResponse<i32> = ApiResponse::not_found("none");
    assert_eq!((e.code, e.msg.as_deref()), (404, Some("none")));
    assert_eq!(ApiResponse::<()>::err("x").code, 500);
    assert_eq!(ApiResponse::<()>::bad_request("x").code, 400);
    assert_eq!(ApiResponse::<()>::conflict("x").code, 409);
    assert_eq!(ErrorCode::Forbidden.number(), 403);
}

use rustsync::i18n::{
    get_current_lang, get_supported_languages, load_builtin_languages, restore_lang,
    set_current_lang, t, t_format, I18n, LanguagePack,
};
use rustsync::job::{
    check_disable, check_run_one, classify_job_get, classify_job_put, edit_refused,
    eligible_jobs, normalize_file_size, normalize_source_mode, page_offset, should_schedule,
    snapshot_must_reset, task_duration, validate_and_normalize_job, JobBody, JobControl, JobQuery,
    SnapshotKey,
};
use rustsync::json::{json_bool, JsonObject, JsonValue};

fn builtin() -> I18n {
    let mut i = I18n::new();
    i.install_packs(Vec::new());
    i
}

fn body(src: &str, dst: &str) -> JobBody {
    JobBody {
        is_object: true,
        id: None,
        enable: None,
        remark: None,
        src_path: Some(JsonValue::Str(src.to_string())),
        dst_path: Some(JsonValue::Str(dst.to_string())),
        alist_id: None,
        use_cache_t: None,
        scan_interval_t: None,
        use_cache_s: None,
        scan_interval_s: None,
        method: None,
        source_mode: None,
        interval: None,
        is_cron: None,
        year: None,
        month: None,
        day: None,
        week: None,
        day_of_week: None,
        hour: None,
        minute: None,
        second: None,
        start_date: None,
        end_date: None,
        exclude: None,
        min_file_size: None,
        max_file_size: None,
    }
}

fn text(v: &Option<JsonValue>) -> Option<String> {
    match v {
        Some(JsonValue::Str(s)) => Some(s.clone()),
        _ => None,
    }
}

#[test]
fn translation_uses_current_language_and_falls_back_to_key() {
    let mut i = builtin();
    assert_eq!(get_current_lang(&i), "");
    assert_eq!(t(&i, "job_not_found"), "作业不存在");
    assert_eq!(set_current_lang(&mut i, "en"), "en");
    assert_eq!(t(&i, "job_not_found"), "Job not found");
    assert_eq!(t(&i, "no_such_key"), "no_such_key");
    assert_eq!(set_current_lang(&mut i, "fr"), "zh-CN");
    assert_eq!(get_current_lang(&i), "zh-CN");
    assert_eq!(get_supported_languages(&i), vec!["zh-CN".to_string(), "en".to_string()]);
}

#[test]
fn translation_fills_placeholders() {
    let i = builtin();
    assert_eq!(t_format(&i, "running_success", &[("url", "http://h:1")]), "RustSync 已启动: http://h:1");
}

#[test]
fn saved_language_is_restored_with_legacy_names() {
    let mut i = builtin();
    restore_lang(&mut i, Some(" eng "));
    assert_eq!(get_current_lang(&i), "en");
    restore_lang(&mut i, Some("zh_cn"));
    assert_eq!(get_current_lang(&i), "zh-CN");
    let mut j = builtin();
    restore_lang(&mut j, None);
    assert_eq!(get_current_lang(&j), "zh-CN");
    assert_eq!(load_builtin_languages().len(), 2);
}

#[test]
fn file_size_values_are_normalised() {
    assert_eq!(normalize_file_size(&JsonValue::Null), Ok(None));
    assert_eq!(normalize_file_size(&JsonValue::Number(Some(5))), Ok(Some(5)));
    assert_eq!(normalize_file_size(&JsonValue::Str("12".to_string())), Ok(Some(12)));
    assert_eq!(normalize_file_size(&JsonValue::Number(Some(-1))), Err("文件大小格式无效".to_string()));
    assert_eq!(normalize_file_size(&JsonValue::Bool(true)), Err("文件大小格式无效".to_string()));
    assert_eq!(normalize_file_size(&JsonValue::Str("x".to_string())), Err("文件大小格式无效".to_string()));
}

#[test]
fn source_mode_values_are_normalised() {
    assert_eq!(normalize_source_mode(&JsonValue::Null), Ok(0));
    assert_eq!(normalize_source_mode(&JsonValue::Bool(true)), Ok(1));
    assert_eq!(normalize_source_mode(&JsonValue::Number(Some(1))), Ok(1));
    assert_eq!(normalize_source_mode(&JsonValue::Str("0".to_string())), Ok(0));
    assert_eq!(normalize_source_mode(&JsonValue::Number(Some(2))), Err("sourceMode 无效".to_string()));
    assert_eq!(normalize_source_mode(&JsonValue::Array), Err("sourceMode 无效".to_string()));
    assert_eq!(normalize_source_mode(&JsonValue::Unsigned(u64::MAX)), Ok(0));
    assert_eq!(normalize_file_size(&JsonValue::Unsigned(u64::MAX)), Err("文件大小格式无效".to_string()));
}

#[test]
fn job_form_is_trimmed_and_accepted() {
    let i = builtin();
    let mut b = body("  /src  ", " /dst1 : /dst2 ");
    b.exclude = Some(JsonValue::Str(" *.tmp : : cache/ ".to_string()));
    b.remark = Some(JsonValue::Str("   ".to_string()));
    b.min_file_size = Some(JsonValue::Str("10".to_string()));
    assert_eq!(validate_and_normalize_job(&mut b, &i), Ok(()));
    assert_eq!(text(&b.src_path), Some("/src".to_string()));
    assert_eq!(text(&b.exclude), Some("*.tmp:cache/".to_string()));
    assert!(matches!(b.remark, Some(JsonValue::Null)));
    assert!(matches!(b.min_file_size, Some(JsonValue::Number(Some(10)))));
    assert!(matches!(b.source_mode, Some(JsonValue::Number(Some(0)))));
}

#[test]
fn manual_only_job_is_forced_enabled() {
    let i = builtin();
    let mut b = body("/a", "/b");
    b.is_cron = Some(JsonValue::Number(Some(2)));
    b.enable = Some(JsonValue::Bool(false));
    assert_eq!(validate_and_normalize_job(&mut b, &i), Ok(()));
    assert!(matches!(b.enable, Some(JsonValue::Bool(true))));
}

#[test]
fn job_form_rejections() {
    let i = builtin();
    let mut b = body("/data/a", "/x:/data/a/b");
    assert_eq!(validate_and_normalize_job(&mut b, &i), Err(t(&i, "source_target_overlap")));
    let mut c = body("/a", "/b");
    c.min_file_size = Some(JsonValue::Number(Some(10)));
    c.max_file_size = Some(JsonValue::Number(Some(5)));
    assert_eq!(validate_and_normalize_job(&mut c, &i), Err(t(&i, "file_size_range_invalid")));
    let mut d = body("/a", "/b");
    d.max_file_size = Some(JsonValue::Bool(false));
    assert_eq!(validate_and_normalize_job(&mut d, &i), Err("文件大小格式无效".to_string()));
    let mut e = body("/a", "/b");
    e.source_mode = Some(JsonValue::Str("2".to_string()));
    assert_eq!(validate_and_normalize_job(&mut e, &i), Err("sourceMode 无效".to_string()));
}

#[test]
fn editing_and_scheduling_rules() {
    assert!(edit_refused(1, 0));
    assert!(!edit_refused(1, 2));
    assert!(!edit_refused(0, 0));
    assert!(should_schedule(true, 1));
    assert!(!should_schedule(true, 2));
    assert!(!should_schedule(false, 0));
    let k = SnapshotKey {
        alist_id: Some(1),
        src_path: "/a".to_string(),
        dst_path: "/b".to_string(),
        method: 0,
        exclude: None,
        min_file_size: None,
        max_file_size: None,
    };
    assert!(!snapshot_must_reset(&k, &k.clone()));
    let mut k2 = k.clone();
    k2.exclude = Some("*.tmp".to_string());
    assert!(snapshot_must_reset(&k, &k2));
}

#[test]
fn job_control_requests() {
    assert_eq!(classify_job_put(Some(true), true, Some(3)), JobControl::Abort { job_id: 3 });
    assert_eq!(classify_job_put(Some(true), false, None), JobControl::Disable { job_id: 0 });
    assert_eq!(classify_job_put(Some(false), false, Some(4)), JobControl::Enable { job_id: 4 });
    assert_eq!(classify_job_put(None, false, Some(5)), JobControl::RunOne { job_id: 5 });
    assert_eq!(classify_job_put(None, true, None), JobControl::RunAll);
    let i = builtin();
    assert_eq!(check_disable(2, &i), Err(t(&i, "cannot_disable_manual_job")));
    assert_eq!(check_disable(0, &i), Ok(()));
    assert_eq!(check_run_one(0, 0, &i), Err(t(&i, "disabled_job_cannot_run")));
    assert_eq!(check_run_one(1, 2, &i), Err(t(&i, "job_running")));
    assert_eq!(check_run_one(1, 0, &i), Ok(()));
    assert_eq!(eligible_jobs(&vec![1, 2, 3], &vec![0, 1, 0], &i), Ok(vec![1, 3]));
    assert_eq!(eligible_jobs(&vec![1], &vec![2], &i), Err(t(&i, "no_job_for_run")));
}

#[test]
fn job_listing_requests() {
    assert_eq!(
        classify_job_get(Some("1"), Some("7"), Some("2"), None, None, None),
        JobQuery::Current { job_id: 7, status: Some(2) }
    );
    assert_eq!(
        classify_job_get(None, Some("7"), None, Some("9"), Some("2"), None),
        JobQuery::TaskItems { task_id: 9, page_num: 2, page_size: 10 }
    );
    assert_eq!(
        classify_job_get(None, Some("x"), None, None, None, Some("20")),
        JobQuery::Tasks { job_id: 0, page_num: 1, page_size: 20 }
    );
    assert_eq!(classify_job_get(None, None, None, None, None, None), JobQuery::Jobs { page_num: 1, page_size: 10 });
    assert_eq!(page_offset(3, 10), 20);
    assert_eq!(task_duration(100, Some(40)), 60);
}

#[test]
fn lenient_booleans() {
    assert_eq!(json_bool(&JsonValue::Bool(false)), Some(false));
    assert_eq!(json_bool(&JsonValue::Number(Some(2))), Some(true));
    assert_eq!(json_bool(&JsonValue::Number(Some(0))), Some(false));
    assert_eq!(json_bool(&JsonValue::Number(None)), None);
    assert_eq!(json_bool(&JsonValue::Str("1".to_string())), None);
}

#[test]
fn json_objects_give_first_entry_for_a_key() {
    let o = JsonObject {
        entries: vec![
            ("k".to_string(), JsonValue::Str("one".to_string())),
            ("n".to_string(), JsonValue::Number(Some(3))),
            ("k".to_string(), JsonValue::Str("two".to_string())),
        ],
    };
    assert_eq!(o.get_text("k"), Some("one".to_string()));
    assert_eq!(o.get_text("n"), None);
    assert_eq!(o.text_or("missing", "dflt"), "dflt");
}

#[test]
fn later_pack_of_a_language_replaces_the_earlier_one() {
    let mut first = LanguagePack::new();
    first.insert("hello", "one");
    let mut other = LanguagePack::new();
    other.insert("hello", "other");
    let mut second = LanguagePack::new();
    second.insert("hello", "two");
    let mut i = I18n::new();
    i.install_packs(vec![
        ("xx".to_string(), first),
        ("yy".to_string(), other),
        ("xx".to_string(), second),
    ]);
    assert_eq!(get_supported_languages(&i), vec!["xx".to_string(), "yy".to_string()]);
    set_current_lang(&mut i, "xx");
    assert_eq!(t(&i, "hello"), "two");
}

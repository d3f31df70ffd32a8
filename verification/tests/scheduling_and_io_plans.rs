use rustsync::driver::{create_driver, AliyunDriver, Driver, FtpDriver, LocalDriver, SftpDriver, SmbDriver, StorageDriver};
use rustsync::engine::{
    browse_child_path, browse_full_path, browse_label, check_mount_engine, dedup_roots, is_hidden,
    is_secret_key, mask_secrets, storage_type_list, MountEngineError, SECRET_MASK,
};
use rustsync::json::{JsonObject, JsonValue};
use rustsync::models::Job;
use rustsync::notify::{
    notification_plan, reply_error, status_error, wecom_access_token, wecom_send_url,
    BodyEncoding, HttpVerb, NotifyError, NotifyPlan, ReplyKind, StatusKind,
};
use rustsync::order::{browse_key, file_list_key, log_key, name_key, sorted_order, SortKey};
use rustsync::scheduler::{
    calculate_delay, cron_delay, cron_expression, interval_delay, loop_step, next_cron_delay,
    stop_after_run, LoopAction, LoopEvent, Scheduler,
};
use rustsync::sync::FileEntry;
use rustsync::system::{lines_of, static_file_path, LogQuery, TailReader};

fn obj(pairs: &[(&str, JsonValue)]) -> JsonObject {
    JsonObject { entries: pairs.iter().map(|(k, v)| (k.to_string(), v.clone())).collect() }
}

fn s(v: &str) -> JsonValue {
    JsonValue::Str(v.to_string())
}

// ---------- scheduling ----------

#[test]
fn interval_delays_in_seconds() {
    assert_eq!(interval_delay(None), 3600);
    assert_eq!(interval_delay(Some(0)), 60);
    assert_eq!(interval_delay(Some(5)), 300);
}

#[test]
fn cron_delay_from_next_firing() {
    assert_eq!(cron_delay(Some(10_500), 1_000, None), 9);
    assert_eq!(cron_delay(Some(1_000), 1_000, None), 1);
    assert_eq!(cron_delay(Some(0), 5_000, None), 1);
    assert_eq!(cron_delay(None, 5_000, Some(2)), 120);
}

#[test]
fn cron_expression_from_job_fields() {
    let mut job = Job::default();
    job.hour = Some("3".to_string());
    job.day_of_week = Some("1-5".to_string());
    assert_eq!(cron_expression(&job, "*/10"), "0 */10 3 * * 1-5");
    job.second = Some("30".to_string());
    assert_eq!(cron_expression(&job, "0"), "30 0 3 * * 1-5");
}

#[test]
fn delays_by_mode() {
    let mut job = Job::default();
    job.interval = Some(2);
    job.is_cron = 0;
    assert_eq!(calculate_delay(&job), 120);
    job.is_cron = 2;
    assert_eq!(calculate_delay(&job), 3600);
    job.is_cron = 1;
    job.minute = None;
    assert_eq!(calculate_delay(&job), 120);
    job.minute = Some("not a cron field".to_string());
    assert_eq!(next_cron_delay(&job), 120);
    job.minute = Some("*".to_string());
    let d = next_cron_delay(&job);
    assert!(d >= 1 && d <= 61);
}

#[test]
fn one_shot_cron_jobs_stop_after_their_run() {
    let mut job = Job::default();
    job.is_cron = 1;
    assert!(!stop_after_run(&job));
    job.start_date = Some("2024-01-01".to_string());
    assert!(stop_after_run(&job));
    job.interval = Some(1);
    assert_eq!(loop_step(&job, true, LoopEvent::RunFinished), LoopAction::Exit);
}

#[test]
fn run_loop_steps() {
    let mut job = Job::default();
    job.interval = Some(3);
    assert_eq!(loop_step(&job, true, LoopEvent::Begin), LoopAction::Sleep(180));
    assert_eq!(loop_step(&job, true, LoopEvent::Woke), LoopAction::RunSync);
    assert_eq!(loop_step(&job, false, LoopEvent::Woke), LoopAction::Exit);
    assert_eq!(loop_step(&job, true, LoopEvent::RunFinished), LoopAction::Sleep(180));
    assert_eq!(loop_step(&job, false, LoopEvent::Begin), LoopAction::Exit);
}

#[test]
fn scheduler_switches_jobs_on_and_off() {
    let mut sch = Scheduler::new();
    let mut job = Job::default();
    job.id = 4;
    assert!(!sch.is_enabled(4));
    sch.start_job(&job);
    assert!(sch.is_enabled(4));
    assert!(!sch.is_enabled(5));
    sch.stop_job(4);
    assert!(!sch.is_enabled(4));
}

// ---------- notifications ----------

#[test]
fn webhook_plan_with_defaults() {
    let p = obj(&[("url", s("http://hook"))]);
    match notification_plan(0, &p, "T", "B").unwrap() {
        NotifyPlan::Webhook { url, verb, encoding, fields } => {
            assert_eq!(url, "http://hook");
            assert_eq!((verb, encoding), (HttpVerb::Post, BodyEncoding::Json));
            assert_eq!(
                fields,
                vec![("content".to_string(), "B".to_string()), ("title".to_string(), "T".to_string())]
            );
        }
        _ => panic!("a webhook plan was expected"),
    }
}

#[test]
fn webhook_plan_variants_and_errors() {
    let get = obj(&[("url", s("u")), ("method", s("GET")), ("needContent", JsonValue::Bool(false))]);
    match notification_plan(0, &get, "T", "B").unwrap() {
        NotifyPlan::Webhook { verb, encoding, fields, .. } => {
            assert_eq!((verb, encoding), (HttpVerb::Get, BodyEncoding::Query));
            assert_eq!(fields, vec![("title".to_string(), "T".to_string())]);
        }
        _ => panic!("a webhook plan was expected"),
    }
    let form = obj(&[
        ("url", s("u")),
        ("method", s("PUT")),
        ("contentType", s("application/x-www-form-urlencoded")),
        ("titleName", s("k")),
        ("contentName", s("k")),
    ]);
    match notification_plan(0, &form, "T", "B").unwrap() {
        NotifyPlan::Webhook { verb, encoding, fields, .. } => {
            assert_eq!((verb, encoding), (HttpVerb::Put, BodyEncoding::Form));
            assert_eq!(fields, vec![("k".to_string(), "B".to_string())]);
        }
        _ => panic!("a webhook plan was expected"),
    }
    assert_eq!(notification_plan(0, &obj(&[]), "T", "B").unwrap_err(), NotifyError::WebhookMissingUrl);
    let bad_type = obj(&[("url", s("u")), ("contentType", s("text/plain"))]);
    assert_eq!(notification_plan(0, &bad_type, "T", "B").unwrap_err(), NotifyError::ContentTypeNotAllowed);
    let bad_verb = obj(&[("url", s("u")), ("method", s("DELETE"))]);
    assert_eq!(notification_plan(0, &bad_verb, "T", "B").unwrap_err(), NotifyError::MethodNotSupported);
}

#[test]
fn chat_channel_plans() {
    match notification_plan(1, &obj(&[("sendKey", s("K"))]), "T", "B").unwrap() {
        NotifyPlan::ServerChan { url, title, desp } => {
            assert_eq!(url, "https://sctapi.ftqq.com/K.send");
            assert_eq!((title.as_str(), desp.as_str()), ("T", "B"));
        }
        _ => panic!("a ServerChan plan was expected"),
    }
    assert!(matches!(notification_plan(1, &obj(&[]), "T", "B"), Ok(NotifyPlan::Skip)));
    match notification_plan(2, &obj(&[("url", s("d"))]), "T", "B").unwrap() {
        NotifyPlan::DingTalk { url, content } => assert_eq!((url.as_str(), content.as_str()), ("d", "T\n\nB")),
        _ => panic!("a DingTalk plan was expected"),
    }
    match notification_plan(4, &obj(&[("url", s("l"))]), "T", "B").unwrap() {
        NotifyPlan::Lark { url, title, body } => assert_eq!((url.as_str(), title.as_str(), body.as_str()), ("l", "T", "B")),
        _ => panic!("a Lark plan was expected"),
    }
    assert_eq!(notification_plan(9, &obj(&[]), "T", "B").unwrap_err(), NotifyError::Unsupported(9));
    assert_eq!(NotifyError::Unsupported(9).message(), "不支持的通知方式: 9");
}

#[test]
fn wecom_plan_and_replies() {
    assert_eq!(notification_plan(3, &obj(&[]), "T", "B").unwrap_err(), NotifyError::WeComMissingCorpId);
    assert_eq!(
        notification_plan(3, &obj(&[("corpid", s("c"))]), "T", "B").unwrap_err(),
        NotifyError::WeComMissingCorpSecret
    );
    let p = obj(&[("corpid", s("c")), ("corpsecret", s("x")), ("agentid", s("7"))]);
    match notification_plan(3, &p, "T", "B").unwrap() {
        NotifyPlan::WeCom { token_url, agent_id, to_user, content } => {
            assert_eq!(token_url, "https://qyapi.weixin.qq.com/cgi-bin/gettoken?corpid=c&corpsecret=x");
            assert_eq!((agent_id.as_str(), to_user.as_str()), ("7", "@all"));
            assert_eq!(content, "T\n-------------------\nB");
        }
        _ => panic!("a WeCom plan was expected"),
    }
    let ok = obj(&[("errcode", JsonValue::Number(Some(0))), ("access_token", s("tk"))]);
    assert_eq!(wecom_access_token(&ok), Ok("tk".to_string()));
    let failed = obj(&[("errcode", JsonValue::Number(Some(40013))), ("errmsg", s("bad corp"))]);
    assert_eq!(wecom_access_token(&failed), Err("获取企业微信 access_token 失败: bad corp".to_string()));
    let empty = obj(&[("errcode", JsonValue::Number(Some(0)))]);
    assert_eq!(wecom_access_token(&empty), Err("企业微信 access_token 为空".to_string()));
    assert_eq!(wecom_send_url("tk"), "https://qyapi.weixin.qq.com/cgi-bin/message/send?access_token=tk");
}

#[test]
fn service_reply_checks() {
    assert_eq!(reply_error(ReplyKind::DingTalk, &obj(&[("errcode", JsonValue::Number(Some(0)))])), None);
    assert_eq!(reply_error(ReplyKind::DingTalk, &obj(&[])), Some("钉钉发送失败: unknown".to_string()));
    assert_eq!(
        reply_error(ReplyKind::Lark, &obj(&[("code", JsonValue::Number(Some(1))), ("msg", s("no"))])),
        Some("Lark 群机器人发送失败: no".to_string())
    );
    assert_eq!(status_error(StatusKind::Webhook, 200, "x"), None);
    assert_eq!(status_error(StatusKind::ServerChan, 500, "oops"), Some("Server酱发送失败: oops".to_string()));
}

#[test]
fn email_plan_checks_fields_and_addresses() {
    assert_eq!(notification_plan(5, &obj(&[]), "T", "B").unwrap_err(), NotifyError::EmailMissingServer);
    let base = [
        ("smtpServer", s("smtp.example.com")),
        ("username", s("u")),
        ("password", s("p")),
        ("from", s("me@example.com")),
        ("to", s(" a@example.com, ,b@example.com ")),
        ("smtpPort", JsonValue::Number(Some(465))),
    ];
    match notification_plan(5, &obj(&base), "T", "B").unwrap() {
        NotifyPlan::Email { server, port, recipients, subject, body, .. } => {
            assert_eq!((server.as_str(), port), ("smtp.example.com", 465));
            assert_eq!(recipients, vec!["a@example.com".to_string(), "b@example.com".to_string()]);
            assert_eq!((subject.as_str(), body.as_str()), ("T", "B"));
        }
        _ => panic!("an e-mail plan was expected"),
    }
    // A port above i64::MAX is still read as an unsigned number and cut to 16 bits.
    let mut big_port = base.to_vec();
    big_port[5] = ("smtpPort", JsonValue::Unsigned(u64::MAX - 1));
    match notification_plan(5, &obj(&big_port), "T", "B").unwrap() {
        NotifyPlan::Email { port, .. } => assert_eq!(port, 65534),
        _ => panic!("an e-mail plan was expected"),
    }
    let mut bad_from = base.to_vec();
    bad_from[3] = ("from", s("not an address"));
    assert!(matches!(notification_plan(5, &obj(&bad_from), "T", "B"), Err(NotifyError::InvalidSender(_))));
    let mut bad_to = base.to_vec();
    bad_to[4] = ("to", s("a@example.com,@@"));
    assert!(matches!(notification_plan(5, &obj(&bad_to), "T", "B"), Err(NotifyError::InvalidRecipient(_))));
    let mut no_port = base.to_vec();
    no_port.pop();
    match notification_plan(5, &obj(&no_port), "T", "B").unwrap() {
        NotifyPlan::Email { port, .. } => assert_eq!(port, 587),
        _ => panic!("an e-mail plan was expected"),
    }
}

// ---------- storage and browsing ----------

#[test]
fn browse_paths() {
    assert_eq!(browse_full_path("/mnt/disk//", "//sub/dir"), "/mnt/disk/sub/dir");
    assert_eq!(browse_full_path("/mnt/disk", ""), "/mnt/disk");
    assert_eq!(browse_child_path("", "a"), "a");
    assert_eq!(browse_child_path("x/y", "a"), "x/y/a");
    assert_eq!(browse_label("/base", ""), "/base");
    assert_eq!(browse_label("/base", "sub"), "sub");
    assert!(is_hidden(".git"));
    assert!(!is_hidden("git"));
    assert!(!is_hidden(""));
}

#[test]
fn mount_configuration_rules() {
    assert!(is_secret_key("password") && is_secret_key("client_secret") && is_secret_key("refresh_token"));
    assert!(!is_secret_key("host"));
    assert_eq!(check_mount_engine(None), Err(MountEngineError::Missing));
    assert_eq!(check_mount_engine(Some("AList")), Err(MountEngineError::NotBuiltIn));
    assert_eq!(check_mount_engine(Some("RustSync")), Ok(()));
    assert_eq!(MountEngineError::Missing.message(), "引擎不存在");
    let kinds: Vec<String> = storage_type_list().into_iter().map(|(v, _)| v).collect();
    assert_eq!(kinds, vec!["local", "sftp", "ftp", "smb", "aliyun"]);
}

#[test]
fn filesystem_roots_are_listed_once() {
    let c = vec![
        ("/".to_string(), "/".to_string()),
        ("home".to_string(), "/home/u".to_string()),
        ("u".to_string(), "/home/u".to_string()),
        ("disk".to_string(), "/mnt/disk".to_string()),
    ];
    assert_eq!(
        dedup_roots(&c),
        vec![
            ("/".to_string(), "/".to_string()),
            ("home".to_string(), "/home/u".to_string()),
            ("disk".to_string(), "/mnt/disk".to_string()),
        ]
    );
}

#[test]
fn drivers_read_their_settings() {
    let empty = obj(&[]);
    let f = FtpDriver::new(&empty);
    assert_eq!((f.host.as_str(), f.port, f.username.as_str(), f.root.as_str()), ("localhost", 21, "anonymous", "/"));
    let s1 = SftpDriver::new(&obj(&[("port", JsonValue::Number(Some(2222))), ("password", s("pw"))]));
    assert_eq!((s1.port, s1.password.as_deref(), s1.username.as_str()), (2222, Some("pw"), "root"));
    let m = SmbDriver::new(&obj(&[("root_path", s("/share")), ("port", JsonValue::Number(Some(65536 + 445)))]));
    assert_eq!((m.root.as_str(), m.port, m.username.as_str()), ("/share", 445, "guest"));
    let a = AliyunDriver::new(&empty);
    assert_eq!(a.root, "root");
    let l = LocalDriver::new(&obj(&[("root_path", s("/srv"))]));
    assert_eq!(l.full_path("//a/b"), "/srv/a/b");
    assert_eq!(LocalDriver::new(&obj(&[("root_path", s("/srv/"))])).full_path("x"), "/srv/x");
    assert_eq!(l.name(), "local");
    let e = FileEntry { path: "p".to_string(), name: "p".to_string(), is_dir: false, size: 3, modified: None, fingerprint: None };
    assert_eq!(l.fingerprint(&e), "3:false:0");
    assert_eq!(f.name(), "ftp");
}

#[test]
fn driver_factory_by_kind() {
    let cfg = obj(&[("root_path", s("/r"))]);
    match create_driver("local", &cfg) {
        Ok(Driver::Local(d)) => assert_eq!(d.root, "/r"),
        _ => panic!("a local driver was expected"),
    }
    assert!(matches!(create_driver("smb", &cfg), Ok(Driver::Smb(_))));
    assert!(matches!(create_driver("aliyun", &cfg), Ok(Driver::Aliyun(_))));
    match create_driver("webdav", &cfg) {
        Err(m) => assert_eq!(m, "不支持的驱动类型: webdav"),
        Ok(_) => panic!("an unknown kind must be refused"),
    }
}

// ---------- listing order ----------

fn order_of(keys: Vec<SortKey>) -> Vec<usize> {
    sorted_order(&keys)
}

#[test]
fn browse_children_folders_first_then_by_name() {
    let keys = vec![browse_key(true, "b.txt"), browse_key(false, "zdir"), browse_key(true, "a.txt"), browse_key(false, "adir")];
    assert_eq!(order_of(keys), vec![3, 1, 2, 0]);
}

#[test]
fn file_listing_ignores_case_and_keeps_equal_keys_in_order() {
    let keys = vec![file_list_key(false, "B"), file_list_key(false, "a"), file_list_key(true, "Z"), file_list_key(false, "b")];
    assert_eq!(order_of(keys), vec![2, 1, 0, 3]);
}

#[test]
fn names_sort_by_code_point_and_prefix_first() {
    let keys = vec![name_key("ab"), name_key("a"), name_key("B"), name_key("é"), name_key("")];
    assert_eq!(order_of(keys), vec![4, 2, 1, 0, 3]);
}

#[test]
fn logs_newest_first() {
    let keys = vec![log_key(10), log_key(30), log_key(20), log_key(30)];
    assert_eq!(order_of(keys), vec![1, 3, 2, 0]);
    assert!(order_of(vec![]).is_empty());
}

// ---------- logs and static files ----------

#[test]
fn text_lines_like_str_lines() {
    assert_eq!(lines_of("a\nb\r\nc"), vec!["a", "b", "c"]);
    assert_eq!(lines_of("a\n\nb\n"), vec!["a", "", "b"]);
    assert_eq!(lines_of("x\r"), vec!["x\r"]);
    assert!(lines_of("").is_empty());
    assert_eq!(lines_of("\n"), vec![""]);
}

#[test]
fn log_tail_reads_chunks_from_the_end() {
    let text = "l1\nl2\nl3\nl4\n";
    let mut r = TailReader::new(text.len() as u64, 2);
    let (off, len) = r.next_read().unwrap();
    assert_eq!((off, len), (0, text.len() as u64));
    r.add_chunk(&text[off as usize..(off + len) as usize]);
    assert!(r.next_read().is_none());
    assert_eq!(r.finish(), "l3\nl4");
    let empty = TailReader::new(0, 5);
    assert!(empty.next_read().is_none());
    assert_eq!(empty.finish(), "");
    assert_eq!(LogQuery { lines: None }.line_count(), 500);
    assert_eq!(LogQuery { lines: Some(3) }.line_count(), 3);
}

#[test]
fn log_tail_of_a_large_file_uses_several_chunks() {
    let mut r = TailReader::new(20000, 1);
    assert_eq!(r.next_read(), Some((20000 - 8192, 8192)));
    r.add_chunk("last");
    assert_eq!(r.next_read(), Some((20000 - 2 * 8192, 8192)));
    r.add_chunk("x\ny");
    assert!(r.next_read().is_none());
    // The line cut by the chunk boundary is joined again.
    assert_eq!(r.finish(), "ylast");
}

#[test]
fn log_tail_joins_lines_across_chunks() {
    // A file of three chunks whose lines cross the boundaries.
    let text = format!("{}\n{}\n{}", "a".repeat(8000), "b".repeat(8000), "c".repeat(8000));
    let mut r = TailReader::new(text.len() as u64, 2);
    while let Some((off, len)) = r.next_read() {
        r.add_chunk(&text[off as usize..(off + len) as usize]);
    }
    let want: Vec<&str> = text.lines().collect();
    assert_eq!(r.finish(), want[want.len() - 2..].join("\n"));
    let mut one = TailReader::new(6, 2);
    let (off, len) = one.next_read().unwrap();
    one.add_chunk(&"a\nb\nc\n"[off as usize..(off + len) as usize]);
    assert_eq!(one.finish(), "b\nc");
}

#[test]
fn static_paths_stay_inside_the_static_directory() {
    assert_eq!(static_file_path("/assets/app.js"), "static/assets/app.js");
    assert_eq!(static_file_path("../../etc/passwd"), "static/etc/passwd");
    assert_eq!(static_file_path("a\\..\\b"), "static/a//b");
    assert_eq!(static_file_path("..."), "static/.");
    assert!(!static_file_path("....//x/.../..").contains(".."));
}

#[test]
fn mount_listing_withholds_secret_values() {
    let entries = vec![
        ("host".to_string(), 1),
        ("password".to_string(), 2),
        ("refresh_token".to_string(), 3),
        ("port".to_string(), 4),
    ];
    assert_eq!(
        mask_secrets(entries),
        vec![
            ("host".to_string(), Some(1)),
            ("password".to_string(), None),
            ("refresh_token".to_string(), None),
            ("port".to_string(), Some(4)),
        ]
    );
    assert_eq!(SECRET_MASK, "***");
}

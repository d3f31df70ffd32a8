//! Notifications: from a channel's method number and parameters to the
//! request to send (custom webhook, ServerChan, DingTalk, WeCom, Lark or
//! e-mail), and the checks on the services' replies.
use vstd::prelude::*;
use crate::json::{as_bool, as_i64, as_str, as_u64, obj_get, JsonObject};
use crate::order::text_lt;
use crate::runner::{list_items, trimmed_items};
use crate::text::{append_chars, chars_of, dec_int, i64_digits, pair_views, split, string_of};
use crate::files::str_eq;

verus! {

/// The HTTP method of a custom webhook.
#[derive(Debug, Clone, Copy, PartialEq, Eq)]
pub enum HttpVerb {
    Get,
    Post,
    Put,
}

/// How a custom webhook carries its fields.
#[derive(Debug, Clone, Copy, PartialEq, Eq)]
pub enum BodyEncoding {
    /// In the query string.
    Query,
    /// As a JSON object.
    Json,
    /// As an url-encoded form.
    Form,
}

/// The request (or requests) a notification sends.
#[derive(Debug, Clone)]
pub enum NotifyPlan {
    /// A custom webhook with its fields, ordered by name.
    Webhook { url: String, verb: HttpVerb, encoding: BodyEncoding, fields: Vec<(String, String)> },
    /// ServerChan: a form with `title` and `desp`.
    ServerChan { url: String, title: String, desp: String },
    /// A DingTalk robot: a text message.
    DingTalk { url: String, content: String },
    /// WeCom: fetch an access token at `token_url`, then send a text
    /// message from the agent to the users.
    WeCom { token_url: String, agent_id: String, to_user: String, content: String },
    /// A Lark robot: an interactive card with a title and a markdown body.
    Lark { url: String, title: String, body: String },
    /// E-mail over SMTP.
    Email {
        server: String,
        port: u16,
        username: String,
        password: String,
        from: String,
        recipients: Vec<String>,
        subject: String,
        body: String,
    },
    /// Nothing to send (the channel lacks its key or address).
    Skip,
}

/// Why a notification cannot be sent.
#[derive(Debug, Clone, PartialEq, Eq)]
pub enum NotifyError {
    WebhookMissingUrl,
    ContentTypeNotAllowed,
    MethodNotSupported,
    WeComMissingCorpId,
    WeComMissingCorpSecret,
    WeComMissingAgentId,
    EmailMissingServer,
    EmailMissingUsername,
    EmailMissingPassword,
    EmailMissingFrom,
    EmailMissingTo,
    /// The sender address does not parse; the parser's message.
    InvalidSender(String),
    /// A recipient address does not parse; the parser's message.
    InvalidRecipient(String),
    /// An unknown method number.
    Unsupported(i32),
}

// ==================== parameters ====================

/// A text parameter.
pub open spec fn p_str(params: Seq<(String, crate::json::JsonValue)>, key: Seq<char>) -> Option<
    Seq<char>,
> {
    as_str(obj_get(params, key))
}

/// A text parameter, or a default.
pub open spec fn p_str_or(
    params: Seq<(String, crate::json::JsonValue)>,
    key: Seq<char>,
    default: Seq<char>,
) -> Seq<char> {
    match p_str(params, key) {
        Some(s) => s,
        None => default,
    }
}

/// The fields a custom webhook sends, ordered by name as a JSON object
/// orders them: the title under its name and, when asked for, the content
/// under its name (the content wins when both names are equal).
pub open spec fn webhook_fields(
    title_name: Seq<char>,
    title: Seq<char>,
    content_name: Seq<char>,
    body: Seq<char>,
    need_content: bool,
) -> Seq<(Seq<char>, Seq<char>)> {
    if !need_content {
        seq![(title_name, title)]
    } else if content_name == title_name {
        seq![(title_name, body)]
    } else if text_lt(content_name, title_name) {
        seq![(content_name, body), (title_name, title)]
    } else {
        seq![(title_name, title), (content_name, body)]
    }
}

/// The method and encoding of a custom webhook: GET sends a query; POST and
/// PUT send JSON or a form, by content type.
pub open spec fn webhook_encoding(verb: Seq<char>, content_type: Seq<char>) -> Result<
    (HttpVerb, BodyEncoding),
    NotifyError,
> {
    if verb == "GET"@ {
        Ok((HttpVerb::Get, BodyEncoding::Query))
    } else if verb == "POST"@ || verb == "PUT"@ {
        let v = if verb == "POST"@ {
            HttpVerb::Post
        } else {
            HttpVerb::Put
        };
        if content_type == "application/json"@ {
            Ok((v, BodyEncoding::Json))
        } else if content_type == "application/x-www-form-urlencoded"@ {
            Ok((v, BodyEncoding::Form))
        } else {
            Err(NotifyError::ContentTypeNotAllowed)
        }
    } else {
        Err(NotifyError::MethodNotSupported)
    }
}

fn concat(a: &str, b: &str) -> (r: String)
    ensures
        r@ == a@ + b@,
{
    let mut v = chars_of(a);
    append_chars(&mut v, &chars_of(b));
    string_of(&v)
}

fn concat3(a: &str, b: &str, c: &str) -> (r: String)
    ensures
        r@ == a@ + b@ + c@,
{
    let mut v = chars_of(a);
    append_chars(&mut v, &chars_of(b));
    append_chars(&mut v, &chars_of(c));
    string_of(&v)
}

fn webhook_encoding_of(verb: &str, content_type: &str) -> (r: Result<
    (HttpVerb, BodyEncoding),
    NotifyError,
>)
    ensures
        r == webhook_encoding(verb@, content_type@),
{
    if str_eq(verb, "GET") {
        Ok((HttpVerb::Get, BodyEncoding::Query))
    } else if str_eq(verb, "POST") || str_eq(verb, "PUT") {
        let v = if str_eq(verb, "POST") {
            HttpVerb::Post
        } else {
            HttpVerb::Put
        };
        if str_eq(content_type, "application/json") {
            Ok((v, BodyEncoding::Json))
        } else if str_eq(content_type, "application/x-www-form-urlencoded") {
            Ok((v, BodyEncoding::Form))
        } else {
            Err(NotifyError::ContentTypeNotAllowed)
        }
    } else {
        Err(NotifyError::MethodNotSupported)
    }
}

fn text_less_str(a: &str, b: &str) -> (r: bool)
    ensures
        r == text_lt(a@, b@),
{
    let ka = crate::order::name_key(a);
    let kb = crate::order::name_key(b);
    crate::order::key_less(&ka, &kb)
}

fn webhook_fields_of(
    title_name: &str,
    title: &str,
    content_name: &str,
    body: &str,
    need_content: bool,
) -> (r: Vec<(String, String)>)
    ensures
        pair_views(r@) == webhook_fields(title_name@, title@, content_name@, body@, need_content),
{
    let mut r: Vec<(String, String)> = Vec::new();
    if !need_content {
        r.push((title_name.to_string(), title.to_string()));
    } else if str_eq(content_name, title_name) {
        r.push((title_name.to_string(), body.to_string()));
    } else if text_less_str(content_name, title_name) {
        r.push((content_name.to_string(), body.to_string()));
        r.push((title_name.to_string(), title.to_string()));
    } else {
        r.push((title_name.to_string(), title.to_string()));
        r.push((content_name.to_string(), body.to_string()));
    }
    assert(pair_views(r@) =~= webhook_fields(
        title_name@,
        title@,
        content_name@,
        body@,
        need_content,
    ));
    r
}

// ==================== addresses ====================

/// What parsing an e-mail address with `lettre`'s `Mailbox` gives: `None`
/// when it parses, else the parser's error message.
pub uninterp spec fn spec_mailbox_check(address: Seq<char>) -> Option<Seq<char>>;

/// Parses an address as a `lettre::message::Mailbox`; on failure, the
/// error's message. The outcome depends on the text alone.
#[verifier::external_body]
fn check_mailbox(address: &str) -> (r: Result<(), String>)
    ensures
        match r {
            Ok(()) => spec_mailbox_check(address@) is None,
            Err(e) => spec_mailbox_check(address@) == Some(e@),
        },
{
    match address.parse::<lettre::message::Mailbox>() {
        Ok(_) => Ok(()),
        Err(e) => Err(e.to_string()),
    }
}

/// The first recipient whose address does not parse, from position `i` on.
pub open spec fn first_bad_address(rs: Seq<Seq<char>>, i: int) -> Option<Seq<char>>
    decreases rs.len() - i,
{
    if i < 0 || i >= rs.len() {
        None
    } else {
        match spec_mailbox_check(rs[i]) {
            Some(e) => Some(e),
            None => first_bad_address(rs, i + 1),
        }
    }
}

/// The recipients of an e-mail: the `to` parameter split at commas, each
/// trimmed, empty ones dropped.
pub open spec fn recipients_of(to: Seq<char>) -> Seq<Seq<char>> {
    list_items(split(to, ','))
}

fn check_recipients(rs: &Vec<String>) -> (r: Result<(), String>)
    ensures
        match r {
            Ok(()) => first_bad_address(rs@.map_values(|s: String| s@), 0) is None,
            Err(e) => first_bad_address(rs@.map_values(|s: String| s@), 0) == Some(e@),
        },
{
    let ghost vs = rs@.map_values(|s: String| s@);
    let mut i: usize = 0;
    while i < rs.len()
        invariant
            i <= rs@.len(),
            vs == rs@.map_values(|s: String| s@),
            first_bad_address(vs, i as int) == first_bad_address(vs, 0),
        decreases rs@.len() - i,
    {
        assert(vs[i as int] == rs@[i as int]@);
        match check_mailbox(rs[i].as_str()) {
            Ok(()) => {},
            Err(e) => {
                return Err(e);
            },
        }
        i = i + 1;
    }
    Ok(())
}

// ==================== the plan ====================

/// The plan of a notification with `method` and `params`, for a title and a
/// body; see [`notification_plan`].
pub open spec fn plan_ok(
    method: i32,
    params: Seq<(String, crate::json::JsonValue)>,
    title: Seq<char>,
    body: Seq<char>,
    r: Result<NotifyPlan, NotifyError>,
) -> bool {
    if method == 0 {
        match p_str(params, "url"@) {
            None => r == Err::<NotifyPlan, NotifyError>(NotifyError::WebhookMissingUrl),
            Some(u) => match webhook_encoding(
                p_str_or(params, "method"@, "POST"@),
                p_str_or(params, "contentType"@, "application/json"@),
            ) {
                Err(e) => r == Err::<NotifyPlan, NotifyError>(e),
                Ok((v, enc)) => r matches Ok(NotifyPlan::Webhook { url, verb, encoding, fields })
                    && url@ == u && verb == v && encoding == enc && pair_views(fields@)
                    == webhook_fields(
                    p_str_or(params, "titleName"@, "title"@),
                    title,
                    p_str_or(params, "contentName"@, "content"@),
                    body,
                    match as_bool(obj_get(params, "needContent"@)) {
                        Some(b) => b,
                        None => true,
                    },
                ),
            },
        }
    } else if method == 1 {
        match p_str(params, "sendKey"@) {
            None => r matches Ok(NotifyPlan::Skip),
            Some(k) => r matches Ok(NotifyPlan::ServerChan { url, title: t, desp }) && url@
                == "https://sctapi.ftqq.com/"@ + k + ".send"@ && t@ == title && desp@ == body,
        }
    } else if method == 2 {
        match p_str(params, "url"@) {
            None => r matches Ok(NotifyPlan::Skip),
            Some(u) => r matches Ok(NotifyPlan::DingTalk { url, content }) && url@ == u
                && content@ == title + "\n\n"@ + body,
        }
    } else if method == 3 {
        if p_str(params, "corpid"@) is None {
            r == Err::<NotifyPlan, NotifyError>(NotifyError::WeComMissingCorpId)
        } else if p_str(params, "corpsecret"@) is None {
            r == Err::<NotifyPlan, NotifyError>(NotifyError::WeComMissingCorpSecret)
        } else if p_str(params, "agentid"@) is None {
            r == Err::<NotifyPlan, NotifyError>(NotifyError::WeComMissingAgentId)
        } else {
            r matches Ok(NotifyPlan::WeCom { token_url, agent_id, to_user, content })
                && token_url@ == "https://qyapi.weixin.qq.com/cgi-bin/gettoken?corpid="@
                + p_str(params, "corpid"@).unwrap() + "&corpsecret="@ + p_str(
                params,
                "corpsecret"@,
            ).unwrap() && agent_id@ == p_str(params, "agentid"@).unwrap() && to_user@
                == p_str_or(params, "touser"@, "@all"@) && content@ == title
                + "\n-------------------\n"@ + body
        }
    } else if method == 4 {
        match p_str(params, "url"@) {
            None => r matches Ok(NotifyPlan::Skip),
            Some(u) => r matches Ok(NotifyPlan::Lark { url, title: t, body: b }) && url@ == u
                && t@ == title && b@ == body,
        }
    } else if method == 5 {
        if p_str(params, "smtpServer"@) is None {
            r == Err::<NotifyPlan, NotifyError>(NotifyError::EmailMissingServer)
        } else if p_str(params, "username"@) is None {
            r == Err::<NotifyPlan, NotifyError>(NotifyError::EmailMissingUsername)
        } else if p_str(params, "password"@) is None {
            r == Err::<NotifyPlan, NotifyError>(NotifyError::EmailMissingPassword)
        } else if p_str(params, "from"@) is None {
            r == Err::<NotifyPlan, NotifyError>(NotifyError::EmailMissingFrom)
        } else if p_str(params, "to"@) is None {
            r == Err::<NotifyPlan, NotifyError>(NotifyError::EmailMissingTo)
        } else {
            match spec_mailbox_check(p_str(params, "from"@).unwrap()) {
                Some(e) => r matches Err(NotifyError::InvalidSender(m)) && m@ == e,
                None => match first_bad_address(recipients_of(p_str(params, "to"@).unwrap()), 0) {
                    Some(e) => r matches Err(NotifyError::InvalidRecipient(m)) && m@ == e,
                    None => r matches Ok(
                        NotifyPlan::Email {
                            server,
                            port,
                            username,
                            password,
                            from,
                            recipients,
                            subject,
                            body: b,
                        },
                    ) && server@ == p_str(params, "smtpServer"@).unwrap() && port == (match as_u64(
                        obj_get(params, "smtpPort"@),
                    ) {
                        Some(n) => n,
                        None => 587u64,
                    }) as u16 && username@ == p_str(params, "username"@).unwrap() && password@
                        == p_str(params, "password"@).unwrap() && from@ == p_str(
                        params,
                        "from"@,
                    ).unwrap() && recipients@.map_values(|s: String| s@) == recipients_of(
                        p_str(params, "to"@).unwrap(),
                    ) && subject@ == title && b@ == body,
                },
            }
        }
    } else {
        r == Err::<NotifyPlan, NotifyError>(NotifyError::Unsupported(method))
    }
}

fn webhook_plan(params: &JsonObject, title: &str, body: &str) -> (r: Result<NotifyPlan, NotifyError>)
    ensures
        plan_ok(0, params.entries@, title@, body@, r),
{
    let url = match params.get_text("url") {
        Some(u) => u,
        None => {
            return Err(NotifyError::WebhookMissingUrl);
        },
    };
    let verb = params.text_or("method", "POST");
    let content_type = params.text_or("contentType", "application/json");
    let need_content = match crate::json::get_bool(&params.get("needContent")) {
        Some(b) => b,
        None => true,
    };
    let title_name = params.text_or("titleName", "title");
    let content_name = params.text_or("contentName", "content");
    match webhook_encoding_of(verb.as_str(), content_type.as_str()) {
        Err(e) => Err(e),
        Ok((v, enc)) => {
            let fields = webhook_fields_of(
                title_name.as_str(),
                title,
                content_name.as_str(),
                body,
                need_content,
            );
            Ok(NotifyPlan::Webhook { url, verb: v, encoding: enc, fields })
        },
    }
}

fn wecom_plan(params: &JsonObject, title: &str, body: &str) -> (r: Result<NotifyPlan, NotifyError>)
    ensures
        plan_ok(3, params.entries@, title@, body@, r),
{
    let corp_id = match params.get_text("corpid") {
        Some(s) => s,
        None => {
            return Err(NotifyError::WeComMissingCorpId);
        },
    };
    let corp_secret = match params.get_text("corpsecret") {
        Some(s) => s,
        None => {
            return Err(NotifyError::WeComMissingCorpSecret);
        },
    };
    let agent_id = match params.get_text("agentid") {
        Some(s) => s,
        None => {
            return Err(NotifyError::WeComMissingAgentId);
        },
    };
    let to_user = params.text_or("touser", "@all");
    let mut u = chars_of("https://qyapi.weixin.qq.com/cgi-bin/gettoken?corpid=");
    append_chars(&mut u, &chars_of(corp_id.as_str()));
    append_chars(&mut u, &chars_of("&corpsecret="));
    append_chars(&mut u, &chars_of(corp_secret.as_str()));
    let content = concat3(title, "\n-------------------\n", body);
    Ok(NotifyPlan::WeCom { token_url: string_of(&u), agent_id, to_user, content })
}

fn email_plan(params: &JsonObject, title: &str, body: &str) -> (r: Result<NotifyPlan, NotifyError>)
    ensures
        plan_ok(5, params.entries@, title@, body@, r),
{
    let server = match params.get_text("smtpServer") {
        Some(s) => s,
        None => {
            return Err(NotifyError::EmailMissingServer);
        },
    };
    let port_number: u64 = match crate::json::get_u64(&params.get("smtpPort")) {
        Some(n) => n,
        None => 587,
    };
    let port = port_number as u16;
    let username = match params.get_text("username") {
        Some(s) => s,
        None => {
            return Err(NotifyError::EmailMissingUsername);
        },
    };
    let password = match params.get_text("password") {
        Some(s) => s,
        None => {
            return Err(NotifyError::EmailMissingPassword);
        },
    };
    let from = match params.get_text("from") {
        Some(s) => s,
        None => {
            return Err(NotifyError::EmailMissingFrom);
        },
    };
    let to = match params.get_text("to") {
        Some(s) => s,
        None => {
            return Err(NotifyError::EmailMissingTo);
        },
    };
    match check_mailbox(from.as_str()) {
        Err(e) => {
            return Err(NotifyError::InvalidSender(e));
        },
        Ok(()) => {},
    }
    let recipients = trimmed_items(to.as_str(), ',');
    match check_recipients(&recipients) {
        Err(e) => {
            return Err(NotifyError::InvalidRecipient(e));
        },
        Ok(()) => {},
    }
    Ok(
        NotifyPlan::Email {
            server,
            port,
            username,
            password,
            from,
            recipients,
            subject: title.to_string(),
            body: body.to_string(),
        },
    )
}

/// The request to send for a notification through the channel with method
/// number `method` and parameters `params` (a custom webhook, ServerChan,
/// DingTalk, WeCom, Lark or e-mail), or why it cannot be sent.
pub fn notification_plan(method: i32, params: &JsonObject, title: &str, body: &str) -> (r: Result<
    NotifyPlan,
    NotifyError,
>)
    ensures
        plan_ok(method, params.entries@, title@, body@, r),
{
    if method == 0 {
        webhook_plan(params, title, body)
    } else if method == 1 {
        match params.get_text("sendKey") {
            None => Ok(NotifyPlan::Skip),
            Some(k) => Ok(
                NotifyPlan::ServerChan {
                    url: concat3("https://sctapi.ftqq.com/", k.as_str(), ".send"),
                    title: title.to_string(),
                    desp: body.to_string(),
                },
            ),
        }
    } else if method == 2 {
        match params.get_text("url") {
            None => Ok(NotifyPlan::Skip),
            Some(u) => Ok(NotifyPlan::DingTalk { url: u, content: concat3(title, "\n\n", body) }),
        }
    } else if method == 3 {
        wecom_plan(params, title, body)
    } else if method == 4 {
        match params.get_text("url") {
            None => Ok(NotifyPlan::Skip),
            Some(u) => Ok(
                NotifyPlan::Lark { url: u, title: title.to_string(), body: body.to_string() },
            ),
        }
    } else if method == 5 {
        email_plan(params, title, body)
    } else {
        Err(NotifyError::Unsupported(method))
    }
}

// ==================== messages and replies ====================

/// The message of a notification error.
pub open spec fn notify_error_text(e: NotifyError) -> Seq<char> {
    match e {
        NotifyError::WebhookMissingUrl => "自定义 Webhook 缺少 url 参数"@,
        NotifyError::ContentTypeNotAllowed => "ContentType not allowed"@,
        NotifyError::MethodNotSupported => "Method not supported"@,
        NotifyError::WeComMissingCorpId => "企业微信缺少 corpid"@,
        NotifyError::WeComMissingCorpSecret => "企业微信缺少 corpsecret"@,
        NotifyError::WeComMissingAgentId => "企业微信缺少 agentid"@,
        NotifyError::EmailMissingServer => "邮件缺少 SMTP 服务器"@,
        NotifyError::EmailMissingUsername => "邮件缺少用户名"@,
        NotifyError::EmailMissingPassword => "邮件缺少密码"@,
        NotifyError::EmailMissingFrom => "邮件缺少发件人"@,
        NotifyError::EmailMissingTo => "邮件缺少收件人"@,
        NotifyError::InvalidSender(m) => "发件人地址无效: "@ + m@,
        NotifyError::InvalidRecipient(m) => "收件人地址无效: "@ + m@,
        NotifyError::Unsupported(n) => "不支持的通知方式: "@ + dec_int(n as int),
    }
}

impl NotifyError {
    /// The error's message.
    pub fn message(&self) -> (r: String)
        ensures
            r@ == notify_error_text(*self),
    {
        match self {
            NotifyError::WebhookMissingUrl => "自定义 Webhook 缺少 url 参数".to_string(),
            NotifyError::ContentTypeNotAllowed => "ContentType not allowed".to_string(),
            NotifyError::MethodNotSupported => "Method not supported".to_string(),
            NotifyError::WeComMissingCorpId => "企业微信缺少 corpid".to_string(),
            NotifyError::WeComMissingCorpSecret => "企业微信缺少 corpsecret".to_string(),
            NotifyError::WeComMissingAgentId => "企业微信缺少 agentid".to_string(),
            NotifyError::EmailMissingServer => "邮件缺少 SMTP 服务器".to_string(),
            NotifyError::EmailMissingUsername => "邮件缺少用户名".to_string(),
            NotifyError::EmailMissingPassword => "邮件缺少密码".to_string(),
            NotifyError::EmailMissingFrom => "邮件缺少发件人".to_string(),
            NotifyError::EmailMissingTo => "邮件缺少收件人".to_string(),
            NotifyError::InvalidSender(m) => concat("发件人地址无效: ", m.as_str()),
            NotifyError::InvalidRecipient(m) => concat("收件人地址无效: ", m.as_str()),
            NotifyError::Unsupported(n) => {
                let mut v = chars_of("不支持的通知方式: ");
                append_chars(&mut v, &i64_digits(*n as i64));
                string_of(&v)
            },
        }
    }
}

/// A service whose reply carries a status code and message in its JSON.
#[derive(Debug, Clone, Copy, PartialEq, Eq)]
pub enum ReplyKind {
    DingTalk,
    WeComToken,
    WeComSend,
    Lark,
}

/// The key of the result code in a reply.
pub open spec fn code_key(kind: ReplyKind) -> Seq<char> {
    match kind {
        ReplyKind::Lark => "code"@,
        _ => "errcode"@,
    }
}

/// The key of the message in a reply.
pub open spec fn msg_key(kind: ReplyKind) -> Seq<char> {
    match kind {
        ReplyKind::Lark => "msg"@,
        _ => "errmsg"@,
    }
}

/// The start of the error message for a failed reply.
pub open spec fn reply_prefix(kind: ReplyKind) -> Seq<char> {
    match kind {
        ReplyKind::DingTalk => "钉钉发送失败: "@,
        ReplyKind::WeComToken => "获取企业微信 access_token 失败: "@,
        ReplyKind::WeComSend => "发送企业微信消息失败: "@,
        ReplyKind::Lark => "Lark 群机器人发送失败: "@,
    }
}

/// A reply fails unless its code is 0 (a missing code counts as -1); the
/// error names the reply's message, or `unknown`.
pub open spec fn reply_error_spec(kind: ReplyKind, reply: Seq<(String, crate::json::JsonValue)>) -> Option<
    Seq<char>,
> {
    let code: int = match as_i64(obj_get(reply, code_key(kind))) {
        Some(c) => c as int,
        None => -1,
    };
    if code != 0 {
        Some(reply_prefix(kind) + p_str_or(reply, msg_key(kind), "unknown"@))
    } else {
        None
    }
}

/// Checks a service's JSON reply.
pub fn reply_error(kind: ReplyKind, reply: &JsonObject) -> (r: Option<String>)
    ensures
        match r {
            Some(m) => reply_error_spec(kind, reply.entries@) == Some(m@),
            None => reply_error_spec(kind, reply.entries@) is None,
        },
{
    let (ck, mk, prefix) = match kind {
        ReplyKind::DingTalk => ("errcode", "errmsg", "钉钉发送失败: "),
        ReplyKind::WeComToken => ("errcode", "errmsg", "获取企业微信 access_token 失败: "),
        ReplyKind::WeComSend => ("errcode", "errmsg", "发送企业微信消息失败: "),
        ReplyKind::Lark => ("code", "msg", "Lark 群机器人发送失败: "),
    };
    let code: i64 = match crate::json::get_i64(&reply.get(ck)) {
        Some(c) => c,
        None => -1,
    };
    if code != 0 {
        let m = reply.text_or(mk, "unknown");
        Some(concat(prefix, m.as_str()))
    } else {
        None
    }
}

/// The access token in a WeCom token reply: a failed reply gives its error,
/// a reply without a token text the empty-token error.
pub fn wecom_access_token(reply: &JsonObject) -> (r: Result<String, String>)
    ensures
        match reply_error_spec(ReplyKind::WeComToken, reply.entries@) {
            Some(e) => r matches Err(m) && m@ == e,
            None => match p_str(reply.entries@, "access_token"@) {
                Some(t) => r matches Ok(tok) && tok@ == t,
                None => r matches Err(m) && m@ == "企业微信 access_token 为空"@,
            },
        },
{
    match reply_error(ReplyKind::WeComToken, reply) {
        Some(e) => Err(e),
        None => match reply.get_text("access_token") {
            Some(t) => Ok(t),
            None => Err("企业微信 access_token 为空".to_string()),
        },
    }
}

/// The WeCom message-sending address for an access token.
pub fn wecom_send_url(access_token: &str) -> (r: String)
    ensures
        r@ == "https://qyapi.weixin.qq.com/cgi-bin/message/send?access_token="@ + access_token@,
{
    concat("https://qyapi.weixin.qq.com/cgi-bin/message/send?access_token=", access_token)
}

/// A service judged by its HTTP status alone.
#[derive(Debug, Clone, Copy, PartialEq, Eq)]
pub enum StatusKind {
    Webhook,
    ServerChan,
}

/// A reply fails unless its status is 200; the error carries the reply's
/// text.
pub fn status_error(kind: StatusKind, status: u16, body: &str) -> (r: Option<String>)
    ensures
        status == 200 ==> r is None,
        status != 200 ==> (r matches Some(m) && m@ == match kind {
            StatusKind::Webhook => "自定义 Webhook 返回非 200: "@,
            StatusKind::ServerChan => "Server酱发送失败: "@,
        } + body@),
{
    if status == 200 {
        None
    } else {
        match kind {
            StatusKind::Webhook => Some(concat("自定义 Webhook 返回非 200: ", body)),
            StatusKind::ServerChan => Some(concat("Server酱发送失败: ", body)),
        }
    }
}

/// Law: a custom webhook's request follows its configured method and
/// content type: GET carries the fields in the query string; POST and PUT
/// send them as JSON exactly when the content type is `application/json`,
/// as an url-encoded form exactly when it is
/// `application/x-www-form-urlencoded`, and any other content type is
/// refused; any other method is refused.
pub proof fn law_webhook_request_follows_settings(
    params: Seq<(String, crate::json::JsonValue)>,
    title: Seq<char>,
    body: Seq<char>,
    r: Result<NotifyPlan, NotifyError>,
)
    requires
        plan_ok(0, params, title, body, r),
        p_str(params, "url"@) is Some,
    ensures
        ({
            let verb = p_str_or(params, "method"@, "POST"@);
            let ct = p_str_or(params, "contentType"@, "application/json"@);
            &&& verb == "GET"@ ==> (r matches Ok(
                NotifyPlan::Webhook { verb: HttpVerb::Get, encoding: BodyEncoding::Query, .. },
            ))
            &&& (verb == "POST"@ || verb == "PUT"@) ==> {
                &&& r is Ok <==> (ct == "application/json"@ || ct
                    == "application/x-www-form-urlencoded"@)
                &&& (r matches Ok(NotifyPlan::Webhook { encoding: BodyEncoding::Json, .. })) <==> ct
                    == "application/json"@
                &&& (r matches Ok(NotifyPlan::Webhook { encoding: BodyEncoding::Form, .. })) <==> ct
                    == "application/x-www-form-urlencoded"@
                &&& r is Ok ==> ((r matches Ok(NotifyPlan::Webhook { verb: HttpVerb::Post, .. })) <==> verb
                    == "POST"@)
                &&& r is Ok ==> ((r matches Ok(NotifyPlan::Webhook { verb: HttpVerb::Put, .. })) <==> verb
                    == "PUT"@)
                &&& r is Err ==> r == Err::<NotifyPlan, NotifyError>(NotifyError::ContentTypeNotAllowed)
            }
            &&& (verb != "GET"@ && verb != "POST"@ && verb != "PUT"@) ==> r == Err::<
                NotifyPlan,
                NotifyError,
            >(NotifyError::MethodNotSupported)
        }),
{
    reveal_strlit("GET");
    reveal_strlit("POST");
    reveal_strlit("PUT");
    reveal_strlit("application/json");
    reveal_strlit("application/x-www-form-urlencoded");
    let verb = p_str_or(params, "method"@, "POST"@);
    let ct = p_str_or(params, "contentType"@, "application/json"@);
    assert("GET"@[0] == 'G' && "PUT"@[0] == 'P' && "GET"@.len() == 3 && "POST"@.len() == 4 && "PUT"@.len() == 3);
    assert("GET"@ != "POST"@ && "GET"@ != "PUT"@ && "POST"@ != "PUT"@);
    assert("application/json"@.len() == 16 && "application/x-www-form-urlencoded"@.len() == 33);
    assert("application/json"@ != "application/x-www-form-urlencoded"@);
    let u = p_str(params, "url"@)->0;
    match webhook_encoding(verb, ct) {
        Err(e) => {
            assert(r == Err::<NotifyPlan, NotifyError>(e));
        },
        Ok((v, enc)) => {
            assert(r matches Ok(NotifyPlan::Webhook { verb, encoding, .. }) && verb == v && encoding == enc);
        },
    }
}

} // verus!

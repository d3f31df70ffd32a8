//! Service configuration: defaults, the data directory, and the settings
//! read from environment variables.
use vstd::prelude::*;
use rand::Rng;
use crate::text::{chars_of, parse_u16, parse_u32, parse_unsigned, string_of, trim, trim_chars};

verus! {

/// Data directory when the Android configuration directory is absent.
pub const DEFAULT_DATA_DIR: &'static str = "data";

/// The Android (Magisk) configuration directory.
pub const CONF_DIR: &'static str = "/data/adb/rustsync";

/// The Android module directory.
pub const MOD_DIR: &'static str = "/data/adb/modules/rustsync_magisk";

/// The administrator password when none is configured (`RANDOM`, or an
/// empty setting, asks for a generated one instead).
pub const DEFAULT_PASSWORD: &'static str = "admin";

pub const DEFAULT_PORT: u16 = 8023;

pub const DEFAULT_EXPIRES: u32 = 2;

pub const DEFAULT_LOG_LEVEL: u32 = 1;

pub const DEFAULT_CONSOLE_LEVEL: u32 = 2;

pub const DEFAULT_LOG_SAVE: u32 = 7;

pub const DEFAULT_TASK_SAVE: u32 = 0;

pub const DEFAULT_TASK_TIMEOUT: u32 = 72;

/// The service configuration.
#[derive(Debug, Clone)]
pub struct Config {
    pub password: String,
    pub port: u16,
    pub expires: u32,
    pub log_level: u32,
    pub console_level: u32,
    pub log_save: u32,
    pub task_save: u32,
    pub task_timeout: u32,
    pub data_dir: String,
    pub log_dir: String,
    pub db_path: String,
    pub jwt_secret: String,
    pub timezone: String,
}

/// The data directory: `/data/adb/rustsync/data` when the Android
/// configuration directory exists, `data` otherwise.
pub fn get_data_dir(conf_dir_exists: bool) -> (r: String)
    ensures
        conf_dir_exists ==> r@ == "/data/adb/rustsync/data"@,
        !conf_dir_exists ==> r@ == "data"@,
{
    if conf_dir_exists {
        "/data/adb/rustsync/data".to_string()
    } else {
        "data".to_string()
    }
}

/// The log directory: `/data/adb/rustsync` (where `rustsync.log` lies)
/// when the Android configuration directory exists, `log` (beside `data`)
/// otherwise.
pub fn get_log_dir(conf_dir_exists: bool) -> (r: String)
    ensures
        conf_dir_exists ==> r@ == "/data/adb/rustsync"@,
        !conf_dir_exists ==> r@ == "log"@,
{
    if conf_dir_exists {
        "/data/adb/rustsync".to_string()
    } else {
        "log".to_string()
    }
}

/// The secret read back from the key file: the file text, trimmed.
pub fn stored_secret(content: &str) -> (r: String)
    ensures
        r@ == trim(content@),
{
    string_of(&trim_chars(&chars_of(content)))
}

fn with_suffix(dir: &str, suffix: &str) -> (r: String)
    ensures
        r@ == dir@ + suffix@,
{
    let mut s = dir.to_string();
    s.append(suffix);
    s
}

impl Config {
    /// The default configuration for a data directory, a log directory and
    /// a token secret.
    pub fn default_for(data_dir: &str, log_dir: &str, jwt_secret: &str) -> (c: Config)
        ensures
            c.password@ == "admin"@,
            c.port == 8023,
            c.expires == 2,
            c.log_level == 1,
            c.console_level == 2,
            c.log_save == 7,
            c.task_save == 0,
            c.task_timeout == 72,
            c.data_dir@ == data_dir@,
            c.log_dir@ == log_dir@,
            c.db_path@ == data_dir@ + "/rustsync.db"@,
            c.jwt_secret@ == jwt_secret@,
            c.timezone@ == "Asia/Shanghai"@,
    {
        Config {
            password: DEFAULT_PASSWORD.to_string(),
            port: DEFAULT_PORT,
            expires: DEFAULT_EXPIRES,
            log_level: DEFAULT_LOG_LEVEL,
            console_level: DEFAULT_CONSOLE_LEVEL,
            log_save: DEFAULT_LOG_SAVE,
            task_save: DEFAULT_TASK_SAVE,
            task_timeout: DEFAULT_TASK_TIMEOUT,
            log_dir: log_dir.to_string(),
            db_path: with_suffix(data_dir, "/rustsync.db"),
            data_dir: data_dir.to_string(),
            jwt_secret: jwt_secret.to_string(),
            timezone: "Asia/Shanghai".to_string(),
        }
    }
}

/// The environment variables the configuration reads (`None`: unset).
#[derive(Debug, Clone)]
pub struct EnvVars {
    pub password: Option<String>,
    pub passwd: Option<String>,
    pub port: Option<String>,
    pub expires: Option<String>,
    pub log_level: Option<String>,
    pub console_level: Option<String>,
    pub log_save: Option<String>,
    pub task_save: Option<String>,
    pub task_timeout: Option<String>,
    pub tz: Option<String>,
}

/// A numeric setting: the variable's value when it parses, else the default.
pub open spec fn env_number(v: Option<String>, max: nat, default: nat) -> nat {
    match v {
        Some(s) => match parse_unsigned(s@, max) {
            Some(n) => n,
            None => default,
        },
        None => default,
    }
}

fn env_u32(v: &Option<String>, default: u32) -> (r: u32)
    ensures
        r == env_number(*v, u32::MAX as nat, default as nat),
{
    match v {
        Some(s) => match parse_u32(&chars_of(s.as_str())) {
            Some(n) => n,
            None => default,
        },
        None => default,
    }
}

/// The administrator password setting: `RUSTSYNC_PASSWORD`, else
/// `RUSTSYNC_PASSWD`, else `admin`.
pub open spec fn env_password_text(env: EnvVars) -> Seq<char> {
    match env.password {
        Some(p) => p@,
        None => match env.passwd {
            Some(p) => p@,
            None => "admin"@,
        },
    }
}

impl Config {
    /// The configuration: the defaults overridden by the environment
    /// (`RUSTSYNC_PASSWORD`/`RUSTSYNC_PASSWD`, `RUSTSYNC_PORT`,
    /// `RUSTSYNC_EXPIRES`, `RUSTSYNC_LOG_LEVEL`, `RUSTSYNC_CONSOLE_LEVEL`,
    /// `RUSTSYNC_LOG_SAVE`, `RUSTSYNC_TASK_SAVE`, `RUSTSYNC_TASK_TIMEOUT`,
    /// `TZ`); numbers that do not parse keep their default; directories,
    /// database path and secret come from the defaults.
    pub fn load(default: &Config, env: &EnvVars) -> (c: Config)
        ensures
            c.password@ == env_password_text(*env),
            c.port == env_number(env.port, u16::MAX as nat, default.port as nat),
            c.expires == env_number(env.expires, u32::MAX as nat, default.expires as nat),
            c.log_level == env_number(env.log_level, u32::MAX as nat, default.log_level as nat),
            c.console_level == env_number(
                env.console_level,
                u32::MAX as nat,
                default.console_level as nat,
            ),
            c.log_save == env_number(env.log_save, u32::MAX as nat, default.log_save as nat),
            c.task_save == env_number(env.task_save, u32::MAX as nat, default.task_save as nat),
            c.task_timeout == env_number(
                env.task_timeout,
                u32::MAX as nat,
                default.task_timeout as nat,
            ),
            c.timezone@ == (match env.tz {
                Some(t) => t@,
                None => default.timezone@,
            }),
            c.jwt_secret@ == default.jwt_secret@,
            c.data_dir@ == default.data_dir@,
            c.log_dir@ == default.log_dir@,
            c.db_path@ == default.db_path@,
    {
        let password = match &env.password {
            Some(p) => p.clone(),
            None => match &env.passwd {
                Some(p) => p.clone(),
                None => DEFAULT_PASSWORD.to_string(),
            },
        };
        let port = match &env.port {
            Some(s) => match parse_u16(&chars_of(s.as_str())) {
                Some(n) => n,
                None => default.port,
            },
            None => default.port,
        };
        Config {
            password,
            port,
            expires: env_u32(&env.expires, default.expires),
            log_level: env_u32(&env.log_level, default.log_level),
            console_level: env_u32(&env.console_level, default.console_level),
            log_save: env_u32(&env.log_save, default.log_save),
            task_save: env_u32(&env.task_save, default.task_save),
            task_timeout: env_u32(&env.task_timeout, default.task_timeout),
            timezone: match &env.tz {
                Some(t) => t.clone(),
                None => default.timezone.clone(),
            },
            jwt_secret: default.jwt_secret.clone(),
            data_dir: default.data_dir.clone(),
            log_dir: default.log_dir.clone(),
            db_path: default.db_path.clone(),
        }
    }
}

/// The port the server listens on: `RUSTSYNC_PORT` when it parses, else 8023.
pub fn listen_port(port_var: Option<&str>) -> (r: u16)
    ensures
        r == (match port_var {
            Some(s) => match parse_unsigned(s@, u16::MAX as nat) {
                Some(n) => n,
                None => 8023,
            },
            None => 8023,
        }),
{
    match port_var {
        Some(s) => match parse_u16(&chars_of(s)) {
            Some(n) => n,
            None => DEFAULT_PORT,
        },
        None => DEFAULT_PORT,
    }
}

/// Letters and digits used for generated secrets and passwords.
pub open spec fn alphanumeric(c: char) -> bool {
    ('a' <= c <= 'z') || ('A' <= c <= 'Z') || ('0' <= c <= '9')
}

/// A number drawn uniformly from `0..bound` (`rand::Rng::gen_range` on the
/// thread-local generator).
#[verifier::external_body]
fn random_below(bound: usize) -> (r: usize)
    requires
        bound > 0,
    ensures
        r < bound,
{
    rand::thread_rng().gen_range(0..bound)
}

/// A random string of letters and digits.
pub fn generate_random_string(length: usize) -> (r: String)
    ensures
        r@.len() == length,
        forall|i: int| 0 <= i < r@.len() ==> alphanumeric(#[trigger] r@[i]),
{
    let chars = alphabet_all();
    let mut v: Vec<char> = Vec::new();
    let mut i: usize = 0;
    while i < length
        invariant
            i <= length,
            v@.len() == i,
            chars@.len() == 62,
            forall|k: int| 0 <= k < 62 ==> alphanumeric(#[trigger] chars@[k]),
            forall|k: int| 0 <= k < v@.len() ==> alphanumeric(#[trigger] v@[k]),
        decreases length - i,
    {
        let k = random_below(chars.len());
        v.push(chars[k]);
        i = i + 1;
    }
    string_of(&v)
}

fn alphabet_all() -> (r: Vec<char>)
    ensures
        r@.len() == 62,
        forall|i: int| 0 <= i < 62 ==> alphanumeric(#[trigger] r@[i]),
{
    let r = vec![
        'a', 'b', 'c', 'd', 'e', 'f', 'g', 'h', 'i', 'j', 'k', 'l', 'm', 'n', 'o', 'p', 'q', 'r',
        's', 't', 'u', 'v', 'w', 'x', 'y', 'z', 'A', 'B', 'C', 'D', 'E', 'F', 'G', 'H', 'I', 'J',
        'K', 'L', 'M', 'N', 'O', 'P', 'Q', 'R', 'S', 'T', 'U', 'V', 'W', 'X', 'Y', 'Z', '0', '1',
        '2', '3', '4', '5', '6', '7', '8', '9',
    ];
    assert forall|i: int| 0 <= i < 62 implies alphanumeric(#[trigger] r@[i]) by {
        assert(r@[i] == r@[i]);
    }
    r
}

} // verus!

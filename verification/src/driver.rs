//! Storage drivers: the settings each kind of driver reads from a mount's
//! configuration, the choice of driver by kind, the local driver's path
//! mapping, and the fingerprint a driver gives an entry.
use vstd::prelude::*;
use crate::json::{as_str, as_u64, field, get_u64, obj_get, JsonObject};
use crate::notify::p_str_or;
use crate::sync::{compute_fingerprint, entry_fingerprint, FileEntry};
use crate::text::{append_chars, chars_of, string_of};

verus! {

/// What every storage driver offers besides its file operations (which
/// perform I/O and live with the service).
pub trait StorageDriver {
    /// The kind of driver, as its name spells it.
    spec fn kind(&self) -> Seq<char>;

    /// The driver's kind.
    fn name(&self) -> (r: &'static str)
        ensures
            r@ == self.kind();

    /// The fingerprint used for change detection: size, directory flag and
    /// modification time.
    fn fingerprint(&self, entry: &FileEntry) -> (r: String)
        ensures
            r@ == entry_fingerprint(entry@),
    {
        compute_fingerprint(entry)
    }
}

/// A port setting: a non-negative integer cut to 16 bits, or a default.
pub open spec fn port_setting(config: Seq<(String, crate::json::JsonValue)>, default: u64) -> u16 {
    (match as_u64(obj_get(config, "port"@)) {
        Some(n) => n,
        None => default,
    }) as u16
}

fn port_of(config: &JsonObject, default: u64) -> (r: u16)
    ensures
        r == port_setting(config.entries@, default),
{
    let n: u64 = match get_u64(&config.get("port")) {
        Some(n) => n,
        None => default,
    };
    n as u16
}

/// The local filesystem driver.
pub struct LocalDriver {
    pub root: String,
}

impl LocalDriver {
    /// A local driver rooted at the configured `root_path` (`/` when
    /// unset); the service creates the root directory when it is missing.
    pub fn new(config: &JsonObject) -> (r: LocalDriver)
        ensures
            r.root@ == p_str_or(config.entries@, "root_path"@, "/"@),
    {
        LocalDriver { root: config.text_or("root_path", "/") }
    }

    /// Where a driver path lies on disk: the path without leading slashes
    /// joined to the root, with a `/` between them unless the root is empty
    /// or already ends with one.
    pub fn full_path(&self, path: &str) -> (r: String)
        ensures
            r@ == local_full_path(self.root@, path@),
    {
        proof {
            reveal_strlit("/");
        }
        let clean = crate::paths::strip_leading_slashes_exec(&chars_of(path));
        let mut v = chars_of(self.root.as_str());
        if v.len() > 0 && v[v.len() - 1] != '/' {
            v.push('/');
            assert(v@ =~= self.root@ + "/"@);
        }
        append_chars(&mut v, &clean);
        string_of(&v)
    }
}

/// The on-disk path of a driver path under a root.
pub open spec fn local_full_path(root: Seq<char>, path: Seq<char>) -> Seq<char> {
    let clean = crate::paths::strip_leading_slashes(path);
    if root.len() == 0 || root.last() == '/' {
        root + clean
    } else {
        root + "/"@ + clean
    }
}

impl StorageDriver for LocalDriver {
    open spec fn kind(&self) -> Seq<char> {
        "local"@
    }

    fn name(&self) -> (r: &'static str) {
        "local"
    }
}

/// The FTP driver's settings.
pub struct FtpDriver {
    pub host: String,
    pub port: u16,
    pub username: String,
    pub password: String,
    pub root: String,
}

impl FtpDriver {
    /// Reads `host` (`localhost`), `port` (21), `username` (`anonymous`),
    /// `password` (empty) and `root` (`/`).
    pub fn new(config: &JsonObject) -> (r: FtpDriver)
        ensures
            r.host@ == p_str_or(config.entries@, "host"@, "localhost"@),
            r.port == port_setting(config.entries@, 21),
            r.username@ == p_str_or(config.entries@, "username"@, "anonymous"@),
            r.password@ == p_str_or(config.entries@, "password"@, ""@),
            r.root@ == p_str_or(config.entries@, "root"@, "/"@),
    {
        FtpDriver {
            host: config.text_or("host", "localhost"),
            port: port_of(config, 21),
            username: config.text_or("username", "anonymous"),
            password: config.text_or("password", ""),
            root: config.text_or("root", "/"),
        }
    }
}

impl StorageDriver for FtpDriver {
    open spec fn kind(&self) -> Seq<char> {
        "ftp"@
    }

    fn name(&self) -> (r: &'static str) {
        "ftp"
    }
}

/// The SFTP driver's settings.
pub struct SftpDriver {
    pub host: String,
    pub port: u16,
    pub username: String,
    pub password: Option<String>,
    pub root: String,
}

impl SftpDriver {
    /// Reads `host` (`localhost`), `port` (22), `username` (`root`), an
    /// optional `password` and `root` (`/`).
    pub fn new(config: &JsonObject) -> (r: SftpDriver)
        ensures
            r.host@ == p_str_or(config.entries@, "host"@, "localhost"@),
            r.port == port_setting(config.entries@, 22),
            r.username@ == p_str_or(config.entries@, "username"@, "root"@),
            match r.password {
                Some(p) => as_str(obj_get(config.entries@, "password"@)) == Some(p@),
                None => as_str(obj_get(config.entries@, "password"@)) is None,
            },
            r.root@ == p_str_or(config.entries@, "root"@, "/"@),
    {
        SftpDriver {
            host: config.text_or("host", "localhost"),
            port: port_of(config, 22),
            username: config.text_or("username", "root"),
            password: config.get_text("password"),
            root: config.text_or("root", "/"),
        }
    }
}

impl StorageDriver for SftpDriver {
    open spec fn kind(&self) -> Seq<char> {
        "sftp"@
    }

    fn name(&self) -> (r: &'static str) {
        "sftp"
    }
}

/// The SMB driver's settings.
pub struct SmbDriver {
    pub host: String,
    pub port: u16,
    pub share: String,
    pub username: String,
    pub password: String,
    pub root: String,
}

impl SmbDriver {
    /// Reads `host` (`localhost`), `port` (445), `share` (empty),
    /// `username` (`guest`), `password` (empty) and `root_path` (`/`).
    pub fn new(config: &JsonObject) -> (r: SmbDriver)
        ensures
            r.host@ == p_str_or(config.entries@, "host"@, "localhost"@),
            r.port == port_setting(config.entries@, 445),
            r.share@ == p_str_or(config.entries@, "share"@, ""@),
            r.username@ == p_str_or(config.entries@, "username"@, "guest"@),
            r.password@ == p_str_or(config.entries@, "password"@, ""@),
            r.root@ == p_str_or(config.entries@, "root_path"@, "/"@),
    {
        SmbDriver {
            host: config.text_or("host", "localhost"),
            port: port_of(config, 445),
            share: config.text_or("share", ""),
            username: config.text_or("username", "guest"),
            password: config.text_or("password", ""),
            root: config.text_or("root_path", "/"),
        }
    }
}

impl StorageDriver for SmbDriver {
    open spec fn kind(&self) -> Seq<char> {
        "smb"@
    }

    fn name(&self) -> (r: &'static str) {
        "smb"
    }
}

/// The Aliyun Drive driver's settings.
pub struct AliyunDriver {
    pub client_id: String,
    pub client_secret: String,
    pub refresh_token: String,
    pub root: String,
}

impl AliyunDriver {
    /// Reads `client_id`, `client_secret`, `refresh_token` (each empty when
    /// unset) and `root` (`root`).
    pub fn new(config: &JsonObject) -> (r: AliyunDriver)
        ensures
            r.client_id@ == p_str_or(config.entries@, "client_id"@, ""@),
            r.client_secret@ == p_str_or(config.entries@, "client_secret"@, ""@),
            r.refresh_token@ == p_str_or(config.entries@, "refresh_token"@, ""@),
            r.root@ == p_str_or(config.entries@, "root"@, "root"@),
    {
        AliyunDriver {
            client_id: config.text_or("client_id", ""),
            client_secret: config.text_or("client_secret", ""),
            refresh_token: config.text_or("refresh_token", ""),
            root: config.text_or("root", "root"),
        }
    }
}

impl StorageDriver for AliyunDriver {
    open spec fn kind(&self) -> Seq<char> {
        "aliyun"@
    }

    fn name(&self) -> (r: &'static str) {
        "aliyun"
    }
}

/// A driver of any kind.
pub enum Driver {
    Local(LocalDriver),
    Ftp(FtpDriver),
    Sftp(SftpDriver),
    Smb(SmbDriver),
    Aliyun(AliyunDriver),
}

/// Builds the driver of a mount from its kind and configuration; an unknown
/// kind is refused with a message naming it.
pub fn create_driver(driver_type: &str, config: &JsonObject) -> (r: Result<Driver, String>)
    ensures
        driver_type@ == "local"@ <==> r matches Ok(Driver::Local(_)),
        driver_type@ == "ftp"@ <==> r matches Ok(Driver::Ftp(_)),
        driver_type@ == "sftp"@ <==> r matches Ok(Driver::Sftp(_)),
        driver_type@ == "smb"@ <==> r matches Ok(Driver::Smb(_)),
        driver_type@ == "aliyun"@ <==> r matches Ok(Driver::Aliyun(_)),
        r matches Ok(Driver::Local(d)) ==> d.root@ == p_str_or(config.entries@, "root_path"@, "/"@),
        r matches Err(m) ==> m@ == "不支持的驱动类型: "@ + driver_type@,
{
    proof {
        reveal_strlit("local");
        reveal_strlit("ftp");
        reveal_strlit("sftp");
        reveal_strlit("smb");
        reveal_strlit("aliyun");
        assert("local"@.len() == 5 && "ftp"@.len() == 3 && "sftp"@.len() == 4);
        assert("smb"@.len() == 3 && "aliyun"@.len() == 6);
        assert("ftp"@[0] != "smb"@[0]);
    }
    if crate::files::str_eq(driver_type, "local") {
        Ok(Driver::Local(LocalDriver::new(config)))
    } else if crate::files::str_eq(driver_type, "ftp") {
        Ok(Driver::Ftp(FtpDriver::new(config)))
    } else if crate::files::str_eq(driver_type, "sftp") {
        Ok(Driver::Sftp(SftpDriver::new(config)))
    } else if crate::files::str_eq(driver_type, "smb") {
        Ok(Driver::Smb(SmbDriver::new(config)))
    } else if crate::files::str_eq(driver_type, "aliyun") {
        Ok(Driver::Aliyun(AliyunDriver::new(config)))
    } else {
        let mut v = chars_of("不支持的驱动类型: ");
        append_chars(&mut v, &chars_of(driver_type));
        Err(string_of(&v))
    }
}

} // verus!

//! Settings, and where they and the other files of the program are.

use vstd::prelude::*;
use vstd::string::*;

use crate::clip_files;
use crate::clip_image::MAX_PAYLOAD_BYTES;
use crate::protocol::{DEFAULT_PORT, PAIR_PORT};
use crate::text;
use crate::text::{chars_of, find_char, push_decimal, string_of, trimmed};

verus! {

// ---- settings ----

/// The longest lifetime of a clip that came from a peer: a year.
pub const MAX_CLIPBOARD_TTL_SECONDS: u64 = 31_536_000;

/// The settings.
#[derive(Debug)]
pub struct Config {
    pub device_name: Option<String>,
    /// The address to listen at, its first part in the highest byte.
    pub bind_address: u32,
    pub port: u16,
    pub pair_port: u16,
    pub max_payload_bytes: usize,
    pub poll_interval_ms: u64,
    pub sync_images: bool,
    /// How many seconds a clip that came from a peer is kept; 0 for good.
    pub clipboard_ttl_seconds: u64,
    /// Addresses that are tried besides those that are found.
    pub static_peers: Vec<String>,
}

impl Clone for Config {
    fn clone(&self) -> (r: Self)
        ensures
            r.device_name == self.device_name,
            r.bind_address == self.bind_address,
            r.port == self.port,
            r.pair_port == self.pair_port,
            r.max_payload_bytes == self.max_payload_bytes,
            r.poll_interval_ms == self.poll_interval_ms,
            r.sync_images == self.sync_images,
            r.clipboard_ttl_seconds == self.clipboard_ttl_seconds,
            r.static_peers@ == self.static_peers@,
    {
        let static_peers = self.static_peers.clone();
        assert(static_peers@ =~= self.static_peers@);
        Config {
            device_name: match &self.device_name {
                Some(name) => Some(name.clone()),
                None => None,
            },
            bind_address: self.bind_address,
            port: self.port,
            pair_port: self.pair_port,
            max_payload_bytes: self.max_payload_bytes,
            poll_interval_ms: self.poll_interval_ms,
            sync_images: self.sync_images,
            clipboard_ttl_seconds: self.clipboard_ttl_seconds,
            static_peers,
        }
    }
}

/// Why settings are not taken.
#[derive(Debug, Clone, Copy, PartialEq, Eq, Structural)]
pub enum ConfigProblem {
    /// The lifetime of a clip is longer than allowed.
    LifetimeTooLong,
    /// There is no directory for the settings.
    NoDirectory,
}

impl Config {
    /// Whether these are the settings where nothing is set.
    pub open spec fn is_default(self) -> bool {
        &&& self.device_name is None
        &&& self.bind_address == 0
        &&& self.port == 27419
        &&& self.pair_port == 27420
        &&& self.max_payload_bytes == 8_388_608
        &&& self.poll_interval_ms == 400
        &&& self.sync_images
        &&& self.clipboard_ttl_seconds == 180
        &&& self.static_peers@.len() == 0
    }

    /// Whether the settings are taken.
    pub open spec fn is_valid(self) -> bool {
        self.clipboard_ttl_seconds <= MAX_CLIPBOARD_TTL_SECONDS
    }

    /// Takes the stored settings where there are some and they are valid, and
    /// the default settings where there are none.
    pub fn load(stored: Option<Config>) -> (r: Result<Config, ConfigProblem>)
        ensures
            match stored {
                Some(config) => if config.is_valid() {
                    r == Ok::<Config, ConfigProblem>(config)
                } else {
                    r == Err::<Config, ConfigProblem>(ConfigProblem::LifetimeTooLong)
                },
                None => r matches Ok(config) && config.is_default() && config.is_valid(),
            },
    {
        match stored {
            Some(config) => if config.clipboard_ttl_seconds > MAX_CLIPBOARD_TTL_SECONDS {
                Err(ConfigProblem::LifetimeTooLong)
            } else {
                Ok(config)
            },
            None => Ok(Config::default()),
        }
    }

    /// The name of this device, on a machine with this host name.
    pub open spec fn name_for(self, host_name: Option<Seq<char>>) -> Seq<char> {
        if self.device_name matches Some(name) && text::trim(name@).len() > 0 {
            text::trim(self.device_name->0@)
        } else {
            match host_name {
                Some(host) => host,
                None => "pastebridge"@,
            }
        }
    }

    /// The name of this device: the one that is set, else that of the machine.
    pub fn device_name(&self, host_name: Option<&str>) -> (r: String)
        ensures
            r@ == self.name_for(
                match host_name {
                    Some(host) => Some(host@),
                    None => None,
                },
            ),
    {
        if let Some(name) = &self.device_name {
            let chars = chars_of(name.as_str());
            let bare = trimmed(chars.as_slice());
            if bare.len() > 0 {
                return string_of(bare);
            }
        }
        match host_name {
            Some(host) => host.to_string(),
            None => "pastebridge".to_string(),
        }
    }
}

impl Default for Config {
    fn default() -> (r: Self)
        ensures
            r.is_default(),
    {
        Config {
            device_name: None,
            bind_address: 0,
            port: DEFAULT_PORT,
            pair_port: PAIR_PORT,
            max_payload_bytes: MAX_PAYLOAD_BYTES,
            poll_interval_ms: 400,
            sync_images: true,
            clipboard_ttl_seconds: 180,
            static_peers: Vec::new(),
        }
    }
}

// ---- files ----

/// The files of the program.
#[derive(Debug)]
pub struct Paths {
    pub config_dir: String,
    pub config_file: String,
    pub identity_file: String,
    pub peers_file: String,
    pub status_file: String,
    pub pid_file: String,
}

impl Clone for Paths {
    fn clone(&self) -> (r: Self)
        ensures
            r == *self,
    {
        Paths {
            config_dir: self.config_dir.clone(),
            config_file: self.config_file.clone(),
            identity_file: self.identity_file.clone(),
            peers_file: self.peers_file.clone(),
            status_file: self.status_file.clone(),
            pid_file: self.pid_file.clone(),
        }
    }
}

/// The path of a file in a directory.
pub open spec fn path_in(dir: Seq<char>, name: Seq<char>) -> Seq<char> {
    if dir.len() == 0 || dir.last() == '/' {
        dir + name
    } else {
        dir + "/"@ + name
    }
}

/// The path of a file in a directory.
pub fn join(dir: &str, name: &str) -> (r: String)
    ensures
        r@ == path_in(dir@, name@),
{
    let chars = chars_of(dir);
    let mut out = dir.to_string();
    if chars.len() > 0 && chars[chars.len() - 1] != '/' {
        out.append("/");
    }
    out.append(name);
    out
}

impl Paths {
    /// The files of the program: in the directory that is set, else in the one
    /// that the system has for it.
    pub fn new(home: Option<&str>, project_dir: Option<&str>) -> (r: Result<Self, ConfigProblem>)
        ensures
            r is Ok <==> home is Some || project_dir is Some,
            r matches Err(e) ==> e == ConfigProblem::NoDirectory,
            r matches Ok(paths) ==> {
                let dir = match home {
                    Some(h) => h@,
                    None => project_dir->0@,
                };
                &&& paths.config_dir@ == dir
                &&& paths.config_file@ == path_in(dir, "config.toml"@)
                &&& paths.identity_file@ == path_in(dir, "identity.json"@)
                &&& paths.peers_file@ == path_in(dir, "peers.json"@)
                &&& paths.status_file@ == path_in(dir, "status.json"@)
                &&& paths.pid_file@ == path_in(dir, "pastebridge.pid"@)
            },
    {
        let dir = match home {
            Some(h) => h,
            None => match project_dir {
                Some(p) => p,
                None => {
                    return Err(ConfigProblem::NoDirectory);
                },
            },
        };
        Ok(
            Paths {
                config_dir: dir.to_string(),
                config_file: join(dir, "config.toml"),
                identity_file: join(dir, "identity.json"),
                peers_file: join(dir, "peers.json"),
                status_file: join(dir, "status.json"),
                pid_file: join(dir, "pastebridge.pid"),
            },
        )
    }

    /// The directory for files that last as long as a login: the one that is
    /// set, else the one for temporary files.
    pub fn runtime_dir(set: Option<&str>, temporary: &str) -> (r: String)
        ensures
            r@ == (match set {
                Some(dir) => dir@,
                None => temporary@,
            }),
    {
        match set {
            Some(dir) => dir.to_string(),
            None => temporary.to_string(),
        }
    }
}

// ---- addresses ----

/// The text of an address: the address as it is where it has a port, and with
/// the default port otherwise.
pub open spec fn addr_text(s: Seq<char>, default_port: u16) -> Seq<char> {
    if text::contains_char(s, ':') {
        s
    } else {
        s + ":"@ + text::decimal(default_port as nat)
    }
}

/// Completes an address with the default port where it has none.
pub fn parse_addr(s: &str, default_port: u16) -> (r: String)
    ensures
        r@ == addr_text(s@, default_port),
{
    let chars = chars_of(s);
    let mut out = s.to_string();
    if find_char(chars.as_slice(), ':') == chars.len() {
        out.append(":");
        push_decimal(&mut out, default_port as u128);
    }
    out
}

/// A completed address has a port, so completing it again changes nothing.
pub proof fn completing_an_address_is_idempotent(s: Seq<char>, port: u16, other: u16)
    ensures
        text::contains_char(addr_text(s, port), ':'),
        addr_text(addr_text(s, port), other) == addr_text(s, port),
{
    reveal_strlit(":");
    if !text::contains_char(s, ':') {
        let full = addr_text(s, port);
        text::lemma_find(full, ':');
        assert(full[s.len() as int] == ':');
    }
}

/// An address without a port gets the default one, behind a colon. One with a
/// colon is left as it is.
pub proof fn addresses_are_completed(s: Seq<char>, before: Seq<char>, after: Seq<char>, port: u16)
    ensures
        text::lacks(s, ':') ==> addr_text(s, port) == s + seq![':'] + text::decimal(port as nat),
        addr_text(before + seq![':'] + after, port) == before + seq![':'] + after,
{
    reveal_strlit(":");
    assert(":"@ =~= seq![':']);
    text::lemma_find(s, ':');
    let full = before + seq![':'] + after;
    text::lemma_find(full, ':');
    assert(full[before.len() as int] == ':');
}

/// A file in a directory is named as it is there, with one slash between,
/// whether or not the directory ends with one.
pub proof fn files_are_in_their_directory(dir: Seq<char>, name: Seq<char>)
    requires
        name.len() > 0,
        text::lacks(name, '/'),
        name != seq!['.'],
        name != seq!['.', '.'],
    ensures
        clip_files::file_name(path_in(dir, name)) == Some(name),
        dir.len() == 0 ==> path_in(dir, name) == name,
        dir.len() > 0 && dir.last() == '/' ==> path_in(dir, name) == dir + name,
        dir.len() > 0 && dir.last() != '/' ==> path_in(dir, name) == dir + seq!['/'] + name
            && path_in(dir + seq!['/'], name) == path_in(dir, name),
{
    reveal_strlit("/");
    assert("/"@ =~= seq!['/']);
    clip_files::file_names_follow_the_last_slash(dir, name, dir);
    if dir.len() == 0 {
        assert(dir + name =~= name);
    } else if dir.last() == '/' {
        clip_files::file_names_follow_the_last_slash(dir.drop_last(), name, dir);
        assert(dir.drop_last() + seq!['/'] + name =~= dir + name);
    } else {
        assert((dir + seq!['/']).last() == '/');
    }
}

/// The files of the program are different files.
pub proof fn files_of_the_program_differ(dir: Seq<char>)
    ensures
        ({
            let files = seq![
                path_in(dir, "config.toml"@),
                path_in(dir, "identity.json"@),
                path_in(dir, "peers.json"@),
                path_in(dir, "status.json"@),
                path_in(dir, "pastebridge.pid"@),
            ];
            forall|i: int, j: int|
                0 <= i < j < 5 ==> #[trigger] files[i] != #[trigger] files[j]
        }),
{
    reveal_strlit("config.toml");
    reveal_strlit("identity.json");
    reveal_strlit("peers.json");
    reveal_strlit("status.json");
    reveal_strlit("pastebridge.pid");
    let names = seq![
        "config.toml"@,
        "identity.json"@,
        "peers.json"@,
        "status.json"@,
        "pastebridge.pid"@,
    ];
    let files = seq![
        path_in(dir, "config.toml"@),
        path_in(dir, "identity.json"@),
        path_in(dir, "peers.json"@),
        path_in(dir, "status.json"@),
        path_in(dir, "pastebridge.pid"@),
    ];
    assert("config.toml"@[0] == 'c' && "identity.json"@[0] == 'i' && "peers.json"@[1] == 'e'
        && "status.json"@[0] == 's' && "pastebridge.pid"@[1] == 'a' && "peers.json"@[0] == 'p'
        && "pastebridge.pid"@[0] == 'p');
    assert forall|i: int, j: int| 0 <= i < j < 5 implies #[trigger] files[i]
        != #[trigger] files[j] by {
        assert(names[i] != names[j]);
        assert(files[i] == path_in(dir, names[i]) && files[j] == path_in(dir, names[j]));
        let n = path_in(dir, names[i]).len() - names[i].len();
        let m = path_in(dir, names[j]).len() - names[j].len();
        assert(path_in(dir, names[i]).skip(n) =~= names[i]);
        assert(path_in(dir, names[j]).skip(m) =~= names[j]);
    }
}

/// A name that is set is the name of the device, without the white space round
/// it, whatever the machine is called. Where none is set, or a blank one, the
/// device is called as the machine is.
pub proof fn set_name_comes_first(
    config: Config,
    before: Seq<char>,
    name: Seq<char>,
    after: Seq<char>,
    host: Option<Seq<char>>,
)
    requires
        text::blank(before),
        text::bare(name),
        text::blank(after),
    ensures
        config.device_name is None ==> config.name_for(host) == (match host {
            Some(h) => h,
            None => "pastebridge"@,
        }),
        (config.device_name matches Some(set) && set@ == before + name + after) ==> config.name_for(
            host,
        ) == (if name.len() > 0 {
            name
        } else {
            match host {
                Some(h) => h,
                None => "pastebridge"@,
            }
        }),
{
    text::outer_space_is_trimmed(before, name, after);
}

/// Where nothing is set, the device listens everywhere at the two ports, takes
/// clips of up to 8 MiB, pictures among them, looks at the clipboard every 0.4
/// seconds, and keeps clips of peers for three minutes. A clip may be kept for a
/// year at most.
pub proof fn settings_have_defaults(config: Config)
    ensures
        config.is_default() ==> {
            &&& config.is_valid()
            &&& config.bind_address == 0
            &&& config.port == 27419 && config.port == DEFAULT_PORT
            &&& config.pair_port == 27420 && config.pair_port == PAIR_PORT
            &&& config.port != config.pair_port
            &&& config.max_payload_bytes == 8 * 1024 * 1024
            &&& config.sync_images
            &&& config.poll_interval_ms == 400
            &&& config.clipboard_ttl_seconds == 3 * 60
            &&& config.static_peers@.len() == 0
            &&& config.device_name is None
        },
        config.is_valid() <==> config.clipboard_ttl_seconds <= 365 * 24 * 60 * 60,
{
}

} // verus!

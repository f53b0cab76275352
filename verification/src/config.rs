//! The forwarding configuration: its defaults, how it is read back from and
//! written to the stored settings, how command-line arguments override it,
//! and how the three input fields are checked before forwarding starts.
use vstd::prelude::*;
use vstd::string::*;
use crate::decimal::{spec_parse_i32, parse_i32, decimal, lemma_decimal, is_digit};
use crate::target::{spec_parse_target, parse_target, spec_target_address, lemma_target_round_trip};

verus! {

/// Local port used when none is stored.
pub const DEFAULT_LOCAL_PORT: u16 = 9000;

/// Target port used when none is stored.
pub const DEFAULT_TARGET_PORT: u16 = 9001;

/// Where packets are received and where they are sent on.
pub struct Config {
    pub local_port: u16,
    pub target_ip: String,
    pub target_port: u16,
}

/// A configuration as plain mathematical values.
pub struct ConfigView {
    pub local_port: u16,
    pub target_ip: Seq<char>,
    pub target_port: u16,
}

impl View for Config {
    type V = ConfigView;

    open spec fn view(&self) -> ConfigView {
        ConfigView { local_port: self.local_port, target_ip: self.target_ip@, target_port: self.target_port }
    }
}

/// The stored settings as they were read: each value is absent when it is
/// missing or has another type.
pub struct StoredValues {
    pub local_port: Option<u32>,
    pub target_ip: Option<String>,
    pub target_port: Option<u32>,
}

/// The values written to the stored settings: ports are stored as 32-bit
/// numbers.
pub struct RegistryValues {
    pub local_port: u32,
    pub target_ip: String,
    pub target_port: u32,
}

/// Why the input fields cannot start forwarding.
#[derive(Debug, PartialEq, Eq, Structural, Clone, Copy)]
pub enum InputError {
    /// A port is not a whole number from 1 to 65535, or the IP is empty.
    InvalidPortOrIp,
}

/// The default configuration: receive on 9000, send to 127.0.0.1:9001.
pub open spec fn default_view() -> ConfigView {
    ConfigView { local_port: 9000, target_ip: "127.0.0.1"@, target_port: 9001 }
}

/// A stored port, or `default` when there is none; a stored number above
/// 65535 keeps only its low 16 bits.
pub open spec fn stored_port(v: Option<u32>, default: u16) -> u16 {
    match v {
        Some(x) => (x % 65536) as u16,
        None => default,
    }
}

/// The configuration that stored settings give; `None` means that the
/// settings key does not exist.
pub open spec fn spec_from_stored(values: Option<StoredValues>) -> ConfigView {
    match values {
        None => default_view(),
        Some(v) => ConfigView {
            local_port: stored_port(v.local_port, 9000),
            target_ip: match v.target_ip {
                Some(s) => s@,
                None => "127.0.0.1"@,
            },
            target_port: stored_port(v.target_port, 9001),
        },
    }
}

/// The configuration after command-line overrides: a local port replaces the
/// stored one; a target replaces IP and port when it parses as `IP:PORT`.
pub open spec fn spec_apply_cli(c: ConfigView, local_port: Option<u16>, target: Option<Seq<char>>) -> ConfigView {
    let c1 = match local_port {
        Some(p) => ConfigView { local_port: p, ..c },
        None => c,
    };
    match target {
        Some(t) => match spec_parse_target(t) {
            Some((ip, port)) => ConfigView { target_ip: ip, target_port: port, ..c1 },
            None => c1,
        },
        None => c1,
    }
}

/// The port that an input field holds: the text read as an `i32`, or 0 when
/// it is none, accepted only from 1 to 65535.
pub open spec fn spec_port_field(s: Seq<char>) -> Option<u16> {
    match spec_parse_i32(s) {
        Some(v) => if 1 <= v <= 65535 { Some(v as u16) } else { None },
        None => None,
    }
}

/// The configuration that the three input fields give, if they are valid:
/// both ports from 1 to 65535 and the IP not empty. Whether the IP can be
/// reached is checked afterwards, when the target is resolved.
pub open spec fn spec_from_inputs(local_text: Seq<char>, ip_text: Seq<char>, target_text: Seq<char>) -> Option<ConfigView> {
    match (spec_port_field(local_text), spec_port_field(target_text)) {
        (Some(local_port), Some(target_port)) => if ip_text.len() > 0 {
            Some(ConfigView { local_port, target_ip: ip_text, target_port })
        } else {
            None
        },
        _ => None,
    }
}

impl InputError {
    /// The status text that reports this error.
    pub fn message(&self) -> (r: String)
        ensures
            r@ == "Error: Invalid port or IP"@,
    {
        String::from_str("Error: Invalid port or IP")
    }
}

impl Config {
    /// The default configuration.
    pub fn default() -> (c: Config)
        ensures
            c@ == default_view(),
    {
        Config {
            local_port: DEFAULT_LOCAL_PORT,
            target_ip: String::from_str("127.0.0.1"),
            target_port: DEFAULT_TARGET_PORT,
        }
    }

    /// The configuration that the stored settings give; `None` when the
    /// settings key does not exist, which gives the defaults.
    pub fn from_stored(values: Option<StoredValues>) -> (c: Config)
        ensures
            c@ == spec_from_stored(values),
    {
        match values {
            None => Config::default(),
            Some(v) => {
                let local_port = match v.local_port {
                    Some(x) => (x % 65536) as u16,
                    None => DEFAULT_LOCAL_PORT,
                };
                let target_ip = match v.target_ip {
                    Some(s) => s,
                    None => String::from_str("127.0.0.1"),
                };
                let target_port = match v.target_port {
                    Some(x) => (x % 65536) as u16,
                    None => DEFAULT_TARGET_PORT,
                };
                Config { local_port, target_ip, target_port }
            },
        }
    }

    /// The values to store for this configuration.
    pub fn to_registry(&self) -> (r: RegistryValues)
        ensures
            r.local_port == self.local_port as u32,
            r.target_ip@ == self.target_ip@,
            r.target_port == self.target_port as u32,
    {
        RegistryValues {
            local_port: self.local_port as u32,
            target_ip: self.target_ip.clone(),
            target_port: self.target_port as u32,
        }
    }

    /// Lets command-line arguments override this configuration.
    pub fn apply_cli(&mut self, local_port: Option<u16>, target: Option<&str>)
        ensures
            final(self)@ == spec_apply_cli(old(self)@, local_port, match target {
                Some(t) => Some(t@),
                None => None,
            }),
    {
        if let Some(p) = local_port {
            self.local_port = p;
        }
        if let Some(t) = target {
            if let Some((ip, port)) = parse_target(t) {
                self.target_ip = ip;
                self.target_port = port;
            }
        }
    }

    /// Checks the local port, target IP and target port fields; forwarding
    /// may start only with the configuration this returns.
    pub fn from_inputs(local_text: &str, ip_text: &str, target_text: &str) -> (r: Result<Config, InputError>)
        ensures
            r is Ok <==> spec_from_inputs(local_text@, ip_text@, target_text@) is Some,
            r matches Ok(c) ==> Some(c@) == spec_from_inputs(local_text@, ip_text@, target_text@),
            r matches Err(e) ==> e == InputError::InvalidPortOrIp,
    {
        let local: i32 = match parse_i32(local_text) {
            Some(v) => v,
            None => 0,
        };
        let target: i32 = match parse_i32(target_text) {
            Some(v) => v,
            None => 0,
        };
        if !(1 <= local && local <= 65535) || !(1 <= target && target <= 65535) || ip_text.is_empty() {
            return Err(InputError::InvalidPortOrIp);
        }
        Ok(Config { local_port: local as u16, target_ip: String::from_str(ip_text), target_port: target as u16 })
    }
}

/// The settings as they are read back after `values` were written.
pub open spec fn read_back(values: RegistryValues) -> StoredValues {
    StoredValues {
        local_port: Some(values.local_port),
        target_ip: Some(values.target_ip),
        target_port: Some(values.target_port),
    }
}

/// Writing a configuration to the stored settings and reading it back gives
/// the same configuration.
pub proof fn lemma_store_round_trip(c: Config, written: RegistryValues)
    requires
        written.local_port == c.local_port as u32,
        written.target_ip@ == c.target_ip@,
        written.target_port == c.target_port as u32,
    ensures
        spec_from_stored(Some(read_back(written))) == c@,
{
}

/// A target given on the command line as `host:port` replaces the target IP
/// and port with exactly that host and port.
pub proof fn lemma_cli_target_override(c: ConfigView, local_port: Option<u16>, host: Seq<char>, port: u16)
    ensures
        spec_apply_cli(c, local_port, Some(spec_target_address(host, port))).target_ip == host,
        spec_apply_cli(c, local_port, Some(spec_target_address(host, port))).target_port == port,
        spec_apply_cli(c, local_port, Some(spec_target_address(host, port))).local_port == match local_port {
            Some(p) => p,
            None => c.local_port,
        },
{
    lemma_target_round_trip(host, port);
}

/// A port shown in an input field in decimal reads back as the same port,
/// for every port that forwarding accepts (1 to 65535).
pub proof fn lemma_port_field_round_trip(port: u16)
    requires
        port >= 1,
    ensures
        spec_port_field(decimal(port as nat)) == Some(port),
{
    lemma_decimal(port as nat);
    assert(is_digit(decimal(port as nat)[0]));
}

/// A configuration shown in the three input fields is accepted as it is by
/// the Start button, whenever its ports are nonzero and its IP is not empty.
pub proof fn lemma_inputs_round_trip(c: ConfigView)
    requires
        c.local_port >= 1,
        c.target_port >= 1,
        c.target_ip.len() > 0,
    ensures
        spec_from_inputs(decimal(c.local_port as nat), c.target_ip, decimal(c.target_port as nat)) == Some(c),
{
    lemma_port_field_round_trip(c.local_port);
    lemma_port_field_round_trip(c.target_port);
}

/// Command-line overrides: a local port given on the command line becomes
/// the local port, whether or not a target is given; without one the stored
/// local port stays. A target that parses as `host:port` sets exactly that
/// IP and port; without a target, or with one that does not parse, the
/// stored IP and port stay.
pub proof fn lemma_apply_cli(c: ConfigView, local_port: Option<u16>, target: Option<Seq<char>>)
    ensures
        local_port matches Some(p) ==> spec_apply_cli(c, local_port, target).local_port == p,
        local_port is None ==> spec_apply_cli(c, local_port, target).local_port == c.local_port,
        target is None ==> spec_apply_cli(c, local_port, target).target_ip == c.target_ip
            && spec_apply_cli(c, local_port, target).target_port == c.target_port,
        target matches Some(t) ==> (spec_parse_target(t) matches Some((h, q)) ==> spec_apply_cli(
            c,
            local_port,
            target,
        ).target_ip == h && spec_apply_cli(c, local_port, target).target_port == q),
        target matches Some(t) ==> (spec_parse_target(t) is None ==> spec_apply_cli(
            c,
            local_port,
            target,
        ).target_ip == c.target_ip && spec_apply_cli(c, local_port, target).target_port == c.target_port),
{
}

/// The input fields are accepted exactly when both ports read as whole
/// numbers from 1 to 65535 and the IP is not empty; the configuration then
/// holds exactly those numbers and that IP.
pub proof fn lemma_from_inputs(local_text: Seq<char>, ip_text: Seq<char>, target_text: Seq<char>)
    ensures
        spec_from_inputs(local_text, ip_text, target_text) matches Some(c) ==> {
            &&& spec_parse_i32(local_text) == Some(c.local_port as i32)
            &&& spec_parse_i32(target_text) == Some(c.target_port as i32)
            &&& 1 <= c.local_port
            &&& 1 <= c.target_port
            &&& c.target_ip == ip_text
            &&& ip_text.len() > 0
        },
        (spec_parse_i32(local_text) matches Some(l) && 1 <= l <= 65535) && (spec_parse_i32(target_text) matches Some(
            t,
        ) && 1 <= t <= 65535) && ip_text.len() > 0 ==> spec_from_inputs(local_text, ip_text, target_text) is Some,
        (spec_parse_i32(local_text) matches Some(l) && (l < 1 || l > 65535)) ==> spec_from_inputs(
            local_text,
            ip_text,
            target_text,
        ) is None,
        spec_parse_i32(local_text) is None ==> spec_from_inputs(local_text, ip_text, target_text) is None,
        (spec_parse_i32(target_text) matches Some(t) && (t < 1 || t > 65535)) ==> spec_from_inputs(
            local_text,
            ip_text,
            target_text,
        ) is None,
        spec_parse_i32(target_text) is None ==> spec_from_inputs(local_text, ip_text, target_text) is None,
        ip_text.len() == 0 ==> spec_from_inputs(local_text, ip_text, target_text) is None,
{
}

/// Settings that were never stored give 9000, 127.0.0.1 and 9001.
pub proof fn lemma_defaults()
    ensures
        spec_from_stored(None) == (ConfigView { local_port: 9000, target_ip: "127.0.0.1"@, target_port: 9001 }),
{
}

/// Reading stored settings: a stored port keeps its low 16 bits (the value
/// modulo 65536, as `as u16` gives it), a stored IP is taken as it is, and a
/// missing value takes its default.
pub proof fn lemma_from_stored(values: StoredValues)
    ensures
        values.local_port matches Some(x) ==> spec_from_stored(Some(values)).local_port as int == x as int % 65536,
        values.local_port is None ==> spec_from_stored(Some(values)).local_port == 9000,
        values.target_port matches Some(x) ==> spec_from_stored(Some(values)).target_port as int == x as int
            % 65536,
        values.target_port is None ==> spec_from_stored(Some(values)).target_port == 9001,
        values.target_ip matches Some(ip) ==> spec_from_stored(Some(values)).target_ip == ip@,
        values.target_ip is None ==> spec_from_stored(Some(values)).target_ip == "127.0.0.1"@,
{
}

} // verus!

//! Server settings, all overridable from the environment.
//!
//! Reading the environment, the disk and the network's address syntax is left
//! to whoever starts the server; what was found there is an [`Environment`],
//! and this module decides what it means.

use vstd::prelude::*;

use crate::text::{decimal, digit_char, same};

verus! {

/// Caps on what one request may ask for. They exist so a single call cannot
/// pin a core or exhaust memory.
#[derive(Clone, Copy, Debug, PartialEq, Eq, Structural)]
pub struct Limits {
    pub max_models: usize,
    pub max_layers: usize,
    pub max_units_per_layer: usize,
    pub max_features: usize,
    pub max_samples: usize,
    pub max_epochs: usize,
}

/// The caps of a server that was told nothing else.
pub open spec fn default_limits() -> Limits {
    Limits {
        max_models: 256,
        max_layers: 64,
        max_units_per_layer: 4096,
        max_features: 4096,
        max_samples: 1_000_000,
        max_epochs: 100_000,
    }
}

impl Default for Limits {
    fn default() -> (limits: Self)
        ensures
            limits == default_limits(),
    {
        Limits {
            max_models: 256,
            max_layers: 64,
            max_units_per_layer: 4096,
            max_features: 4096,
            max_samples: 1_000_000,
            max_epochs: 100_000,
        }
    }
}

/// An IP address, as the number it is.
#[derive(Clone, Copy, Debug, PartialEq, Eq, Structural)]
pub enum IpAddr {
    V4(u32),
    V6(u128),
}

impl IpAddr {
    /// Reachable from this machine only: 127.0.0.0/8, or ::1.
    pub open spec fn loopback(self) -> bool {
        match self {
            IpAddr::V4(address) => address as int / 0x100_0000 == 127,
            IpAddr::V6(address) => address == 1,
        }
    }

    /// Whether only this machine can reach the address.
    pub fn is_loopback(self) -> (loopback: bool)
        ensures
            loopback == self.loopback(),
    {
        match self {
            IpAddr::V4(address) => address / 0x100_0000 == 127,
            IpAddr::V6(address) => address == 1,
        }
    }
}

/// An address to listen on.
#[derive(Clone, Copy, Debug, PartialEq, Eq, Structural)]
pub struct SocketAddr {
    pub ip: IpAddr,
    pub port: u16,
}

/// An absolute path without symbolic links, component by component.
#[derive(Debug)]
pub struct Location {
    pub parts: Vec<Vec<u8>>,
}

impl View for Location {
    type V = Seq<Seq<u8>>;

    open spec fn view(&self) -> Seq<Seq<u8>> {
        self.parts@.map_values(|part: Vec<u8>| part@)
    }
}

impl Clone for Location {
    fn clone(&self) -> (copy: Self)
        ensures
            copy@ == self@,
    {
        let mut parts: Vec<Vec<u8>> = Vec::with_capacity(self.parts.len());
        let mut index: usize = 0;
        while index < self.parts.len()
            invariant
                index <= self.parts@.len(),
                parts@.len() == index,
                forall|i: int| 0 <= i < index ==> (#[trigger] parts@[i])@ == self.parts@[i]@,
            decreases self.parts@.len() - index,
        {
            let part = self.parts[index].clone();
            assert(part@ =~= self.parts@[index as int]@);
            parts.push(part);
            index += 1;
        }
        let copy = Location { parts };
        assert(copy@ =~= self@);
        copy
    }
}

/// The settings a server runs with.
#[derive(Debug)]
pub struct Config {
    pub addr: SocketAddr,
    /// The biggest request body accepted.
    pub body_limit_bytes: usize,
    /// Browsers only. Other clients never send a CORS preflight.
    pub permissive_cors: bool,
    /// Where `x_path` and `y_path` are resolved. Without it a request naming a
    /// path is refused.
    pub data_dir: Option<Location>,
    /// The biggest file `x_path` may point at.
    pub max_file_bytes: u64,
    pub limits: Limits,
}

/// A [`Config`] as a value.
#[verifier::ext_equal]
pub struct ConfigView {
    pub addr: SocketAddr,
    pub body_limit_bytes: usize,
    pub permissive_cors: bool,
    pub data_dir: Option<Seq<Seq<u8>>>,
    pub max_file_bytes: u64,
    pub limits: Limits,
}

impl View for Config {
    type V = ConfigView;

    open spec fn view(&self) -> ConfigView {
        ConfigView {
            addr: self.addr,
            body_limit_bytes: self.body_limit_bytes,
            permissive_cors: self.permissive_cors,
            data_dir: match self.data_dir {
                Some(location) => Some(location@),
                None => None,
            },
            max_file_bytes: self.max_file_bytes,
            limits: self.limits,
        }
    }
}

impl Clone for Config {
    fn clone(&self) -> (copy: Self)
        ensures
            copy@ == self@,
    {
        Config {
            addr: self.addr,
            body_limit_bytes: self.body_limit_bytes,
            permissive_cors: self.permissive_cors,
            data_dir: match &self.data_dir {
                Some(location) => Some(location.clone()),
                None => None,
            },
            max_file_bytes: self.max_file_bytes,
            limits: self.limits,
        }
    }
}

/// Port 8079 of this machine. Not 8080: a client application on the same
/// machine is likely to want that one for itself.
pub open spec fn default_addr() -> SocketAddr {
    SocketAddr { ip: IpAddr::V4(0x7f00_0001), port: 8079 }
}

/// The settings of a server that was told nothing: bodies up to 32 MB, files
/// up to 256 MB but none to be read, and no CORS.
pub open spec fn default_config() -> ConfigView {
    ConfigView {
        addr: default_addr(),
        body_limit_bytes: 0x200_0000,
        permissive_cors: false,
        data_dir: None,
        max_file_bytes: 0x1000_0000,
        limits: default_limits(),
    }
}

impl Default for Config {
    fn default() -> (config: Self)
        ensures
            config@ == default_config(),
            config.addr.ip.loopback(),
    {
        Config {
            addr: SocketAddr { ip: IpAddr::V4(0x7f00_0001), port: 8079 },
            body_limit_bytes: 0x200_0000,
            permissive_cors: false,
            data_dir: None,
            max_file_bytes: 0x1000_0000,
            limits: Limits::default(),
        }
    }
}

// ------------------------------------------------------------- reachability

/// What a server is told that would listen on `shown`.
pub open spec fn remote_refusal(shown: Seq<char>) -> Seq<char> {
    "NN_API_ADDR '"@ + shown
        + "' would accept connections from other machines, and this server has no authentication of its own. Bind it to 127.0.0.1 and reach it from this machine, or, if something that authenticates sits in front of it, set NN_API_ALLOW_REMOTE=yes."@
}

/// The server has no authentication, so an address that other machines can
/// reach has to be asked for on purpose. `shown` is the address as the refusal
/// spells it.
pub fn check_reachability(ip: IpAddr, shown: &str, allow_remote: bool) -> (checked: Result<
    (),
    String,
>)
    ensures
        checked is Ok <==> ip.loopback() || allow_remote,
        checked matches Err(refusal) ==> refusal@ == remote_refusal(shown@),
{
    if ip.is_loopback() || allow_remote {
        return Ok(());
    }
    let mut refusal = "NN_API_ADDR '".to_owned();
    refusal.append(shown);
    refusal.append(
        "' would accept connections from other machines, and this server has no authentication of its own. Bind it to 127.0.0.1 and reach it from this machine, or, if something that authenticates sits in front of it, set NN_API_ALLOW_REMOTE=yes.",
    );
    Err(refusal)
}

// ------------------------------------------------------------------ numbers

/// The number that decimal digits spell, if they all are digits.
pub open spec fn digits_value(digits: Seq<char>) -> Option<nat>
    decreases digits.len(),
{
    if digits.len() == 0 {
        Some(0)
    } else {
        match digits_value(digits.drop_last()) {
            Some(high) if '0' <= digits.last() <= '9' => Some(
                high * 10 + (digits.last() as nat - '0' as nat) as nat,
            ),
            _ => None,
        }
    }
}

/// The number `text` spells: one digit or more, with or without a plus sign in
/// front.
pub open spec fn written_number(text: Seq<char>) -> Option<nat> {
    if text.len() == 0 {
        None
    } else if text.first() != '+' {
        digits_value(text)
    } else if text.len() == 1 {
        None
    } else {
        digits_value(text.drop_first())
    }
}

/// `text` read as a `usize`, if it spells one.
pub open spec fn read_number(text: Seq<char>) -> Option<usize> {
    match written_number(text) {
        Some(number) if number <= usize::MAX => Some(number as usize),
        _ => None,
    }
}

/// The words the standard library refuses `text` with, where a number may be
/// as large as `largest`.
pub uninterp spec fn parse_failure(text: Seq<char>, largest: usize) -> Seq<char>;

/// `str::parse::<usize>`: an optional plus sign and decimal digits, nothing
/// else, spelling a number that fits. The error is passed on as the words it is
/// displayed with; which words these are is not said, only that the text and
/// the largest number decide them.
#[verifier::external_body]
fn parse_number(text: &str) -> (number: Result<usize, String>)
    ensures
        match number {
            Ok(number) => read_number(text@) == Some(number),
            Err(reason) => read_number(text@) is None && reason@ == parse_failure(
                text@,
                usize::MAX,
            ),
        },
{
    match text.parse::<usize>() {
        Ok(number) => Ok(number),
        Err(error) => Err(error.to_string()),
    }
}

/// How a refusal of a setting that is not a number starts; the reason follows.
pub open spec fn not_a_number(key: Seq<char>, value: Seq<char>) -> Seq<char> {
    key + " is not a number ('"@ + value + "'): "@
}

/// The number a setting comes to: the fallback when it is not set, nothing
/// when it does not spell a number.
pub open spec fn number_setting(value: Option<String>, fallback: usize) -> Option<usize> {
    match value {
        Some(value) => read_number(value@),
        None => Some(fallback),
    }
}

/// A number from the environment: the fallback when it is not set.
pub fn number_from_env(key: &str, value: &Option<String>, fallback: usize) -> (setting: Result<
    usize,
    String,
>)
    ensures
        setting is Ok <==> number_setting(*value, fallback) is Some,
        setting matches Ok(number) ==> number_setting(*value, fallback) == Some(number),
        setting matches Err(refusal) ==> refusal@ == not_a_number(key@, value->0@) + parse_failure(
            value->0@,
            usize::MAX,
        ),
{
    let written = match value {
        Some(written) => written,
        None => {
            return Ok(fallback);
        },
    };
    match parse_number(written.as_str()) {
        Ok(parsed) => Ok(parsed),
        Err(reason) => Err(number_refusal(key, written.as_str(), reason.as_str())),
    }
}

/// What is said of a setting that is not a number.
pub fn number_refusal(key: &str, value: &str, reason: &str) -> (refusal: String)
    ensures
        refusal@ == not_a_number(key@, value@) + reason@,
{
    let mut refusal = key.to_owned();
    refusal.append(" is not a number ('");
    refusal.append(value);
    refusal.append("'): ");
    refusal.append(reason);
    refusal
}

// -------------------------------------------------------------- environment

/// What `NN_API_ADDR` holds.
#[derive(Debug)]
pub enum AddrSetting {
    Unset,
    /// An address, and how it is spelled.
    Address { addr: SocketAddr, shown: String },
    /// Not an address, and why.
    Unreadable { value: String, reason: String },
}

/// What `NN_API_DATA_DIR` holds.
#[derive(Debug)]
pub enum DataDirSetting {
    Unset,
    /// A directory, with every symbolic link on the way to it followed.
    Directory(Location),
    /// Something that cannot be opened, and why.
    Unopened { value: String, reason: String },
    /// Something that is no directory.
    NotADirectory { value: String },
}

/// The environment variables the server reads, `None` for one that is not set.
#[derive(Debug)]
pub struct Environment {
    /// `NN_API_ADDR`
    pub addr: AddrSetting,
    /// `NN_API_ALLOW_REMOTE`
    pub allow_remote: Option<String>,
    /// `NN_API_BODY_LIMIT_MB`
    pub body_limit_mb: Option<String>,
    /// `NN_API_MAX_MODELS`
    pub max_models: Option<String>,
    /// `NN_API_MAX_LAYERS`
    pub max_layers: Option<String>,
    /// `NN_API_MAX_UNITS`
    pub max_units: Option<String>,
    /// `NN_API_MAX_FEATURES`
    pub max_features: Option<String>,
    /// `NN_API_MAX_SAMPLES`
    pub max_samples: Option<String>,
    /// `NN_API_MAX_EPOCHS`
    pub max_epochs: Option<String>,
    /// `NN_API_CORS`
    pub cors: Option<String>,
    /// `NN_API_DATA_DIR`
    pub data_dir: DataDirSetting,
    /// `NN_API_MAX_FILE_MB`
    pub max_file_mb: Option<String>,
}

/// Why the server does not start.
pub enum Fault {
    /// `NN_API_ADDR` is not an address.
    Address { value: Seq<char>, reason: Seq<char> },
    /// `NN_API_ADDR` would let other machines in, and nobody asked for that.
    Remote { shown: Seq<char> },
    /// The variable `key` is not a number.
    Number { key: Seq<char>, value: Seq<char> },
    /// `NN_API_DATA_DIR` cannot be opened.
    Unopened { value: Seq<char>, reason: Seq<char> },
    /// `NN_API_DATA_DIR` is no directory.
    NotADirectory { value: Seq<char> },
}

impl Fault {
    /// Whether `refusal` is what is said about this fault.
    pub open spec fn explained_by(self, refusal: Seq<char>) -> bool {
        match self {
            Fault::Address { value, reason } => refusal == "NN_API_ADDR is not a socket address ('"@
                + value + "'): "@ + reason,
            Fault::Remote { shown } => refusal == remote_refusal(shown),
            Fault::Number { key, value } => refusal == not_a_number(key, value) + parse_failure(
                value,
                usize::MAX,
            ),
            Fault::Unopened { value, reason } => refusal == "NN_API_DATA_DIR '"@ + value
                + "' cannot be opened: "@ + reason,
            Fault::NotADirectory { value } => refusal == "NN_API_DATA_DIR '"@ + value
                + "' is not a directory"@,
        }
    }
}

/// The first of two faults.
pub open spec fn first_of(one: Option<Fault>, other: Option<Fault>) -> Option<Fault> {
    if one is Some {
        one
    } else {
        other
    }
}

/// Whether a setting is set to exactly `value`.
pub open spec fn set_to(setting: Option<String>, value: Seq<char>) -> bool {
    setting matches Some(setting) && setting@ == value
}

/// What is wrong with a number, if anything is.
pub open spec fn number_fault(key: Seq<char>, value: Option<String>) -> Option<Fault> {
    match value {
        Some(value) if read_number(value@) is None => Some(Fault::Number { key, value: value@ }),
        _ => None,
    }
}

impl Environment {
    /// What is wrong with the address, if anything is.
    pub open spec fn addr_fault(self) -> Option<Fault> {
        match self.addr {
            AddrSetting::Unset => None,
            AddrSetting::Unreadable { value, reason } => Some(
                Fault::Address { value: value@, reason: reason@ },
            ),
            AddrSetting::Address { addr, shown } => if addr.ip.loopback() || set_to(
                self.allow_remote,
                "yes"@,
            ) {
                None
            } else {
                Some(Fault::Remote { shown: shown@ })
            },
        }
    }

    /// The first of the limits that is not a number, if one is not.
    pub open spec fn limits_fault(self) -> Option<Fault> {
        first_of(
            number_fault("NN_API_MAX_MODELS"@, self.max_models),
            first_of(
                number_fault("NN_API_MAX_LAYERS"@, self.max_layers),
                first_of(
                    number_fault("NN_API_MAX_UNITS"@, self.max_units),
                    first_of(
                        number_fault("NN_API_MAX_FEATURES"@, self.max_features),
                        first_of(
                            number_fault("NN_API_MAX_SAMPLES"@, self.max_samples),
                            number_fault("NN_API_MAX_EPOCHS"@, self.max_epochs),
                        ),
                    ),
                ),
            ),
        )
    }

    /// What is wrong with the data directory, if anything is.
    pub open spec fn data_dir_fault(self) -> Option<Fault> {
        match self.data_dir {
            DataDirSetting::Unopened { value, reason } => Some(
                Fault::Unopened { value: value@, reason: reason@ },
            ),
            DataDirSetting::NotADirectory { value } => Some(
                Fault::NotADirectory { value: value@ },
            ),
            _ => None,
        }
    }

    /// The first thing that is wrong with the environment, if anything is.
    pub open spec fn fault(self) -> Option<Fault> {
        first_of(
            self.addr_fault(),
            first_of(
                number_fault("NN_API_BODY_LIMIT_MB"@, self.body_limit_mb),
                first_of(
                    self.limits_fault(),
                    first_of(
                        self.data_dir_fault(),
                        number_fault("NN_API_MAX_FILE_MB"@, self.max_file_mb),
                    ),
                ),
            ),
        )
    }

    /// The size of a body is looked at: nothing before it is wrong.
    pub open spec fn reaches_body_limit(self) -> bool {
        &&& self.addr_fault() is None
        &&& number_fault("NN_API_BODY_LIMIT_MB"@, self.body_limit_mb) is None
        &&& self.limits_fault() is None
    }

    /// The two sizes, given in megabytes, can be counted in bytes, as far as
    /// they are looked at.
    pub open spec fn sizes_fit(self) -> bool {
        &&& self.reaches_body_limit() ==> number_setting(self.body_limit_mb, 32)->0 * 0x10_0000
            <= usize::MAX
        &&& self.fault() is None ==> number_setting(self.max_file_mb, 256)->0 * 0x10_0000
            <= u64::MAX
    }

    /// The limits this environment asks for.
    pub open spec fn limits(self) -> Limits {
        Limits {
            max_models: number_setting(self.max_models, 256)->0,
            max_layers: number_setting(self.max_layers, 64)->0,
            max_units_per_layer: number_setting(self.max_units, 4096)->0,
            max_features: number_setting(self.max_features, 4096)->0,
            max_samples: number_setting(self.max_samples, 1_000_000)->0,
            max_epochs: number_setting(self.max_epochs, 100_000)->0,
        }
    }

    /// The settings this environment asks for.
    pub open spec fn config(self) -> ConfigView {
        ConfigView {
            addr: match self.addr {
                AddrSetting::Address { addr, shown } => addr,
                _ => default_addr(),
            },
            body_limit_bytes: (number_setting(self.body_limit_mb, 32)->0 * 0x10_0000) as usize,
            permissive_cors: set_to(self.cors, "permissive"@),
            data_dir: match self.data_dir {
                DataDirSetting::Directory(location) => Some(location@),
                _ => None,
            },
            max_file_bytes: (number_setting(self.max_file_mb, 256)->0 * 0x10_0000) as u64,
            limits: self.limits(),
        }
    }

    /// Whether the two sizes can be counted in bytes, as far as they are looked
    /// at.
    pub fn check_sizes(&self) -> (fit: bool)
        ensures
            fit == self.sizes_fit(),
    {
        let body_limit_mb = match number_from_env("NN_API_BODY_LIMIT_MB", &self.body_limit_mb, 32) {
            Ok(megabytes) => megabytes,
            Err(_) => return true,
        };
        if self.checked_addr().is_err() || self.checked_limits().is_err() {
            return true;
        }
        if body_limit_mb > usize::MAX / 0x10_0000 {
            return false;
        }
        match (&self.data_dir, number_from_env("NN_API_MAX_FILE_MB", &self.max_file_mb, 256)) {
            (DataDirSetting::Unset, Ok(megabytes)) => megabytes as u64 <= u64::MAX / 0x10_0000,
            (DataDirSetting::Directory(_), Ok(megabytes)) => megabytes as u64 <= u64::MAX
                / 0x10_0000,
            _ => true,
        }
    }

    /// The address, checked.
    fn checked_addr(&self) -> (addr: Result<SocketAddr, String>)
        ensures
            addr is Ok <==> self.addr_fault() is None,
            addr matches Ok(addr) ==> addr == self.config().addr,
            addr matches Err(refusal) ==> self.addr_fault()->0.explained_by(refusal@),
    {
        match &self.addr {
            AddrSetting::Unset => Ok(SocketAddr { ip: IpAddr::V4(0x7f00_0001), port: 8079 }),
            AddrSetting::Unreadable { value, reason } => {
                let mut refusal = "NN_API_ADDR is not a socket address ('".to_owned();
                refusal.append(value.as_str());
                refusal.append("'): ");
                refusal.append(reason.as_str());
                Err(refusal)
            },
            AddrSetting::Address { addr, shown } => match check_reachability(
                addr.ip,
                shown.as_str(),
                is_set_to(&self.allow_remote, "yes"),
            ) {
                Ok(()) => Ok(*addr),
                Err(refusal) => Err(refusal),
            },
        }
    }

    /// The limits, each a number.
    fn checked_limits(&self) -> (limits: Result<Limits, String>)
        ensures
            limits is Ok <==> self.limits_fault() is None,
            limits matches Ok(limits) ==> limits == self.limits(),
            limits matches Err(refusal) ==> self.limits_fault()->0.explained_by(refusal@),
    {
        let max_models = match number_from_env("NN_API_MAX_MODELS", &self.max_models, 256) {
            Ok(number) => number,
            Err(refusal) => {
                return Err(refusal);
            },
        };
        let max_layers = match number_from_env("NN_API_MAX_LAYERS", &self.max_layers, 64) {
            Ok(number) => number,
            Err(refusal) => {
                return Err(refusal);
            },
        };
        let max_units_per_layer = match number_from_env("NN_API_MAX_UNITS", &self.max_units, 4096) {
            Ok(number) => number,
            Err(refusal) => {
                return Err(refusal);
            },
        };
        let max_features = match number_from_env("NN_API_MAX_FEATURES", &self.max_features, 4096) {
            Ok(number) => number,
            Err(refusal) => {
                return Err(refusal);
            },
        };
        let max_samples = match number_from_env(
            "NN_API_MAX_SAMPLES",
            &self.max_samples,
            1_000_000,
        ) {
            Ok(number) => number,
            Err(refusal) => {
                return Err(refusal);
            },
        };
        let max_epochs = match number_from_env("NN_API_MAX_EPOCHS", &self.max_epochs, 100_000) {
            Ok(number) => number,
            Err(refusal) => {
                return Err(refusal);
            },
        };
        Ok(
            Limits {
                max_models,
                max_layers,
                max_units_per_layer,
                max_features,
                max_samples,
                max_epochs,
            },
        )
    }
}

/// Whether a setting is set to exactly `value`.
fn is_set_to(setting: &Option<String>, value: &str) -> (result: bool)
    ensures
        result == set_to(*setting, value@),
{
    match setting {
        Some(setting) => same(setting.as_str(), value),
        None => false,
    }
}

/// The directory data files are read from, if the setting names one.
fn data_dir_from_env(setting: DataDirSetting) -> (directory: Result<Option<Location>, String>)
    ensures
        match setting {
            DataDirSetting::Unset => directory matches Ok(None),
            DataDirSetting::Directory(location) => directory matches Ok(Some(found)) && found
                == location,
            DataDirSetting::Unopened { value, reason } => directory matches Err(refusal)
                && refusal@ == "NN_API_DATA_DIR '"@ + value@ + "' cannot be opened: "@ + reason@,
            DataDirSetting::NotADirectory { value } => directory matches Err(refusal) && refusal@
                == "NN_API_DATA_DIR '"@ + value@ + "' is not a directory"@,
        },
{
    match setting {
        DataDirSetting::Unset => Ok(None),
        DataDirSetting::Directory(location) => Ok(Some(location)),
        DataDirSetting::Unopened { value, reason } => {
            let mut refusal = "NN_API_DATA_DIR '".to_owned();
            refusal.append(value.as_str());
            refusal.append("' cannot be opened: ");
            refusal.append(reason.as_str());
            Err(refusal)
        },
        DataDirSetting::NotADirectory { value } => {
            let mut refusal = "NN_API_DATA_DIR '".to_owned();
            refusal.append(value.as_str());
            refusal.append("' is not a directory");
            Err(refusal)
        },
    }
}

impl Config {
    /// The settings an environment asks for, or what is wrong with it.
    pub fn from_env(environment: Environment) -> (config: Result<Config, String>)
        requires
            environment.sizes_fit(),
        ensures
            config is Ok <==> environment.fault() is None,
            config matches Ok(config) ==> config@ == environment.config(),
            config matches Err(refusal) ==> environment.fault()->0.explained_by(refusal@),
    {
        let addr = match environment.checked_addr() {
            Ok(addr) => addr,
            Err(refusal) => {
                return Err(refusal);
            },
        };
        let body_limit_mb = match number_from_env(
            "NN_API_BODY_LIMIT_MB",
            &environment.body_limit_mb,
            32,
        ) {
            Ok(number) => number,
            Err(refusal) => {
                return Err(refusal);
            },
        };
        let limits = match environment.checked_limits() {
            Ok(limits) => limits,
            Err(refusal) => {
                return Err(refusal);
            },
        };
        let permissive_cors = is_set_to(&environment.cors, "permissive");
        let max_file_mb = number_from_env("NN_API_MAX_FILE_MB", &environment.max_file_mb, 256);
        let data_dir = match data_dir_from_env(environment.data_dir) {
            Ok(data_dir) => data_dir,
            Err(refusal) => {
                return Err(refusal);
            },
        };
        let max_file_mb = match max_file_mb {
            Ok(number) => number,
            Err(refusal) => {
                return Err(refusal);
            },
        };
        Ok(
            Config {
                addr,
                body_limit_bytes: body_limit_mb * 0x10_0000,
                permissive_cors,
                data_dir,
                max_file_bytes: max_file_mb as u64 * 0x10_0000,
                limits,
            },
        )
    }
}

/// A server that starts is reachable from its own machine only, unless
/// `NN_API_ALLOW_REMOTE` is `yes`.
pub proof fn remote_access_is_asked_for(environment: Environment)
    requires
        environment.fault() is None,
    ensures
        environment.config().addr.ip.loopback() || set_to(environment.allow_remote, "yes"@),
{
}

/// An address is one that only its own machine can reach exactly where it is
/// between 127.0.0.0 and 127.255.255.255, or ::1.
pub proof fn only_these_addresses_are_local(address: u32, long_address: u128)
    ensures
        IpAddr::V4(address).loopback() <==> 0x7f00_0000 <= address <= 0x7fff_ffff,
        IpAddr::V6(long_address).loopback() <==> long_address == 1,
{
}

/// A number that is written in decimal is read as that number, with or without
/// a plus sign in front.
pub proof fn a_written_number_is_read_back(number: nat)
    ensures
        written_number(decimal(number)) == Some(number),
        written_number(seq!['+'] + decimal(number)) == Some(number),
        number <= usize::MAX ==> read_number(decimal(number)) == Some(number as usize),
        number > usize::MAX ==> read_number(decimal(number)) is None,
{
    decimal_digits_spell_it(number);
    assert((seq!['+'] + decimal(number)).drop_first() =~= decimal(number));
    assert((seq!['+'] + decimal(number)).first() == '+');
}

/// The digits of a number spell it, and none of them is a sign.
proof fn decimal_digits_spell_it(number: nat)
    ensures
        decimal(number).len() > 0,
        decimal(number).first() != '+',
        digits_value(decimal(number)) == Some(number),
    decreases number,
{
    let digits = decimal(number);
    let low = (number % 10) as nat;
    assert('0' <= digit_char(low) <= '9');
    assert(digit_char(low) as nat == '0' as nat + low);
    if number < 10 {
        assert(digits.drop_last() =~= Seq::<char>::empty());
        assert(digits_value(digits.drop_last()) == Some(0nat));
        assert(digits.last() == digit_char(number));
    } else {
        decimal_digits_spell_it(number / 10);
        assert(digits.drop_last() =~= decimal(number / 10));
        assert(digits.last() == digit_char(low));
        assert(digits.first() == decimal(number / 10).first());
    }
}

/// The variable is not set, or spells a number a machine word can hold.
pub open spec fn unset_or_a_number(value: Option<String>) -> bool {
    value matches Some(text) ==> (written_number(text@) matches Some(number) && number
        <= usize::MAX)
}

/// `number` is what the variable spells, and `fallback` where it is not set.
pub open spec fn taken_from(value: Option<String>, fallback: nat, number: nat) -> bool {
    match value {
        Some(text) => written_number(text@) == Some(number),
        None => number == fallback,
    }
}

/// A server starts exactly where every variable that should be a number is one,
/// the address is one and local, or remote access is asked for, and the data
/// directory, if it is set, is one.
pub proof fn a_server_starts_where_nothing_is_wrong(environment: Environment)
    ensures
        environment.fault() is None <==> {
            &&& match environment.addr {
                AddrSetting::Unset => true,
                AddrSetting::Address { addr, shown } => addr.ip.loopback() || (
                environment.allow_remote matches Some(allowed) && allowed@ == "yes"@),
                AddrSetting::Unreadable { value, reason } => false,
            }
            &&& unset_or_a_number(environment.body_limit_mb)
            &&& unset_or_a_number(environment.max_models)
            &&& unset_or_a_number(environment.max_layers)
            &&& unset_or_a_number(environment.max_units)
            &&& unset_or_a_number(environment.max_features)
            &&& unset_or_a_number(environment.max_samples)
            &&& unset_or_a_number(environment.max_epochs)
            &&& unset_or_a_number(environment.max_file_mb)
            &&& environment.data_dir is Unset || environment.data_dir is Directory
        },
{
}

/// Every setting comes from its own variable, or is the default where that is
/// not set: the sizes in megabytes of 1048576 bytes, the limits as they are.
pub proof fn settings_come_from_their_variables(environment: Environment)
    requires
        environment.fault() is None,
        environment.sizes_fit(),
    ensures
        ({
            let config = environment.config();
            &&& match environment.addr {
                AddrSetting::Address { addr, shown } => config.addr == addr,
                _ => config.addr == (SocketAddr { ip: IpAddr::V4(0x7f00_0001), port: 8079 }),
            }
            &&& config.body_limit_bytes % 1048576 == 0
            &&& taken_from(
                environment.body_limit_mb,
                32,
                (config.body_limit_bytes / 1048576) as nat,
            )
            &&& config.max_file_bytes % 1048576 == 0
            &&& taken_from(environment.max_file_mb, 256, (config.max_file_bytes / 1048576) as nat)
            &&& config.permissive_cors <==> (environment.cors matches Some(cors) && cors@
                == "permissive"@)
            &&& match environment.data_dir {
                DataDirSetting::Directory(location) => config.data_dir == Some(location@),
                _ => config.data_dir is None,
            }
            &&& taken_from(environment.max_models, 256, config.limits.max_models as nat)
            &&& taken_from(environment.max_layers, 64, config.limits.max_layers as nat)
            &&& taken_from(environment.max_units, 4096, config.limits.max_units_per_layer as nat)
            &&& taken_from(environment.max_features, 4096, config.limits.max_features as nat)
            &&& taken_from(environment.max_samples, 1_000_000, config.limits.max_samples as nat)
            &&& taken_from(environment.max_epochs, 100_000, config.limits.max_epochs as nat)
        }),
{
}

/// A server that is told nothing has the default settings: port 8079 of its own
/// machine, bodies of 32 and files of 256 megabytes, no directory to read from,
/// no CORS, and the limits of the defaults.
pub proof fn a_server_that_is_told_nothing_has_the_defaults(environment: Environment)
    requires
        environment.addr is Unset,
        environment.body_limit_mb is None,
        environment.max_models is None,
        environment.max_layers is None,
        environment.max_units is None,
        environment.max_features is None,
        environment.max_samples is None,
        environment.max_epochs is None,
        environment.cors is None,
        environment.data_dir is Unset,
        environment.max_file_mb is None,
    ensures
        environment.fault() is None,
        environment.sizes_fit(),
        environment.config() == default_config(),
        default_config().addr.ip.loopback(),
        default_config().addr.port == 8079,
        default_config().body_limit_bytes == 32 * 1048576,
        default_config().max_file_bytes == 256 * 1048576,
        default_config().data_dir is None,
        !default_config().permissive_cors,
        default_config().limits.max_models == 256,
        default_config().limits.max_layers == 64,
        default_config().limits.max_units_per_layer == 4096,
        default_config().limits.max_features == 4096,
        default_config().limits.max_samples == 1_000_000,
        default_config().limits.max_epochs == 100_000,
{
}

/// What is said of a variable that is wrong names it and what it holds, and is
/// about the first of them: the address, the size of a body, the limits, the
/// data directory, the size of a file.
pub proof fn the_first_variable_that_is_wrong_is_named(environment: Environment, refusal: Seq<char>)
    requires
        environment.fault() matches Some(fault) && fault.explained_by(refusal),
    ensures
        match environment.addr {
            AddrSetting::Unreadable { value, reason } => refusal
                == "NN_API_ADDR is not a socket address ('"@ + value@ + "'): "@ + reason@,
            AddrSetting::Address { addr, shown } => !(addr.ip.loopback() || (
            environment.allow_remote matches Some(allowed) && allowed@ == "yes"@)) ==> refusal
                == "NN_API_ADDR '"@ + shown@
                + "' would accept connections from other machines, and this server has no authentication of its own. Bind it to 127.0.0.1 and reach it from this machine, or, if something that authenticates sits in front of it, set NN_API_ALLOW_REMOTE=yes."@,
            AddrSetting::Unset => true,
        },
        ({
            let addr = environment.addr_fault() is None;
            let says = |key: Seq<char>, value: Option<String>|
                refusal == key + " is not a number ('"@ + value->0@ + "'): "@ + parse_failure(
                    value->0@,
                    usize::MAX,
                );
            let body = addr && unset_or_a_number(environment.body_limit_mb);
            let models = body && unset_or_a_number(environment.max_models);
            let layers = models && unset_or_a_number(environment.max_layers);
            let units = layers && unset_or_a_number(environment.max_units);
            let features = units && unset_or_a_number(environment.max_features);
            let samples = features && unset_or_a_number(environment.max_samples);
            let epochs = samples && unset_or_a_number(environment.max_epochs);
            &&& addr && !body ==> says("NN_API_BODY_LIMIT_MB"@, environment.body_limit_mb)
            &&& body && !models ==> says("NN_API_MAX_MODELS"@, environment.max_models)
            &&& models && !layers ==> says("NN_API_MAX_LAYERS"@, environment.max_layers)
            &&& layers && !units ==> says("NN_API_MAX_UNITS"@, environment.max_units)
            &&& units && !features ==> says("NN_API_MAX_FEATURES"@, environment.max_features)
            &&& features && !samples ==> says("NN_API_MAX_SAMPLES"@, environment.max_samples)
            &&& samples && !epochs ==> says("NN_API_MAX_EPOCHS"@, environment.max_epochs)
            &&& epochs ==> match environment.data_dir {
                DataDirSetting::Unopened { value, reason } => refusal == "NN_API_DATA_DIR '"@
                    + value@ + "' cannot be opened: "@ + reason@,
                DataDirSetting::NotADirectory { value } => refusal == "NN_API_DATA_DIR '"@ + value@
                    + "' is not a directory"@,
                _ => says("NN_API_MAX_FILE_MB"@, environment.max_file_mb),
            }
        }),
{
}

/// The sizes fit exactly where both, counted in bytes, can be told by a machine
/// word and by 64 bits; one that is never looked at, because something before it
/// is wrong, fits.
pub proof fn sizes_fit_where_they_can_be_counted(environment: Environment, body: nat, file: nat)
    requires
        taken_from(environment.body_limit_mb, 32, body),
        taken_from(environment.max_file_mb, 256, file),
    ensures
        environment.fault() is None ==> (environment.sizes_fit() <==> body * 1048576 <= usize::MAX
            && file * 1048576 <= u64::MAX),
        environment.addr is Unreadable ==> environment.sizes_fit(),
        environment.fault() is Some && body * 1048576 <= usize::MAX ==> environment.sizes_fit(),
{
}

} // verus!

//! The settings which the daemon and the installer keep in their files.

use crate::env::{Env, PiholeFile};
use crate::text::{
    fields, integer_of_text, parse_integer, parse_unsigned, split_text, text_equal, texts,
    unsigned_of_text,
};
use crate::util::{Error, ErrorKind};
use vstd::prelude::*;

verus! {

/// How much of a query the statistics may show.
#[derive(Clone, Copy, Debug, PartialEq, Eq, Structural)]
pub enum FtlPrivacyLevel {
    ShowAll,
    HideDomains,
    HideDomainsAndClients,
    Maximum,
}

impl FtlPrivacyLevel {
    /// The number under which the level is configured; a higher number hides more.
    pub open spec fn ordinal(self) -> int {
        match self {
            FtlPrivacyLevel::ShowAll => 0,
            FtlPrivacyLevel::HideDomains => 1,
            FtlPrivacyLevel::HideDomainsAndClients => 2,
            FtlPrivacyLevel::Maximum => 3,
        }
    }

    /// Get the privacy level from its number.
    pub fn from_number(num: isize) -> (r: Option<Self>)
        ensures
            r is Some <==> 0 <= num <= 3,
            r matches Some(level) ==> level.ordinal() == num,
    {
        match num {
            0 => Some(FtlPrivacyLevel::ShowAll),
            1 => Some(FtlPrivacyLevel::HideDomains),
            2 => Some(FtlPrivacyLevel::HideDomainsAndClients),
            3 => Some(FtlPrivacyLevel::Maximum),
            _ => None,
        }
    }

    /// The number of the level.
    pub fn to_number(self) -> (n: u8)
        ensures
            n == self.ordinal(),
    {
        match self {
            FtlPrivacyLevel::ShowAll => 0,
            FtlPrivacyLevel::HideDomains => 1,
            FtlPrivacyLevel::HideDomainsAndClients => 2,
            FtlPrivacyLevel::Maximum => 3,
        }
    }

    /// Whether this level hides at least as much as `other`.
    pub fn at_least(self, other: FtlPrivacyLevel) -> (r: bool)
        ensures
            r == (self.ordinal() >= other.ordinal()),
    {
        self.to_number() >= other.to_number()
    }
}

/// What the first line that sets `key` gives it: the text between the first
/// and the second `=` of the first line that has `key` before its first `=`.
pub open spec fn setting_of(lines: Seq<Seq<char>>, key: Seq<char>) -> Option<Seq<char>>
    decreases lines.len(),
{
    if lines.len() == 0 {
        None
    } else {
        let parts = fields(lines[0], '=');
        if parts.len() >= 2 && parts[0] == key {
            Some(parts[1])
        } else {
            setting_of(lines.skip(1), key)
        }
    }
}

/// Find what the lines give to `key`.
pub fn find_setting(lines: &Vec<String>, key: &str) -> (value: Option<String>)
    ensures
        match setting_of(texts(lines@), key@) {
            Some(text) => value matches Some(v) && v@ == text,
            None => value is None,
        },
{
    let mut i: usize = 0;
    assert(texts(lines@).skip(0) == texts(lines@));
    while i < lines.len()
        invariant
            i <= lines.len(),
            setting_of(texts(lines@), key@) == setting_of(texts(lines@).skip(i as int), key@),
        decreases lines.len() - i,
    {
        let mut parts = split_text(lines[i].as_str(), '=');
        proof {
            let rest = texts(lines@).skip(i as int);
            assert(rest[0] == lines@[i as int]@);
            assert(rest.skip(1) == texts(lines@).skip(i + 1));
            assert(texts(parts@).len() == parts.len());
        }
        if parts.len() >= 2 {
            assert(texts(parts@)[0] == parts@[0]@);
            assert(texts(parts@)[1] == parts@[1]@);
            if text_equal(parts[0].as_str(), key) {
                let value = parts.swap_remove(1);
                return Some(value);
            }
        }
        i = i + 1;
    }
    None
}

/// The privacy level that a text names.
pub open spec fn privacy_level_of(text: Seq<char>) -> Option<FtlPrivacyLevel> {
    if text == "0"@ {
        Some(FtlPrivacyLevel::ShowAll)
    } else if text == "1"@ {
        Some(FtlPrivacyLevel::HideDomains)
    } else if text == "2"@ {
        Some(FtlPrivacyLevel::HideDomainsAndClients)
    } else if text == "3"@ {
        Some(FtlPrivacyLevel::Maximum)
    } else {
        None
    }
}

/// Read a privacy level from the text that names it.
pub fn parse_privacy_level(text: &str) -> (level: Option<FtlPrivacyLevel>)
    ensures
        level == privacy_level_of(text@),
{
    if text_equal(text, "0") {
        Some(FtlPrivacyLevel::ShowAll)
    } else if text_equal(text, "1") {
        Some(FtlPrivacyLevel::HideDomains)
    } else if text_equal(text, "2") {
        Some(FtlPrivacyLevel::HideDomainsAndClients)
    } else if text_equal(text, "3") {
        Some(FtlPrivacyLevel::Maximum)
    } else {
        None
    }
}

/// The entries of the installer's settings file.
#[derive(Clone, Copy, Debug, PartialEq, Eq, Structural)]
pub enum SetupVarsEntry {
    ApiExcludeClients,
    ApiExcludeDomains,
    ApiQueryLogShow,
    Ipv4Address,
    Ipv6Address,
    PiholeInterface,
    WebPassword,
}

impl SetupVarsEntry {
    /// The key under which the file holds the entry.
    pub open spec fn key_text(self) -> Seq<char> {
        match self {
            SetupVarsEntry::ApiExcludeClients => "API_EXCLUDE_CLIENTS"@,
            SetupVarsEntry::ApiExcludeDomains => "API_EXCLUDE_DOMAINS"@,
            SetupVarsEntry::ApiQueryLogShow => "API_QUERY_LOG_SHOW"@,
            SetupVarsEntry::Ipv4Address => "IPV4_ADDRESS"@,
            SetupVarsEntry::Ipv6Address => "IPV6_ADDRESS"@,
            SetupVarsEntry::PiholeInterface => "PIHOLE_INTERFACE"@,
            SetupVarsEntry::WebPassword => "WEBPASSWORD"@,
        }
    }

    /// The value of the entry where the file does not hold it.
    pub open spec fn default_text(self) -> Seq<char> {
        match self {
            SetupVarsEntry::ApiExcludeClients => ""@,
            SetupVarsEntry::ApiExcludeDomains => ""@,
            SetupVarsEntry::ApiQueryLogShow => "all"@,
            SetupVarsEntry::Ipv4Address => ""@,
            SetupVarsEntry::Ipv6Address => ""@,
            SetupVarsEntry::PiholeInterface => ""@,
            SetupVarsEntry::WebPassword => ""@,
        }
    }

    /// The value of the entry: what the first line of the file that sets
    /// the key gives it, or the default where no line does or no file is there.
    pub open spec fn value(self, env: &Env) -> Seq<char> {
        match env.lines(PiholeFile::SetupVars) {
            Some(lines) => match setting_of(lines, self.key_text()) {
                Some(value) => value,
                None => self.default_text(),
            },
            None => self.default_text(),
        }
    }

    /// The file which holds the entry.
    pub fn file(&self) -> (file: PiholeFile)
        ensures
            file == PiholeFile::SetupVars,
    {
        PiholeFile::SetupVars
    }

    /// Get the key of the entry.
    pub fn key(&self) -> (key: &'static str)
        ensures
            key@ == self.key_text(),
    {
        match self {
            SetupVarsEntry::ApiExcludeClients => "API_EXCLUDE_CLIENTS",
            SetupVarsEntry::ApiExcludeDomains => "API_EXCLUDE_DOMAINS",
            SetupVarsEntry::ApiQueryLogShow => "API_QUERY_LOG_SHOW",
            SetupVarsEntry::Ipv4Address => "IPV4_ADDRESS",
            SetupVarsEntry::Ipv6Address => "IPV6_ADDRESS",
            SetupVarsEntry::PiholeInterface => "PIHOLE_INTERFACE",
            SetupVarsEntry::WebPassword => "WEBPASSWORD",
        }
    }

    /// Get the default value of the entry.
    pub fn get_default(&self) -> (value: &'static str)
        ensures
            value@ == self.default_text(),
    {
        match self {
            SetupVarsEntry::ApiExcludeClients => "",
            SetupVarsEntry::ApiExcludeDomains => "",
            SetupVarsEntry::ApiQueryLogShow => "all",
            SetupVarsEntry::Ipv4Address => "",
            SetupVarsEntry::Ipv6Address => "",
            SetupVarsEntry::PiholeInterface => "",
            SetupVarsEntry::WebPassword => "",
        }
    }

    /// Read the value of the entry.
    pub fn read(&self, env: &Env) -> (value: String)
        ensures
            value@ == self.value(env),
    {
        match env.read_file_lines(self.file()) {
            Ok(lines) => match find_setting(lines, self.key()) {
                Some(value) => value,
                None => self.get_default().to_owned(),
            },
            Err(_) => self.get_default().to_owned(),
        }
    }
}
/// The entries of the daemon's settings file.
#[derive(Clone, Copy, Debug, PartialEq, Eq, Structural)]
pub enum FtlConfEntry {
    SocketListening,
    QueryDisplay,
    AaaaQueryAnalysis,
    ResolveIpv6,
    ResolveIpv4,
    MaxDbDays,
    DbInterval,
    DbFile,
    MaxLogAge,
    FtlPort,
    PrivacyLevel,
    IgnoreLocalHost,
    BlockingMode,
    RegexDebugMode,
    GravityDb,
}

impl FtlConfEntry {
    /// The key under which the file holds the entry.
    pub open spec fn key_text(self) -> Seq<char> {
        match self {
            FtlConfEntry::SocketListening => "SOCKET_LISTENING"@,
            FtlConfEntry::QueryDisplay => "QUERY_DISPLAY"@,
            FtlConfEntry::AaaaQueryAnalysis => "AAAA_QUERY_ANALYSIS"@,
            FtlConfEntry::ResolveIpv6 => "RESOLVE_IPV6"@,
            FtlConfEntry::ResolveIpv4 => "RESOLVE_IPV4"@,
            FtlConfEntry::MaxDbDays => "MAXDBDAYS"@,
            FtlConfEntry::DbInterval => "DBINTERVAL"@,
            FtlConfEntry::DbFile => "DBFILE"@,
            FtlConfEntry::MaxLogAge => "MAXLOGAGE"@,
            FtlConfEntry::FtlPort => "FTLPORT"@,
            FtlConfEntry::PrivacyLevel => "PRIVACYLEVEL"@,
            FtlConfEntry::IgnoreLocalHost => "IGNORE_LOCALHOST"@,
            FtlConfEntry::BlockingMode => "BLOCKINGMODE"@,
            FtlConfEntry::RegexDebugMode => "REGEX_DEBUGMODE"@,
            FtlConfEntry::GravityDb => "GRAVITYDB"@,
        }
    }

    /// The value of the entry where the file does not hold it.
    pub open spec fn default_text(self) -> Seq<char> {
        match self {
            FtlConfEntry::SocketListening => "localonly"@,
            FtlConfEntry::QueryDisplay => "yes"@,
            FtlConfEntry::AaaaQueryAnalysis => "yes"@,
            FtlConfEntry::ResolveIpv6 => "yes"@,
            FtlConfEntry::ResolveIpv4 => "yes"@,
            FtlConfEntry::MaxDbDays => "365"@,
            FtlConfEntry::DbInterval => "1.0"@,
            FtlConfEntry::DbFile => "/etc/pihole/pihole-FTL.db"@,
            FtlConfEntry::MaxLogAge => "24.0"@,
            FtlConfEntry::FtlPort => "4711"@,
            FtlConfEntry::PrivacyLevel => "0"@,
            FtlConfEntry::IgnoreLocalHost => "no"@,
            FtlConfEntry::BlockingMode => "NULL"@,
            FtlConfEntry::RegexDebugMode => "false"@,
            FtlConfEntry::GravityDb => "/etc/pihole/gravity.db"@,
        }
    }

    /// The value of the entry: what the first line of the file that sets
    /// the key gives it, or the default where no line does or no file is there.
    pub open spec fn value(self, env: &Env) -> Seq<char> {
        match env.lines(PiholeFile::FtlConfig) {
            Some(lines) => match setting_of(lines, self.key_text()) {
                Some(value) => value,
                None => self.default_text(),
            },
            None => self.default_text(),
        }
    }

    /// The file which holds the entry.
    pub fn file(&self) -> (file: PiholeFile)
        ensures
            file == PiholeFile::FtlConfig,
    {
        PiholeFile::FtlConfig
    }

    /// Get the key of the entry.
    pub fn key(&self) -> (key: &'static str)
        ensures
            key@ == self.key_text(),
    {
        match self {
            FtlConfEntry::SocketListening => "SOCKET_LISTENING",
            FtlConfEntry::QueryDisplay => "QUERY_DISPLAY",
            FtlConfEntry::AaaaQueryAnalysis => "AAAA_QUERY_ANALYSIS",
            FtlConfEntry::ResolveIpv6 => "RESOLVE_IPV6",
            FtlConfEntry::ResolveIpv4 => "RESOLVE_IPV4",
            FtlConfEntry::MaxDbDays => "MAXDBDAYS",
            FtlConfEntry::DbInterval => "DBINTERVAL",
            FtlConfEntry::DbFile => "DBFILE",
            FtlConfEntry::MaxLogAge => "MAXLOGAGE",
            FtlConfEntry::FtlPort => "FTLPORT",
            FtlConfEntry::PrivacyLevel => "PRIVACYLEVEL",
            FtlConfEntry::IgnoreLocalHost => "IGNORE_LOCALHOST",
            FtlConfEntry::BlockingMode => "BLOCKINGMODE",
            FtlConfEntry::RegexDebugMode => "REGEX_DEBUGMODE",
            FtlConfEntry::GravityDb => "GRAVITYDB",
        }
    }

    /// Get the default value of the entry.
    pub fn get_default(&self) -> (value: &'static str)
        ensures
            value@ == self.default_text(),
    {
        match self {
            FtlConfEntry::SocketListening => "localonly",
            FtlConfEntry::QueryDisplay => "yes",
            FtlConfEntry::AaaaQueryAnalysis => "yes",
            FtlConfEntry::ResolveIpv6 => "yes",
            FtlConfEntry::ResolveIpv4 => "yes",
            FtlConfEntry::MaxDbDays => "365",
            FtlConfEntry::DbInterval => "1.0",
            FtlConfEntry::DbFile => "/etc/pihole/pihole-FTL.db",
            FtlConfEntry::MaxLogAge => "24.0",
            FtlConfEntry::FtlPort => "4711",
            FtlConfEntry::PrivacyLevel => "0",
            FtlConfEntry::IgnoreLocalHost => "no",
            FtlConfEntry::BlockingMode => "NULL",
            FtlConfEntry::RegexDebugMode => "false",
            FtlConfEntry::GravityDb => "/etc/pihole/gravity.db",
        }
    }

    /// Read the value of the entry.
    pub fn read(&self, env: &Env) -> (value: String)
        ensures
            value@ == self.value(env),
    {
        match env.read_file_lines(self.file()) {
            Ok(lines) => match find_setting(lines, self.key()) {
                Some(value) => value,
                None => self.get_default().to_owned(),
            },
            Err(_) => self.get_default().to_owned(),
        }
    }
}
impl FtlConfEntry {
    /// The whole number which the value of the entry spells, with or
    /// without a sign, if it spells one from `least` to `most`.
    pub open spec fn number(self, env: &Env, least: int, most: int) -> Option<int> {
        match integer_of_text(self.value(env)) {
            Some(n) => if least <= n <= most {
                Some(n as int)
            } else {
                None
            },
            None => None,
        }
    }

    /// Read the value of the entry as a whole number from `least` to
    /// `most`. Another value is an invalid setting.
    pub fn read_number(&self, env: &Env, least: i64, most: i64) -> (r: Result<i64, Error>)
        ensures
            match self.number(env, least as int, most as int) {
                Some(n) => r matches Ok(v) && v == n,
                None => crate::util::is_error(r, ErrorKind::InvalidSettingValue),
            },
    {
        let value = self.read(env);
        match parse_integer(value.as_str()) {
            Some(n) => {
                if least <= n && n <= most {
                    Ok(n)
                } else {
                    Err(Error::from(ErrorKind::InvalidSettingValue))
                }
            },
            None => Err(Error::from(ErrorKind::InvalidSettingValue)),
        }
    }

    /// The number from zero on which the value of the entry spells, if it
    /// spells one up to `most`.
    pub open spec fn natural(self, env: &Env, most: int) -> Option<int> {
        match unsigned_of_text(self.value(env)) {
            Some(n) => if n <= most {
                Some(n as int)
            } else {
                None
            },
            None => None,
        }
    }

    /// Read the value of the entry as a number from zero to `most`. A
    /// value with a minus sign, or another value, is an invalid setting.
    pub fn read_natural(&self, env: &Env, most: u64) -> (r: Result<u64, Error>)
        ensures
            match self.natural(env, most as int) {
                Some(n) => r matches Ok(v) && v == n,
                None => crate::util::is_error(r, ErrorKind::InvalidSettingValue),
            },
    {
        let value = self.read(env);
        match parse_unsigned(value.as_str()) {
            Some(n) => {
                if n <= most {
                    Ok(n)
                } else {
                    Err(Error::from(ErrorKind::InvalidSettingValue))
                }
            },
            None => Err(Error::from(ErrorKind::InvalidSettingValue)),
        }
    }

    /// Whether the value of the entry is `true`.
    pub open spec fn holds(self, env: &Env) -> bool {
        self.value(env) == "true"@
    }

    /// Check if the value of the entry is `true`.
    pub fn is_true(&self, env: &Env) -> (r: bool)
        ensures
            r == self.holds(env),
    {
        let value = self.read(env);
        text_equal(value.as_str(), "true")
    }

    /// The privacy level which the daemon's settings file configures, if the
    /// value of its entry names one.
    pub open spec fn privacy_level(env: &Env) -> Option<FtlPrivacyLevel> {
        privacy_level_of(FtlConfEntry::PrivacyLevel.value(env))
    }

    /// Read the privacy level. A value which names no level is an invalid setting.
    pub fn read_privacy_level(env: &Env) -> (r: Result<FtlPrivacyLevel, Error>)
        ensures
            match FtlConfEntry::privacy_level(env) {
                Some(level) => r == Ok::<FtlPrivacyLevel, Error>(level),
                None => r matches Err(e) && e.spec_kind() == ErrorKind::InvalidSettingValue,
            },
    {
        let value = FtlConfEntry::PrivacyLevel.read(env);
        match parse_privacy_level(value.as_str()) {
            Some(level) => Ok(level),
            None => Err(Error::from(ErrorKind::InvalidSettingValue)),
        }
    }
}

} // verus!

//! The settings of the daemon.

use crate::env::Env;
use crate::settings::FtlConfEntry;
use crate::util::{is_error, Error, ErrorKind};
use vstd::prelude::*;

verus! {

/// The settings of the daemon, as the reply shows them. The two settings
/// which are fractions of a time are shown as the file spells them.
#[derive(Debug, PartialEq, Eq)]
pub struct FtlSettingsReply {
    pub socket_listening: String,
    pub query_display: String,
    pub aaaa_query_analysis: String,
    pub resolve_ipv6: String,
    pub resolve_ipv4: String,
    pub max_db_days: i32,
    pub db_interval: String,
    pub db_file: String,
    pub max_log_age: String,
    pub ftl_port: usize,
    pub privacy_level: i32,
    pub ignore_local_host: String,
    pub blocking_mode: String,
    pub regex_debug_mode: bool,
}

/// The settings, by their texts.
pub struct FtlSettingsView {
    pub socket_listening: Seq<char>,
    pub query_display: Seq<char>,
    pub aaaa_query_analysis: Seq<char>,
    pub resolve_ipv6: Seq<char>,
    pub resolve_ipv4: Seq<char>,
    pub max_db_days: int,
    pub db_interval: Seq<char>,
    pub db_file: Seq<char>,
    pub max_log_age: Seq<char>,
    pub ftl_port: int,
    pub privacy_level: int,
    pub ignore_local_host: Seq<char>,
    pub blocking_mode: Seq<char>,
    pub regex_debug_mode: bool,
}

impl View for FtlSettingsReply {
    type V = FtlSettingsView;

    open spec fn view(&self) -> FtlSettingsView {
        FtlSettingsView {
            socket_listening: self.socket_listening@,
            query_display: self.query_display@,
            aaaa_query_analysis: self.aaaa_query_analysis@,
            resolve_ipv6: self.resolve_ipv6@,
            resolve_ipv4: self.resolve_ipv4@,
            max_db_days: self.max_db_days as int,
            db_interval: self.db_interval@,
            db_file: self.db_file@,
            max_log_age: self.max_log_age@,
            ftl_port: self.ftl_port as int,
            privacy_level: self.privacy_level as int,
            ignore_local_host: self.ignore_local_host@,
            blocking_mode: self.blocking_mode@,
            regex_debug_mode: self.regex_debug_mode,
        }
    }
}

/// The settings of the daemon in an environment: the value of each entry,
/// or its default where the file does not set it. The days of the database
/// and the privacy level are whole numbers which an `i32` holds, with or
/// without a sign; the port is a number from zero on which a `usize` holds,
/// with no sign or a plus sign. Neither is held to a range of its own: a
/// port which no socket has, or a privacy level which names none, is shown
/// as the file spells it. There are no settings where one of the three is
/// no such number.
pub open spec fn ftl_settings(env: &Env) -> Option<FtlSettingsView> {
    match (
        FtlConfEntry::MaxDbDays.number(env, i32::MIN as int, i32::MAX as int),
        FtlConfEntry::FtlPort.natural(env, usize::MAX as int),
        FtlConfEntry::PrivacyLevel.number(env, i32::MIN as int, i32::MAX as int),
    ) {
        (Some(max_db_days), Some(ftl_port), Some(privacy_level)) => Some(
            FtlSettingsView {
                socket_listening: FtlConfEntry::SocketListening.value(env),
                query_display: FtlConfEntry::QueryDisplay.value(env),
                aaaa_query_analysis: FtlConfEntry::AaaaQueryAnalysis.value(env),
                resolve_ipv6: FtlConfEntry::ResolveIpv6.value(env),
                resolve_ipv4: FtlConfEntry::ResolveIpv4.value(env),
                max_db_days,
                db_interval: FtlConfEntry::DbInterval.value(env),
                db_file: FtlConfEntry::DbFile.value(env),
                max_log_age: FtlConfEntry::MaxLogAge.value(env),
                ftl_port,
                privacy_level,
                ignore_local_host: FtlConfEntry::IgnoreLocalHost.value(env),
                blocking_mode: FtlConfEntry::BlockingMode.value(env),
                regex_debug_mode: FtlConfEntry::RegexDebugMode.holds(env),
            },
        ),
        _ => None,
    }
}

/// Read FTL's settings
pub fn get_ftl(env: &Env) -> (r: Result<FtlSettingsReply, Error>)
    ensures
        match ftl_settings(env) {
            Some(settings) => r matches Ok(reply) && reply@ == settings,
            None => is_error(r, ErrorKind::InvalidSettingValue),
        },
{
    // if setting is not present, report default
    let socket_listening = FtlConfEntry::SocketListening.read(env);
    let query_display = FtlConfEntry::QueryDisplay.read(env);
    let aaaa_query_analysis = FtlConfEntry::AaaaQueryAnalysis.read(env);
    let resolve_ipv6 = FtlConfEntry::ResolveIpv6.read(env);
    let resolve_ipv4 = FtlConfEntry::ResolveIpv4.read(env);
    let max_db_days = match FtlConfEntry::MaxDbDays.read_number(env, -0x8000_0000, 0x7fff_ffff) {
        Ok(n) => n as i32,
        Err(e) => { return Err(e); },
    };
    let db_interval = FtlConfEntry::DbInterval.read(env);
    let db_file = FtlConfEntry::DbFile.read(env);
    let max_log_age = FtlConfEntry::MaxLogAge.read(env);
    let ftl_port = match FtlConfEntry::FtlPort.read_natural(env, usize::MAX as u64) {
        Ok(n) => n as usize,
        Err(e) => { return Err(e); },
    };
    let privacy_level = match FtlConfEntry::PrivacyLevel.read_number(
        env,
        -0x8000_0000,
        0x7fff_ffff,
    ) {
        Ok(n) => n as i32,
        Err(e) => { return Err(e); },
    };
    let ignore_local_host = FtlConfEntry::IgnoreLocalHost.read(env);
    let blocking_mode = FtlConfEntry::BlockingMode.read(env);
    let regex_debug_mode = FtlConfEntry::RegexDebugMode.is_true(env);

    Ok(
        FtlSettingsReply {
            socket_listening,
            query_display,
            aaaa_query_analysis,
            resolve_ipv6,
            resolve_ipv4,
            max_db_days,
            db_interval,
            db_file,
            max_log_age,
            ftl_port,
            privacy_level,
            ignore_local_host,
            blocking_mode,
            regex_debug_mode,
        },
    )
}

} // verus!

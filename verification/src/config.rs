//! Settings of the runtime.

use vstd::prelude::*;
use vstd::string::*;

use crate::registry::{http_url, make_http_url};
use crate::text::{opt_str, parse_unsigned, parsed_unsigned};

verus! {

/// The address of the catalogue of the store.
pub const STORE_URL: &'static str =
    "https://ghfast.top/https://raw.githubusercontent.com/PandaNetOS/pnos-store/main/index.json";

/// The settings of the runtime.
#[derive(Debug)]
pub struct RuntimeConfig {
    pub port: u16,
    pub data_dir: String,
    pub media_dir: String,
    pub app_data_dir: String,
    pub default_store_url: String,
    /// Seconds.
    pub heartbeat_timeout: u64,
}

/// The contents of the settings.
#[verifier::ext_equal]
pub struct RuntimeView {
    pub port: u16,
    pub data_dir: Seq<char>,
    pub media_dir: Seq<char>,
    pub app_data_dir: Seq<char>,
    pub default_store_url: Seq<char>,
    pub heartbeat_timeout: u64,
}

impl View for RuntimeConfig {
    type V = RuntimeView;

    open spec fn view(&self) -> RuntimeView {
        RuntimeView {
            port: self.port,
            data_dir: self.data_dir@,
            media_dir: self.media_dir@,
            app_data_dir: self.app_data_dir@,
            default_store_url: self.default_store_url@,
            heartbeat_timeout: self.heartbeat_timeout,
        }
    }
}

/// The text of a variable of the environment, or else what was there.
pub open spec fn overridden(variable: Option<Seq<char>>, before: Seq<char>) -> Seq<char> {
    match variable {
        Some(v) => v,
        None => before,
    }
}

/// The port that a variable of the environment gives, or else the one that was there.
pub open spec fn port_of(variable: Option<Seq<char>>, before: u16) -> int {
    match variable {
        Some(v) => match parsed_unsigned(v, u16::MAX as int) {
            Some(p) => p,
            None => before as int,
        },
        None => before as int,
    }
}

/// The settings in effect: port, data and media directory as the environment has them where it
/// does, the directory of the applications below the data directory, and the catalogue.
pub open spec fn in_effect(
    loaded: RuntimeView,
    port: Option<Seq<char>>,
    data_dir: Option<Seq<char>>,
    media_dir: Option<Seq<char>>,
) -> RuntimeView {
    RuntimeView {
        port: port_of(port, loaded.port) as u16,
        data_dir: overridden(data_dir, loaded.data_dir),
        media_dir: overridden(media_dir, loaded.media_dir),
        app_data_dir: overridden(data_dir, loaded.data_dir) + "/apps"@,
        default_store_url: STORE_URL@,
        heartbeat_timeout: loaded.heartbeat_timeout,
    }
}

fn choose_text(variable: Option<&str>, before: String) -> (r: String)
    ensures
        r@ == overridden(opt_str(variable), before@),
{
    match variable {
        Some(v) => v.to_owned(),
        None => before,
    }
}

impl RuntimeConfig {
    /// The settings in effect, from those that were loaded and the variables of the environment.
    pub fn with_environment(
        self,
        port: Option<&str>,
        data_dir: Option<&str>,
        media_dir: Option<&str>,
    ) -> (r: RuntimeConfig)
        ensures
            r@ == in_effect(self@, opt_str(port), opt_str(data_dir), opt_str(media_dir)),
    {
        let port: u16 = match port {
            Some(p) => match parse_unsigned(p, 65535) {
                Some(n) => n as u16,
                None => self.port,
            },
            None => self.port,
        };
        let data_dir = choose_text(data_dir, self.data_dir);
        let media_dir = choose_text(media_dir, self.media_dir);
        let app_data_dir = data_dir.clone().concat("/apps");
        RuntimeConfig {
            port,
            data_dir,
            media_dir,
            app_data_dir,
            default_store_url: STORE_URL.to_owned(),
            heartbeat_timeout: self.heartbeat_timeout,
        }
    }

    /// The address under which the runtime is reached from the same machine.
    pub fn runtime_url(&self) -> (r: String)
        ensures
            r@ == http_url("127.0.0.1"@, self.port),
    {
        make_http_url("127.0.0.1", self.port)
    }
}

/// The log level that a variable of the environment gives, or else `info`.
pub fn log_level(variable: Option<&str>) -> (r: String)
    ensures
        r@ == overridden(opt_str(variable), "info"@),
{
    match variable {
        Some(v) => v.to_owned(),
        None => "info".to_owned(),
    }
}

} // verus!

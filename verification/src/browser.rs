//! The settings of the browser that the capture tool drives, and what is
//! decided while waiting for it.

use crate::text::decimal;
use crate::text::push_decimal;
use crate::text::push_str;
use crate::text::string_of;
use crate::volume::append_strings;
use crate::volume::clone_strings;
use crate::volume::texts;
use vstd::prelude::*;

verus! {

/// What a `BrowserConfig` holds.
pub struct BrowserConfigView {
    pub executable_path: Seq<char>,
    pub port: u16,
    pub user_data_dir: Seq<char>,
    pub headless: bool,
    pub additional_args: Seq<Seq<char>>,
    pub startup_timeout: u64,
    pub health_check_interval: u64,
}

/// The settings of the browser.
#[derive(Debug)]
pub struct BrowserConfig {
    /// The path of the browser's executable file.
    pub executable_path: String,
    /// The port for remote debugging.
    pub port: u16,
    /// The directory of the browser's profile.
    pub user_data_dir: String,
    /// Whether the browser runs without a window.
    pub headless: bool,
    /// Further arguments for the browser.
    pub additional_args: Vec<String>,
    /// How long to wait for the browser to start, in seconds.
    pub startup_timeout: u64,
    /// How long to wait between two health checks, in seconds.
    pub health_check_interval: u64,
}

impl View for BrowserConfig {
    type V = BrowserConfigView;

    open spec fn view(&self) -> BrowserConfigView {
        BrowserConfigView {
            executable_path: self.executable_path@,
            port: self.port,
            user_data_dir: self.user_data_dir@,
            headless: self.headless,
            additional_args: texts(self.additional_args@),
            startup_timeout: self.startup_timeout,
            health_check_interval: self.health_check_interval,
        }
    }
}

/// The start-up timeout of settings that name none, in seconds.
pub fn default_timeout() -> (r: u64)
    ensures
        r == 30,
{
    30
}

/// The interval between health checks of settings that name none, in
/// seconds.
pub fn default_health_check_interval() -> (r: u64)
    ensures
        r == 5,
{
    5
}

impl Default for BrowserConfig {
    fn default() -> (r: Self)
        ensures
            r@.executable_path == "C:\\Program Files (x86)\\Microsoft\\Edge\\Application\\msedge.exe"@,
            r@.port == 9223,
            r@.user_data_dir == "E:\\BrowserProfiles"@,
            r@.headless,
            r@.additional_args == seq!["--no-sandbox"@, "--disable-dev-shm-usage"@],
            r@.startup_timeout == 30,
            r@.health_check_interval == 5,
    {
        let mut additional_args: Vec<String> = Vec::new();
        additional_args.push("--no-sandbox".to_owned());
        additional_args.push("--disable-dev-shm-usage".to_owned());
        assert(texts(additional_args@) =~= seq!["--no-sandbox"@, "--disable-dev-shm-usage"@]);
        BrowserConfig {
            executable_path: "C:\\Program Files (x86)\\Microsoft\\Edge\\Application\\msedge.exe".to_owned(),
            port: 9223,
            user_data_dir: "E:\\BrowserProfiles".to_owned(),
            headless: true,
            additional_args,
            startup_timeout: default_timeout(),
            health_check_interval: default_health_check_interval(),
        }
    }
}

impl Clone for BrowserConfig {
    fn clone(&self) -> (r: Self)
        ensures
            r@ == self@,
    {
        BrowserConfig {
            executable_path: self.executable_path.clone(),
            port: self.port,
            user_data_dir: self.user_data_dir.clone(),
            headless: self.headless,
            additional_args: clone_strings(&self.additional_args),
            startup_timeout: self.startup_timeout,
            health_check_interval: self.health_check_interval,
        }
    }
}

/// The arguments that the settings give the browser: the debugging port,
/// the profile directory, the switch for running without a window if that is
/// asked for, and then the further arguments.
pub open spec fn browser_args(config: BrowserConfigView) -> Seq<Seq<char>> {
    let fixed = seq![
        "--remote-debugging-port="@ + decimal(config.port as nat),
        "--user-data-dir="@ + config.user_data_dir,
    ];
    if config.headless {
        fixed.push("--headless"@) + config.additional_args
    } else {
        fixed + config.additional_args
    }
}

/// The address at which the browser with the given debugging port answers.
pub open spec fn server_url_of(port: u16) -> Seq<char> {
    "http://localhost:"@ + decimal(port as nat)
}

impl BrowserConfig {
    /// The arguments that the settings give the browser.
    pub fn to_args(&self) -> (r: Vec<String>)
        ensures
            texts(r@) == browser_args(self@),
    {
        let mut args: Vec<String> = Vec::new();
        let mut port: Vec<char> = Vec::new();
        push_str(&mut port, "--remote-debugging-port=");
        push_decimal(&mut port, self.port as u64);
        args.push(string_of(&port));
        let mut dir: Vec<char> = Vec::new();
        push_str(&mut dir, "--user-data-dir=");
        push_str(&mut dir, self.user_data_dir.as_str());
        args.push(string_of(&dir));
        if self.headless {
            args.push("--headless".to_owned());
        }
        append_strings(&mut args, &self.additional_args);
        assert(texts(args@) =~= browser_args(self@));
        args
    }

    /// The address at which the browser answers.
    pub fn get_server_url(&self) -> (r: String)
        ensures
            r@ == server_url_of(self.port),
    {
        let mut out: Vec<char> = Vec::new();
        push_str(&mut out, "http://localhost:");
        push_decimal(&mut out, self.port as u64);
        string_of(&out)
    }

    /// The address at which the browser says that it is ready.
    pub fn version_url(&self) -> (r: String)
        ensures
            r@ == server_url_of(self.port) + "/json/version"@,
    {
        let mut out: Vec<char> = Vec::new();
        push_str(&mut out, "http://localhost:");
        push_decimal(&mut out, self.port as u64);
        push_str(&mut out, "/json/version");
        string_of(&out)
    }
}

/// What to do after asking the browser whether it is ready.
#[derive(Clone, Copy, Debug, PartialEq, Eq, Structural)]
pub enum Probe {
    Ready,
    /// Ask again after so many milliseconds.
    Retry { after_ms: u64 },
    TimedOut,
}

/// What to do when `elapsed_ms` milliseconds have gone by since the browser
/// was started and it has, or has not, answered that it is ready: a browser
/// that answers is ready; one that does not is asked again after half a
/// second, until the start-up timeout is over.
pub fn after_probe(answered: bool, elapsed_ms: u64, timeout_ms: u64) -> (r: Probe)
    ensures
        r == if elapsed_ms >= timeout_ms {
            Probe::TimedOut
        } else if answered {
            Probe::Ready
        } else {
            Probe::Retry { after_ms: 500 }
        },
{
    if elapsed_ms >= timeout_ms {
        Probe::TimedOut
    } else if answered {
        Probe::Ready
    } else {
        Probe::Retry { after_ms: 500 }
    }
}

} // verus!

//! The environment of the API: its configuration and the files it works on.
//!
//! The files are held by their lines. Who runs the API reads them from disk
//! into an `Env` and writes back those that an operation changed.

use crate::text::{lines_of, split_lines, texts};
use crate::util::{Error, ErrorKind};
use vstd::prelude::*;

verus! {

/// The files which the API reads and writes.
#[derive(Clone, Copy, Debug, PartialEq, Eq, Hash, Structural)]
pub enum PiholeFile {
    Whitelist,
    Blacklist,
    Regexlist,
    SetupVars,
    FtlConfig,
}

/// Whether a location is an absolute path: it begins with a slash.
pub open spec fn is_absolute(location: Seq<char>) -> bool {
    location.len() > 0 && location[0] == '/'
}

/// Whether a location is an absolute path.
pub fn check_absolute(location: &str) -> (r: bool)
    ensures
        r == is_absolute(location@),
{
    location.unicode_len() > 0 && location.get_char(0) == '/'
}

/// The general settings of the API.
#[derive(Clone, Debug)]
pub struct General {
    /// The address to listen on.
    pub address: String,
    /// The port to listen on.
    pub port: usize,
}

impl General {
    /// The general settings are valid when the address is not empty and the
    /// port is one that exists.
    pub open spec fn valid(&self) -> bool {
        self.address@.len() > 0 && self.port <= 65535
    }

    /// Check if the general settings are valid.
    pub fn is_valid(&self) -> (r: bool)
        ensures
            r == self.valid(),
    {
        self.address.as_str().unicode_len() > 0 && self.port <= 65535
    }
}

impl Default for General {
    fn default() -> (general: General)
        ensures
            general.address@ == "0.0.0.0"@,
            general.port == 80,
    {
        General { address: String::from_str("0.0.0.0"), port: 80 }
    }
}

/// Where the files of the API are.
#[derive(Clone, Debug)]
pub struct Files {
    pub whitelist: String,
    pub blacklist: String,
    pub regexlist: String,
    pub setup_vars: String,
    pub ftl_config: String,
}

impl Files {
    /// The location of a file.
    pub open spec fn location(&self, file: PiholeFile) -> Seq<char> {
        match file {
            PiholeFile::Whitelist => self.whitelist@,
            PiholeFile::Blacklist => self.blacklist@,
            PiholeFile::Regexlist => self.regexlist@,
            PiholeFile::SetupVars => self.setup_vars@,
            PiholeFile::FtlConfig => self.ftl_config@,
        }
    }

    /// The locations are valid when each is an absolute path.
    pub open spec fn valid(&self) -> bool {
        forall|file: PiholeFile| is_absolute(#[trigger] self.location(file))
    }

    /// Get the location of a file.
    pub fn get_location(&self, file: PiholeFile) -> (location: &str)
        ensures
            location@ == self.location(file),
    {
        match file {
            PiholeFile::Whitelist => self.whitelist.as_str(),
            PiholeFile::Blacklist => self.blacklist.as_str(),
            PiholeFile::Regexlist => self.regexlist.as_str(),
            PiholeFile::SetupVars => self.setup_vars.as_str(),
            PiholeFile::FtlConfig => self.ftl_config.as_str(),
        }
    }

    /// Check if the locations are valid.
    pub fn is_valid(&self) -> (r: bool)
        ensures
            r == self.valid(),
    {
        let r = check_absolute(self.get_location(PiholeFile::Whitelist)) && check_absolute(
            self.get_location(PiholeFile::Blacklist),
        ) && check_absolute(self.get_location(PiholeFile::Regexlist)) && check_absolute(
            self.get_location(PiholeFile::SetupVars),
        ) && check_absolute(self.get_location(PiholeFile::FtlConfig));
        proof {
            if r {
                assert forall|file: PiholeFile| is_absolute(#[trigger] self.location(file)) by {
                    match file {
                        PiholeFile::Whitelist => {},
                        PiholeFile::Blacklist => {},
                        PiholeFile::Regexlist => {},
                        PiholeFile::SetupVars => {},
                        PiholeFile::FtlConfig => {},
                    }
                }
            } else {
                assert(!is_absolute(self.location(PiholeFile::Whitelist)) || !is_absolute(
                    self.location(PiholeFile::Blacklist),
                ) || !is_absolute(self.location(PiholeFile::Regexlist)) || !is_absolute(
                    self.location(PiholeFile::SetupVars),
                ) || !is_absolute(self.location(PiholeFile::FtlConfig)));
            }
        }
        r
    }
}

impl Default for Files {
    fn default() -> (files: Files)
        ensures
            files.whitelist@ == "/etc/pihole/whitelist.txt"@,
            files.blacklist@ == "/etc/pihole/blacklist.txt"@,
            files.regexlist@ == "/etc/pihole/regex.list"@,
            files.setup_vars@ == "/etc/pihole/setupVars.conf"@,
            files.ftl_config@ == "/etc/pihole/pihole-FTL.conf"@,
            files.valid(),
    {
        proof {
            reveal_strlit("/etc/pihole/whitelist.txt");
            reveal_strlit("/etc/pihole/blacklist.txt");
            reveal_strlit("/etc/pihole/regex.list");
            reveal_strlit("/etc/pihole/setupVars.conf");
            reveal_strlit("/etc/pihole/pihole-FTL.conf");
        }
        let files = Files {
            whitelist: String::from_str("/etc/pihole/whitelist.txt"),
            blacklist: String::from_str("/etc/pihole/blacklist.txt"),
            regexlist: String::from_str("/etc/pihole/regex.list"),
            setup_vars: String::from_str("/etc/pihole/setupVars.conf"),
            ftl_config: String::from_str("/etc/pihole/pihole-FTL.conf"),
        };
        proof {
            assert forall|file: PiholeFile| is_absolute(#[trigger] files.location(file)) by {
                match file {
                    PiholeFile::Whitelist => {},
                    PiholeFile::Blacklist => {},
                    PiholeFile::Regexlist => {},
                    PiholeFile::SetupVars => {},
                    PiholeFile::FtlConfig => {},
                }
            }
        }
        files
    }
}

/// The settings of the web interface.
#[derive(Clone, Debug)]
pub struct WebConfig {
    /// Whether the web interface is served.
    pub enabled: bool,
    /// The path under which the web interface is served.
    pub path: String,
    /// Whether the root of the server leads to the web interface.
    pub root_redirect: bool,
}

impl WebConfig {
    /// The web settings are valid when the path is absolute.
    pub open spec fn valid(&self) -> bool {
        is_absolute(self.path@)
    }

    /// Whether the root of the server leads on to the web interface: the
    /// interface is served, the redirect is wanted, and the interface does not
    /// stand at the root itself.
    pub open spec fn redirects_root(&self) -> bool {
        self.enabled && self.root_redirect && self.path@ != seq!['/']
    }

    /// The path under which the API is served: the web path and `api`, with
    /// one slash between them.
    pub open spec fn api_path(&self) -> Seq<char> {
        if self.path@.len() > 0 && self.path@.last() == '/' {
            self.path@ + "api"@
        } else {
            self.path@ + "/api"@
        }
    }

    /// Check if the web settings are valid.
    pub fn is_valid(&self) -> (r: bool)
        ensures
            r == self.valid(),
    {
        check_absolute(self.path.as_str())
    }

    /// Check if the root of the server should lead on to the web interface.
    pub fn root_redirect_enabled(&self) -> (r: bool)
        ensures
            r == self.redirects_root(),
    {
        proof {
            reveal_strlit("/");
            assert("/"@ == seq!['/']);
        }
        self.enabled && self.root_redirect && !crate::text::text_equal(self.path.as_str(), "/")
    }

    /// The path to mount the API on.
    pub fn api_mount_path(&self) -> (path: String)
        ensures
            path@ == self.api_path(),
    {
        let len = self.path.as_str().unicode_len();
        let mut path = self.path.clone();
        if len > 0 && self.path.as_str().get_char(len - 1) == '/' {
            path.append("api");
        } else {
            path.append("/api");
        }
        path
    }
}

impl Default for WebConfig {
    fn default() -> (web: WebConfig)
        ensures
            web.enabled,
            web.root_redirect,
            web.path@ == "/admin"@,
            web.valid(),
    {
        proof {
            reveal_strlit("/admin");
        }
        WebConfig { enabled: true, path: String::from_str("/admin"), root_redirect: true }
    }
}

/// The API config options.
#[derive(Clone, Debug)]
pub struct Config {
    pub general: General,
    pub file_locations: Files,
    pub web: WebConfig,
}

impl Config {
    /// The config is valid when each of its parts is.
    pub open spec fn valid(&self) -> bool {
        self.general.valid() && self.file_locations.valid() && self.web.valid()
    }

    /// Check if the config settings are valid.
    pub fn is_valid(&self) -> (r: bool)
        ensures
            r == self.valid(),
    {
        self.general.is_valid() && self.file_locations.is_valid() && self.web.is_valid()
    }
}

impl Default for Config {
    fn default() -> (config: Config)
        ensures
            config.valid(),
            config.general.port == 80,
            config.web.enabled,
            config.web.root_redirect,
            config.web.path@ == "/admin"@,
    {
        proof {
            reveal_strlit("0.0.0.0");
        }
        Config {
            general: General::default(),
            file_locations: Files::default(),
            web: WebConfig::default(),
        }
    }
}

/// The configuration and the files of the API.
pub struct Env {
    config: Config,
    test: bool,
    whitelist: Option<Vec<String>>,
    blacklist: Option<Vec<String>>,
    regexlist: Option<Vec<String>>,
    setup_vars: Option<Vec<String>>,
    ftl_config: Option<Vec<String>>,
}

impl Env {
    /// The strings that hold the lines of a file, if it exists.
    pub closed spec fn stored(&self, file: PiholeFile) -> Option<Vec<String>> {
        match file {
            PiholeFile::Whitelist => self.whitelist,
            PiholeFile::Blacklist => self.blacklist,
            PiholeFile::Regexlist => self.regexlist,
            PiholeFile::SetupVars => self.setup_vars,
            PiholeFile::FtlConfig => self.ftl_config,
        }
    }

    /// The lines of a file, if it exists.
    pub open spec fn lines(&self, file: PiholeFile) -> Option<Seq<Seq<char>>> {
        match self.stored(file) {
            Some(lines) => Some(texts(lines@)),
            None => None,
        }
    }

    /// The configuration.
    pub closed spec fn spec_config(&self) -> Config {
        self.config
    }

    /// Whether this is an environment for tests.
    pub closed spec fn spec_is_test(&self) -> bool {
        self.test
    }

    /// Whether two environments differ in the lines of `file` at most.
    pub open spec fn same_but(&self, other: &Env, file: PiholeFile) -> bool {
        &&& self.spec_config() == other.spec_config()
        &&& self.spec_is_test() == other.spec_is_test()
        &&& forall|f: PiholeFile| f != file ==> self.stored(f) == other.stored(f)
    }

    /// An environment for production, without any file.
    pub fn production(config: Config) -> (env: Env)
        ensures
            env.spec_config() == config,
            !env.spec_is_test(),
            forall|file: PiholeFile| env.stored(file) is None,
    {
        Env {
            config,
            test: false,
            whitelist: None,
            blacklist: None,
            regexlist: None,
            setup_vars: None,
            ftl_config: None,
        }
    }

    /// An environment for tests, without any file.
    pub fn test(config: Config) -> (env: Env)
        ensures
            env.spec_config() == config,
            env.spec_is_test(),
            forall|file: PiholeFile| env.stored(file) is None,
    {
        Env {
            config,
            test: true,
            whitelist: None,
            blacklist: None,
            regexlist: None,
            setup_vars: None,
            ftl_config: None,
        }
    }

    /// The configuration.
    pub fn config(&self) -> (config: &Config)
        ensures
            *config == self.spec_config(),
    {
        &self.config
    }

    /// Check if this is an environment for tests.
    pub fn is_test(&self) -> (r: bool)
        ensures
            r == self.spec_is_test(),
    {
        self.test
    }

    /// Get the location of a file.
    pub fn file_location(&self, file: PiholeFile) -> (location: &str)
        ensures
            location@ == self.spec_config().file_locations.location(file),
    {
        self.config.file_locations.get_location(file)
    }

    /// Check if a file exists.
    pub fn file_exists(&self, file: PiholeFile) -> (r: bool)
        ensures
            r == self.lines(file) is Some,
    {
        match file {
            PiholeFile::Whitelist => self.whitelist.is_some(),
            PiholeFile::Blacklist => self.blacklist.is_some(),
            PiholeFile::Regexlist => self.regexlist.is_some(),
            PiholeFile::SetupVars => self.setup_vars.is_some(),
            PiholeFile::FtlConfig => self.ftl_config.is_some(),
        }
    }

    /// Read the lines of a file. A file that does not exist cannot be read.
    pub fn read_file_lines(&self, file: PiholeFile) -> (r: Result<&Vec<String>, Error>)
        ensures
            match self.stored(file) {
                Some(lines) => r matches Ok(l) && *l == lines,
                None => r matches Err(e) && e.spec_kind() == ErrorKind::FileRead,
            },
    {
        let stored = match file {
            PiholeFile::Whitelist => &self.whitelist,
            PiholeFile::Blacklist => &self.blacklist,
            PiholeFile::Regexlist => &self.regexlist,
            PiholeFile::SetupVars => &self.setup_vars,
            PiholeFile::FtlConfig => &self.ftl_config,
        };
        match stored {
            Some(lines) => Ok(lines),
            None => Err(Error::from(ErrorKind::FileRead)),
        }
    }

    /// Give a file new lines, and make it if it does not exist.
    pub fn write_file_lines(&mut self, file: PiholeFile, lines: Vec<String>)
        ensures
            final(self).stored(file) == Some(lines),
            final(self).same_but(old(self), file),
    {
        match file {
            PiholeFile::Whitelist => { self.whitelist = Some(lines); },
            PiholeFile::Blacklist => { self.blacklist = Some(lines); },
            PiholeFile::Regexlist => { self.regexlist = Some(lines); },
            PiholeFile::SetupVars => { self.setup_vars = Some(lines); },
            PiholeFile::FtlConfig => { self.ftl_config = Some(lines); },
        }
    }

    /// Take the lines of a file out of the environment; the file is gone afterwards.
    pub fn take_file_lines(&mut self, file: PiholeFile) -> (lines: Option<Vec<String>>)
        ensures
            lines == old(self).stored(file),
            final(self).stored(file) is None,
            final(self).same_but(old(self), file),
    {
        match file {
            PiholeFile::Whitelist => self.whitelist.take(),
            PiholeFile::Blacklist => self.blacklist.take(),
            PiholeFile::Regexlist => self.regexlist.take(),
            PiholeFile::SetupVars => self.setup_vars.take(),
            PiholeFile::FtlConfig => self.ftl_config.take(),
        }
    }

    /// The environment with `content` as the content of `file`.
    pub fn file(self, file: PiholeFile, content: &str) -> (env: Env)
        ensures
            env.lines(file) == Some(lines_of(content@)),
            env.same_but(&self, file),
    {
        let mut env = self;
        env.write_file_lines(file, split_lines(content));
        env
    }
}

} // verus!

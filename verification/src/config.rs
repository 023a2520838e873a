//! The proxy's configuration: forwarding rules, the credentials endpoint, and
//! the rules a configuration has to meet before it is served.

use crate::text::str_eq;
use vstd::prelude::*;
use vstd::string::*;

verus! {

/// One forwarding rule: requests whose path starts with `source_path` go to
/// `host`, with `dest_path` in place of that prefix.
#[derive(Debug, PartialEq, Eq)]
pub struct ProxyTarget {
    pub host: String,
    pub secure: bool,
    pub source_path: String,
    pub dest_path: String,
    pub use_auth: bool,
    pub ignore_errors: bool,
}

/// The endpoint that issues credentials for the rules that ask for them.
#[derive(Debug, PartialEq, Eq)]
pub struct ProxyAuth {
    pub host: String,
    pub secure: bool,
    pub path: String,
    pub request_headers: Vec<String>,
    pub response_headers: Vec<String>,
    pub method: String,
}

/// The whole configuration. The order of `targets` is their priority.
#[derive(Debug, PartialEq, Eq)]
pub struct Config {
    pub targets: Vec<ProxyTarget>,
    pub auth: Option<ProxyAuth>,
    pub cors: bool,
    pub port: u16,
}

/// What the command line gives: the location of the configuration file.
#[derive(Debug, PartialEq, Eq)]
pub struct Args {
    pub config: String,
}

/// The mathematical content of a [`ProxyTarget`].
pub struct ProxyTargetView {
    pub host: Seq<char>,
    pub secure: bool,
    pub source_path: Seq<char>,
    pub dest_path: Seq<char>,
    pub use_auth: bool,
    pub ignore_errors: bool,
}

/// The mathematical content of a [`ProxyAuth`].
pub struct ProxyAuthView {
    pub host: Seq<char>,
    pub secure: bool,
    pub path: Seq<char>,
    pub request_headers: Seq<Seq<char>>,
    pub response_headers: Seq<Seq<char>>,
    pub method: Seq<char>,
}

/// The mathematical content of a [`Config`].
pub struct ConfigView {
    pub targets: Seq<ProxyTargetView>,
    pub auth: Option<ProxyAuthView>,
    pub cors: bool,
    pub port: u16,
}

impl DeepView for ProxyTarget {
    type V = ProxyTargetView;

    open spec fn deep_view(&self) -> ProxyTargetView {
        ProxyTargetView {
            host: self.host@,
            secure: self.secure,
            source_path: self.source_path@,
            dest_path: self.dest_path@,
            use_auth: self.use_auth,
            ignore_errors: self.ignore_errors,
        }
    }
}

impl View for ProxyTarget {
    type V = ProxyTargetView;

    open spec fn view(&self) -> ProxyTargetView {
        self.deep_view()
    }
}

impl DeepView for ProxyAuth {
    type V = ProxyAuthView;

    open spec fn deep_view(&self) -> ProxyAuthView {
        ProxyAuthView {
            host: self.host@,
            secure: self.secure,
            path: self.path@,
            request_headers: self.request_headers.deep_view(),
            response_headers: self.response_headers.deep_view(),
            method: self.method@,
        }
    }
}

impl View for ProxyAuth {
    type V = ProxyAuthView;

    open spec fn view(&self) -> ProxyAuthView {
        self.deep_view()
    }
}

impl DeepView for Config {
    type V = ConfigView;

    open spec fn deep_view(&self) -> ConfigView {
        ConfigView {
            targets: self.targets.deep_view(),
            auth: self.auth.deep_view(),
            cors: self.cors,
            port: self.port,
        }
    }
}

impl View for Config {
    type V = ConfigView;

    open spec fn view(&self) -> ConfigView {
        self.deep_view()
    }
}

impl Clone for ProxyTarget {
    fn clone(&self) -> (copy: Self)
        ensures
            copy@ == self@,
    {
        ProxyTarget {
            host: self.host.clone(),
            secure: self.secure,
            source_path: self.source_path.clone(),
            dest_path: self.dest_path.clone(),
            use_auth: self.use_auth,
            ignore_errors: self.ignore_errors,
        }
    }
}

impl Clone for ProxyAuth {
    fn clone(&self) -> (copy: Self)
        ensures
            copy@ == self@,
    {
        let request_headers = self.request_headers.clone();
        let response_headers = self.response_headers.clone();
        assert(request_headers.deep_view() =~= self.request_headers.deep_view());
        assert(response_headers.deep_view() =~= self.response_headers.deep_view());
        ProxyAuth {
            host: self.host.clone(),
            secure: self.secure,
            path: self.path.clone(),
            request_headers,
            response_headers,
            method: self.method.clone(),
        }
    }
}

impl Clone for Config {
    fn clone(&self) -> (copy: Self)
        ensures
            copy@ == self@,
    {
        let targets = self.targets.clone();
        assert(targets.deep_view() =~= self.targets.deep_view());
        let auth = match &self.auth {
            Some(auth) => Some(auth.clone()),
            None => None,
        };
        Config { targets, auth, cors: self.cors, port: self.port }
    }
}

impl Clone for Args {
    fn clone(&self) -> (copy: Self)
        ensures
            copy.config@ == self.config@,
    {
        Args { config: self.config.clone() }
    }
}

/// A path is absolute when it starts with a slash.
pub open spec fn is_absolute(path: Seq<char>) -> bool {
    path.len() > 0 && path[0] == '/'
}

/// The methods by which credentials may be asked for.
pub open spec fn is_auth_method(method: Seq<char>) -> bool {
    method == "GET"@ || method == "POST"@ || method == "HEAD"@ || method == "PUT"@
}

impl ProxyTargetView {
    /// The rule names a host, and both of its prefixes are absolute paths.
    pub open spec fn valid(self) -> bool {
        &&& self.host.len() > 0
        &&& is_absolute(self.source_path)
        &&& is_absolute(self.dest_path)
    }

    /// What is wrong with the rule, if anything: the first complaint in the
    /// order host, source prefix, destination prefix.
    pub open spec fn problem(self) -> Option<Seq<char>> {
        if self.host.len() == 0 {
            Some("Proxy target host is required."@)
        } else if self.source_path.len() == 0 {
            Some("Proxy target source path is required."@)
        } else if self.source_path[0] != '/' {
            Some("Proxy target source path is invalid."@)
        } else if self.dest_path.len() == 0 {
            Some("Proxy target destination path is required."@)
        } else if self.dest_path[0] != '/' {
            Some("Proxy target destination path is invalid."@)
        } else {
            None
        }
    }
}

impl ProxyAuthView {
    /// The endpoint names a host, an absolute path and an accepted method, and
    /// at least one header to take from its answers.
    pub open spec fn valid(self) -> bool {
        &&& self.host.len() > 0
        &&& is_absolute(self.path)
        &&& self.response_headers.len() > 0
        &&& is_auth_method(self.method)
    }

    /// What is wrong with the endpoint, if anything: the first complaint in
    /// the order host, path, response headers, method.
    pub open spec fn problem(self) -> Option<Seq<char>> {
        if self.host.len() == 0 {
            Some("Proxy auth host is required."@)
        } else if self.path.len() == 0 {
            Some("Proxy auth path is required."@)
        } else if self.path[0] != '/' {
            Some("Proxy auth path is invalid."@)
        } else if self.response_headers.len() == 0 {
            Some("Proxy auth response headers is required."@)
        } else if self.method.len() == 0 {
            Some("Proxy auth method is required."@)
        } else if !is_auth_method(self.method) {
            Some("Proxy auth method must be one of the following: GET, POST, HEAD, PUT"@)
        } else {
            None
        }
    }
}

/// The rule at `i` is the first one with a problem.
pub open spec fn is_first_invalid(targets: Seq<ProxyTargetView>, i: int) -> bool {
    &&& 0 <= i < targets.len()
    &&& !targets[i].valid()
    &&& forall|j: int| 0 <= j < i ==> (#[trigger] targets[j]).valid()
}

impl ConfigView {
    /// Some rule asks for credentials.
    pub open spec fn asks_for_auth(self) -> bool {
        exists|i: int| 0 <= i < self.targets.len() && (#[trigger] self.targets[i]).use_auth
    }

    /// Every rule is valid, and so is the credentials endpoint if there is
    /// one; and there is one if any rule asks for credentials.
    pub open spec fn valid(self) -> bool {
        &&& forall|i: int| 0 <= i < self.targets.len() ==> (#[trigger] self.targets[i]).valid()
        &&& self.auth matches Some(auth) ==> auth.valid()
        &&& self.asks_for_auth() ==> self.auth is Some
    }

    /// What is wrong with the configuration, if anything: the problem of the
    /// first invalid rule; else that of the credentials endpoint, or that
    /// there is none while a rule asks for credentials.
    pub open spec fn problem(self) -> Option<Seq<char>> {
        if exists|i: int| is_first_invalid(self.targets, i) {
            self.targets[choose|i: int| is_first_invalid(self.targets, i)].problem()
        } else {
            match self.auth {
                Some(auth) => auth.problem(),
                None => if self.asks_for_auth() {
                    Some("Proxy auth is required."@)
                } else {
                    None
                },
            }
        }
    }
}

/// A rule has a problem exactly when it is not valid.
pub proof fn target_problem_iff_invalid(target: ProxyTargetView)
    ensures
        target.problem() is None <==> target.valid(),
{
}

/// A credentials endpoint has a problem exactly when it is not valid.
pub proof fn auth_problem_iff_invalid(auth: ProxyAuthView)
    ensures
        auth.problem() is None <==> auth.valid(),
{
    reveal_strlit("GET");
    reveal_strlit("POST");
    reveal_strlit("HEAD");
    reveal_strlit("PUT");
}

/// A configuration has a problem exactly when it is not valid.
pub proof fn config_problem_iff_invalid(config: ConfigView)
    ensures
        config.problem() is None <==> config.valid(),
{
    if exists|i: int| is_first_invalid(config.targets, i) {
        let i = choose|i: int| is_first_invalid(config.targets, i);
        target_problem_iff_invalid(config.targets[i]);
    } else {
        if exists|i: int| 0 <= i < config.targets.len() && !(#[trigger] config.targets[i]).valid() {
            let k = choose|i: int|
                0 <= i < config.targets.len() && !(#[trigger] config.targets[i]).valid();
            first_invalid_exists(config.targets, k);
        }
        if let Some(auth) = config.auth {
            auth_problem_iff_invalid(auth);
        }
    }
}

proof fn first_invalid_exists(targets: Seq<ProxyTargetView>, k: int)
    requires
        0 <= k < targets.len(),
        !targets[k].valid(),
    ensures
        exists|i: int| is_first_invalid(targets, i),
    decreases k,
{
    if forall|j: int| 0 <= j < k ==> (#[trigger] targets[j]).valid() {
        assert(is_first_invalid(targets, k));
    } else {
        let j = choose|j: int| 0 <= j < k && !(#[trigger] targets[j]).valid();
        first_invalid_exists(targets, j);
    }
}

fn starts_with_slash(path: &str) -> (r: bool)
    requires
        path@.len() > 0,
    ensures
        r == (path@[0] == '/'),
{
    path.get_char(0) == '/'
}

impl ProxyTarget {
    /// Says what is wrong with the rule, if anything is.
    pub fn validate(&self) -> (r: Result<(), &'static str>)
        ensures
            match r {
                Ok(_) => self@.problem() is None,
                Err(message) => self@.problem() == Some(message@),
            },
    {
        if self.host.as_str().is_empty() {
            return Err("Proxy target host is required.");
        }
        if self.source_path.as_str().is_empty() {
            return Err("Proxy target source path is required.");
        }
        if !starts_with_slash(self.source_path.as_str()) {
            return Err("Proxy target source path is invalid.");
        }
        if self.dest_path.as_str().is_empty() {
            return Err("Proxy target destination path is required.");
        }
        if !starts_with_slash(self.dest_path.as_str()) {
            return Err("Proxy target destination path is invalid.");
        }
        Ok(())
    }
}

impl ProxyAuth {
    /// Says what is wrong with the credentials endpoint, if anything is.
    pub fn validate(&self) -> (r: Result<(), &'static str>)
        ensures
            match r {
                Ok(_) => self@.problem() is None,
                Err(message) => self@.problem() == Some(message@),
            },
    {
        if self.host.as_str().is_empty() {
            return Err("Proxy auth host is required.");
        }
        if self.path.as_str().is_empty() {
            return Err("Proxy auth path is required.");
        }
        if !starts_with_slash(self.path.as_str()) {
            return Err("Proxy auth path is invalid.");
        }
        if self.response_headers.len() == 0 {
            return Err("Proxy auth response headers is required.");
        }
        let method = self.method.as_str();
        if method.is_empty() {
            return Err("Proxy auth method is required.");
        }
        if !(str_eq(method, "GET") || str_eq(method, "POST") || str_eq(method, "HEAD") || str_eq(
            method,
            "PUT",
        )) {
            return Err("Proxy auth method must be one of the following: GET, POST, HEAD, PUT");
        }
        Ok(())
    }
}

impl Config {
    /// Accepts a configuration that was read and parsed, or says what is wrong
    /// with it: the problem of the first invalid rule; else that of the
    /// credentials endpoint, or that there is none while a rule asks for
    /// credentials.
    pub fn build(config: Config) -> (r: Result<Config, &'static str>)
        ensures
            match r {
                Ok(accepted) => accepted == config && config@.valid(),
                Err(message) => config@.problem() == Some(message@) && !config@.valid(),
            },
    {
        let mut asks_for_auth = false;
        let mut i: usize = 0;
        while i < config.targets.len()
            invariant
                i <= config.targets.len(),
                forall|j: int| 0 <= j < i ==> (#[trigger] config@.targets[j]).valid(),
                asks_for_auth <==> exists|j: int|
                    0 <= j < i && (#[trigger] config@.targets[j]).use_auth,
            decreases config.targets.len() - i,
        {
            proof {
                target_problem_iff_invalid(config@.targets[i as int]);
            }
            match config.targets[i].validate() {
                Ok(_) => {},
                Err(message) => {
                    proof {
                        assert(is_first_invalid(config@.targets, i as int));
                        let k = choose|k: int| is_first_invalid(config@.targets, k);
                        if k < i {
                            assert(config@.targets[k].valid());
                        }
                        if i < k {
                            assert(config@.targets[i as int].valid());
                        }
                        config_problem_iff_invalid(config@);
                    }
                    return Err(message);
                },
            }
            if config.targets[i].use_auth {
                asks_for_auth = true;
            }
            i += 1;
        }
        proof {
            if exists|k: int| is_first_invalid(config@.targets, k) {
                let k = choose|k: int| is_first_invalid(config@.targets, k);
                assert(config@.targets[k].valid());
            }
            config_problem_iff_invalid(config@);
        }
        match &config.auth {
            Some(auth) => match auth.validate() {
                Ok(_) => {},
                Err(message) => {
                    return Err(message);
                },
            },
            None => {
                if asks_for_auth {
                    return Err("Proxy auth is required.");
                }
            },
        }
        Ok(config)
    }
}

} // verus!

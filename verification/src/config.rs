//! Credential resolution: a profile from the config file, overridden field
//! by field by `NCHEAP_*` environment variables.
use vstd::prelude::*;

use crate::text::{
    ascii_lowercase, concat3, join, lower, owned, str_eq,
};

verus! {

/// API key wrapper: its contents leave only through `expose`, and its
/// debug representation is a fixed placeholder.
pub struct Secret(String);

impl View for Secret {
    type V = Seq<char>;

    closed spec fn view(&self) -> Seq<char> {
        self.0@
    }
}

impl Secret {
    pub fn new(value: String) -> (s: Secret)
        ensures
            s@ == value@,
    {
        Secret(value)
    }

    pub fn expose(&self) -> (r: &str)
        ensures
            r@ == self@,
    {
        self.0.as_str()
    }

    /// What `{:?}` shows for a secret: never its contents.
    pub fn debug_repr(&self) -> (r: String)
        ensures
            r@ == "<redacted>"@,
    {
        owned("<redacted>")
    }

    /// A second secret with the same contents.
    pub fn duplicate(&self) -> (r: Secret)
        ensures
            r@ == self@,
    {
        Secret(self.0.clone())
    }
}

/// Why a profile could not be resolved. Paths and the underlying I/O or
/// TOML errors are carried as their display text.
#[derive(Debug)]
pub enum ConfigError {
    Permissions(String),
    Read { path: String, source: String },
    Parse { path: String, source: String },
    UnknownProfile(String),
    Missing(String),
    Invalid(String),
}

pub open spec fn config_error_message(e: ConfigError) -> Seq<char> {
    match e {
        ConfigError::Permissions(p) => "config file "@ + p@
            + " is readable by group/other; run: chmod 600 "@ + p@,
        ConfigError::Read { path, source } => "cannot read config file "@ + path@ + ": "@
            + source@,
        ConfigError::Parse { path, source } => "invalid TOML in "@ + path@ + ": "@ + source@,
        ConfigError::UnknownProfile(n) => "profile \""@ + n@ + "\" not found in config file"@,
        ConfigError::Missing(m) => "missing credentials: "@ + m@
            + "; set them in ~/.config/ncheap/config.toml or via NCHEAP_* environment variables"@,
        ConfigError::Invalid(v) => "invalid value for "@ + v@ + " (expected true or false)"@,
    }
}

/// The config file holds the API key, so it is refused when its mode
/// grants any access to group or other (`mode & 0o077`, as `chmod 600`
/// clears); `path` is how the file is named in the refusal.
pub fn check_config_mode(path: &str, mode: u32) -> (r: Result<(), ConfigError>)
    ensures
        (r is Err) <==> (mode & 0o077u32 != 0),
        r matches Err(e) ==> (e matches ConfigError::Permissions(p) && p@ == path@),
{
    if mode & 0o077u32 != 0 {
        Err(ConfigError::Permissions(owned(path)))
    } else {
        Ok(())
    }
}

impl ConfigError {
    /// The error's display text.
    pub fn message(&self) -> (m: String)
        ensures
            m@ == config_error_message(*self),
    {
        match self {
            ConfigError::Permissions(p) => {
                let mut m = concat3("config file ", p.as_str(), " is readable by group/other; run: chmod 600 ");
                m.push_str(p.as_str());
                m
            },
            ConfigError::Read { path, source } => {
                let mut m = concat3("cannot read config file ", path.as_str(), ": ");
                m.push_str(source.as_str());
                m
            },
            ConfigError::Parse { path, source } => {
                let mut m = concat3("invalid TOML in ", path.as_str(), ": ");
                m.push_str(source.as_str());
                m
            },
            ConfigError::UnknownProfile(n) => concat3(
                "profile \"",
                n.as_str(),
                "\" not found in config file",
            ),
            ConfigError::Missing(m) => concat3(
                "missing credentials: ",
                m.as_str(),
                "; set them in ~/.config/ncheap/config.toml or via NCHEAP_* environment variables",
            ),
            ConfigError::Invalid(v) => concat3(
                "invalid value for ",
                v.as_str(),
                " (expected true or false)",
            ),
        }
    }
}

/// One `[profile.NAME]` table of the config file.
pub struct ProfileFile {
    pub api_user: Option<String>,
    pub api_key: Option<Secret>,
    pub username: Option<String>,
    pub client_ip: Option<String>,
    pub sandbox: Option<bool>,
    /// Config-file only: the environment cannot arm production mutations.
    pub allow_production_mutations: Option<bool>,
}

/// The parsed config file: the default profile name and the profile
/// tables, each under its name.
pub struct ConfigFile {
    pub default_profile: Option<String>,
    pub profile: Vec<(String, ProfileFile)>,
}

impl ConfigFile {
    /// No profile name occurs twice: the file's profile tables are keyed
    /// by name.
    pub open spec fn wf(&self) -> bool {
        forall|i: int, j: int|
            0 <= i < j < self.profile@.len() ==> (#[trigger] self.profile@[i]).0@ != (
            #[trigger] self.profile@[j]).0@
    }
}

/// Fully resolved credentials for one environment.
pub struct Profile {
    pub name: String,
    pub api_user: String,
    pub api_key: Secret,
    pub username: String,
    pub client_ip: String,
    pub sandbox: bool,
    pub allow_production_mutations: bool,
}

pub open spec fn production_endpoint() -> Seq<char> {
    "https://api.namecheap.com/xml.response"@
}

pub open spec fn sandbox_endpoint() -> Seq<char> {
    "https://api.sandbox.namecheap.com/xml.response"@
}

/// The API endpoint a profile talks to: the sandbox host for sandbox
/// profiles, production otherwise.
pub open spec fn endpoint_of(p: Profile) -> Seq<char> {
    if p.sandbox {
        sandbox_endpoint()
    } else {
        production_endpoint()
    }
}

impl Profile {
    pub fn endpoint(&self) -> (r: &'static str)
        ensures
            r@ == endpoint_of(*self),
    {
        if self.sandbox {
            "https://api.sandbox.namecheap.com/xml.response"
        } else {
            "https://api.namecheap.com/xml.response"
        }
    }

    /// A copy of the profile, field for field.
    pub fn duplicate(&self) -> (r: Profile)
        ensures
            r.name@ == self.name@,
            r.api_user@ == self.api_user@,
            r.api_key@ == self.api_key@,
            r.username@ == self.username@,
            r.client_ip@ == self.client_ip@,
            r.sandbox == self.sandbox,
            r.allow_production_mutations == self.allow_production_mutations,
    {
        Profile {
            name: self.name.clone(),
            api_user: self.api_user.clone(),
            api_key: self.api_key.duplicate(),
            username: self.username.clone(),
            client_ip: self.client_ip.clone(),
            sandbox: self.sandbox,
            allow_production_mutations: self.allow_production_mutations,
        }
    }
}

// ---------------------------------------------------------------------------
// Resolution spec
// ---------------------------------------------------------------------------

/// The value of the first environment entry named `key`.
pub open spec fn env_var(env: Seq<(String, String)>, key: Seq<char>) -> Option<Seq<char>>
    decreases env.len(),
{
    if env.len() == 0 {
        None
    } else if env[0].0@ == key {
        Some(env[0].1@)
    } else {
        env_var(env.skip(1), key)
    }
}

/// `true`/`1` and `false`/`0`, in any ASCII case.
pub open spec fn parse_bool_spec(s: Seq<char>) -> Option<bool> {
    if lower(s) == "true"@ || lower(s) == "1"@ {
        Some(true)
    } else if lower(s) == "false"@ || lower(s) == "0"@ {
        Some(false)
    } else {
        None
    }
}

pub open spec fn opt_view(o: Option<String>) -> Option<Seq<char>> {
    match o {
        Some(s) => Some(s@),
        None => None,
    }
}

pub open spec fn or_else<A>(a: Option<A>, b: Option<A>) -> Option<A> {
    match a {
        Some(x) => Some(x),
        None => b,
    }
}

/// The profile name: `--profile`, else `NCHEAP_PROFILE`, else the file's
/// `default_profile`, else `production`.
pub open spec fn profile_name(
    file: Option<ConfigFile>,
    flag: Option<Seq<char>>,
    env: Seq<(String, String)>,
) -> Seq<char> {
    let default_profile = match file {
        Some(f) => opt_view(f.default_profile),
        None => None,
    };
    match or_else(flag, or_else(env_var(env, "NCHEAP_PROFILE"@), default_profile)) {
        Some(n) => n,
        None => "production"@,
    }
}

/// Whether some source named a profile explicitly.
pub open spec fn profile_explicit(
    file: Option<ConfigFile>,
    flag: Option<Seq<char>>,
    env: Seq<(String, String)>,
) -> bool {
    flag is Some || env_var(env, "NCHEAP_PROFILE"@) is Some || (file matches Some(f)
        && f.default_profile is Some)
}

/// Index of the first profile table named `name`.
pub open spec fn profile_index(profiles: Seq<(String, ProfileFile)>, name: Seq<char>) -> Option<
    int,
> {
    if exists|i: int| 0 <= i < profiles.len() && (#[trigger] profiles[i]).0@ == name {
        let i = choose|i: int|
            0 <= i < profiles.len() && (#[trigger] profiles[i]).0@ == name && forall|j: int|
                0 <= j < i ==> (#[trigger] profiles[j]).0@ != name;
        Some(i)
    } else {
        None
    }
}

pub open spec fn file_profiles(file: Option<ConfigFile>) -> Seq<(String, ProfileFile)> {
    match file {
        Some(f) => f.profile@,
        None => seq![],
    }
}

/// The selected profile table, if the file has one under that name.
pub open spec fn base_profile(
    file: Option<ConfigFile>,
    flag: Option<Seq<char>>,
    env: Seq<(String, String)>,
) -> Option<ProfileFile> {
    let profiles = file_profiles(file);
    match profile_index(profiles, profile_name(file, flag, env)) {
        Some(i) => Some(profiles[i].1),
        None => None,
    }
}

/// The labels of the required fields that no source supplied, in order.
pub open spec fn missing_labels(api_user: bool, api_key: bool, client_ip: bool) -> Seq<Seq<char>> {
    (if api_user { seq!["api_user (NCHEAP_API_USER)"@] } else { seq![] })
        + (if api_key { seq!["api_key (NCHEAP_API_KEY)"@] } else { seq![] })
        + (if client_ip { seq!["client_ip (NCHEAP_CLIENT_IP)"@] } else { seq![] })
}

pub open spec fn base_api_user(b: Option<ProfileFile>) -> Option<Seq<char>> {
    match b { Some(p) => opt_view(p.api_user), None => None }
}

pub open spec fn base_username(b: Option<ProfileFile>) -> Option<Seq<char>> {
    match b { Some(p) => opt_view(p.username), None => None }
}

pub open spec fn base_client_ip(b: Option<ProfileFile>) -> Option<Seq<char>> {
    match b { Some(p) => opt_view(p.client_ip), None => None }
}

pub open spec fn base_api_key(b: Option<ProfileFile>) -> Option<Seq<char>> {
    match b {
        Some(p) => match p.api_key { Some(k) => Some(k@), None => None },
        None => None,
    }
}

pub open spec fn base_sandbox(b: Option<ProfileFile>) -> bool {
    match b {
        Some(p) => match p.sandbox { Some(v) => v, None => false },
        None => false,
    }
}

pub open spec fn base_allow_production_mutations(b: Option<ProfileFile>) -> bool {
    match b {
        Some(p) => match p.allow_production_mutations { Some(v) => v, None => false },
        None => false,
    }
}

/// The complete outcome of `resolve`: which error, or which profile.
pub open spec fn resolves(
    file: Option<ConfigFile>,
    flag: Option<Seq<char>>,
    env: Seq<(String, String)>,
    r: Result<Profile, ConfigError>,
) -> bool {
    let name = profile_name(file, flag, env);
    let base = base_profile(file, flag, env);
    let unknown = base is None && profile_explicit(file, flag, env) && file_profiles(file).len() > 0;
    let sandbox_env = env_var(env, "NCHEAP_SANDBOX"@);
    let sandbox_invalid = sandbox_env matches Some(v) && parse_bool_spec(v) is None;
    let sandbox = match sandbox_env {
        Some(v) => parse_bool_spec(v) == Some(true),
        None => base_sandbox(base),
    };
    let api_user = or_else(env_var(env, "NCHEAP_API_USER"@), base_api_user(base));
    let api_key = or_else(env_var(env, "NCHEAP_API_KEY"@), base_api_key(base));
    let client_ip = or_else(env_var(env, "NCHEAP_CLIENT_IP"@), base_client_ip(base));
    let username = or_else(env_var(env, "NCHEAP_USERNAME"@), base_username(base));
    let labels = missing_labels(api_user is None, api_key is None, client_ip is None);
    if unknown {
        r matches Err(ConfigError::UnknownProfile(n)) && n@ == name
    } else if sandbox_invalid {
        r matches Err(ConfigError::Invalid(v)) && v@ == "NCHEAP_SANDBOX"@
    } else if labels.len() > 0 {
        r matches Err(ConfigError::Missing(m)) && m@ == join(labels, ", "@)
    } else {
        &&& r matches Ok(p)
        &&& p.name@ == name
        &&& Some(p.api_user@) == api_user
        &&& Some(p.api_key@) == api_key
        &&& Some(p.client_ip@) == client_ip
        &&& p.username@ == match username { Some(u) => u, None => p.api_user@ }
        &&& p.sandbox == sandbox
        &&& p.allow_production_mutations == base_allow_production_mutations(base)
    }
}

/// Environment variables override the config file: whatever the file
/// says, a resolved profile carries each credential the environment sets.
pub proof fn environment_overrides_file(
    file: Option<ConfigFile>,
    flag: Option<Seq<char>>,
    env: Seq<(String, String)>,
    p: Profile,
)
    requires
        resolves(file, flag, env, Ok(p)),
    ensures
        env_var(env, "NCHEAP_API_USER"@) matches Some(u) ==> p.api_user@ == u,
        env_var(env, "NCHEAP_API_KEY"@) matches Some(k) ==> p.api_key@ == k,
        env_var(env, "NCHEAP_CLIENT_IP"@) matches Some(ip) ==> p.client_ip@ == ip,
        env_var(env, "NCHEAP_USERNAME"@) matches Some(u) ==> p.username@ == u,
        env_var(env, "NCHEAP_SANDBOX"@) matches Some(v) ==> p.sandbox == (parse_bool_spec(v)
            == Some(true)),
{
}

/// The environment cannot arm production mutations: a resolved profile
/// permits them only when the config file's table of that very profile
/// sets `allow_production_mutations = true`.
pub proof fn only_the_file_arms_mutations(
    file: Option<ConfigFile>,
    flag: Option<Seq<char>>,
    env: Seq<(String, String)>,
    p: Profile,
)
    requires
        resolves(file, flag, env, Ok(p)),
        p.allow_production_mutations,
    ensures
        exists|i: int|
            0 <= i < file_profiles(file).len() && (#[trigger] file_profiles(file)[i]).0@ == p.name@
                && file_profiles(file)[i].1.allow_production_mutations == Some(true),
{
    let profiles = file_profiles(file);
    let name = profile_name(file, flag, env);
    let k = choose|k: int| 0 <= k < profiles.len() && (#[trigger] profiles[k]).0@ == name;
    lemma_first_match(profiles, name, k);
    let i = profile_index(profiles, name)->0;
    assert(profiles[i].0@ == name);
}

/// A table named `name` at `k` means there is a first one.
proof fn lemma_first_match(profiles: Seq<(String, ProfileFile)>, name: Seq<char>, k: int)
    requires
        0 <= k < profiles.len(),
        profiles[k].0@ == name,
    ensures
        exists|i: int|
            0 <= i < profiles.len() && (#[trigger] profiles[i]).0@ == name && forall|j: int|
                0 <= j < i ==> (#[trigger] profiles[j]).0@ != name,
    decreases k,
{
    if exists|j: int| 0 <= j < k && (#[trigger] profiles[j]).0@ == name {
        let j = choose|j: int| 0 <= j < k && (#[trigger] profiles[j]).0@ == name;
        lemma_first_match(profiles, name, j);
    } else {
        assert(forall|j: int| 0 <= j < k ==> (#[trigger] profiles[j]).0@ != name);
    }
}

/// In a file whose profile names are distinct, the table selected under a
/// name is the one table with that name.
pub proof fn profile_lookup_is_unique(file: ConfigFile, name: Seq<char>, k: int)
    requires
        file.wf(),
        0 <= k < file.profile@.len(),
        file.profile@[k].0@ == name,
    ensures
        profile_index(file.profile@, name) == Some(k),
{
    let profiles = file.profile@;
    lemma_first_match(profiles, name, k);
    let i = profile_index(profiles, name)->0;
    assert(profiles[i].0@ == name);
    if i < k {
        assert(profiles[i].0@ != profiles[k].0@);
    }
    if k < i {
        assert(profiles[k].0@ != name);
    }
}

/// `true`/`1` and `false`/`0`, in any ASCII case.
pub fn parse_bool(v: &str) -> (r: Option<bool>)
    ensures
        r == parse_bool_spec(v@),
{
    let l = ascii_lowercase(v);
    if str_eq(l.as_str(), "true") || str_eq(l.as_str(), "1") {
        Some(true)
    } else if str_eq(l.as_str(), "false") || str_eq(l.as_str(), "0") {
        Some(false)
    } else {
        None
    }
}

/// The value of the first environment entry named `key`.
pub fn env_lookup(env: &[(String, String)], key: &str) -> (r: Option<String>)
    ensures
        opt_view(r) == env_var(env@, key@),
{
    let mut i: usize = 0;
    assert(env@.skip(0) =~= env@);
    while i < env.len()
        invariant
            i <= env@.len(),
            env_var(env@, key@) == env_var(env@.skip(i as int), key@),
        decreases env@.len() - i,
    {
        let ghost rest = env@.skip(i as int);
        assert(rest[0] == env@[i as int]);
        if str_eq(env[i].0.as_str(), key) {
            return Some(env[i].1.clone());
        }
        assert(rest.skip(1) =~= env@.skip(i + 1));
        i = i + 1;
    }
    None
}

fn find_profile(profiles: &Vec<(String, ProfileFile)>, name: &str) -> (r: Option<usize>)
    ensures
        match r {
            Some(i) => i < profiles@.len() && profile_index(profiles@, name@) == Some(i as int),
            None => profile_index(profiles@, name@) is None,
        },
{
    let mut i: usize = 0;
    while i < profiles.len()
        invariant
            i <= profiles@.len(),
            forall|j: int| 0 <= j < i ==> (#[trigger] profiles@[j]).0@ != name@,
        decreases profiles@.len() - i,
    {
        if str_eq(profiles[i].0.as_str(), name) {
            let ghost k = choose|k: int|
                0 <= k < profiles@.len() && (#[trigger] profiles@[k]).0@ == name@ && forall|j: int|
                    0 <= j < k ==> (#[trigger] profiles@[j]).0@ != name@;
            assert(0 <= i < profiles@.len() && profiles@[i as int].0@ == name@);
            assert(k == i) by {
                if k < i {
                } else if k > i {
                    assert(profiles@[i as int].0@ != name@);
                }
            }
            return Some(i);
        }
        i = i + 1;
    }
    None
}

/// Precedence: environment variables over the selected profile of the
/// config file. Pure-environment operation (no file at all) is supported.
#[verifier::spinoff_prover]
#[verifier::rlimit(40)]
pub fn resolve(
    file: Option<ConfigFile>,
    profile_flag: Option<&str>,
    env: &[(String, String)],
) -> (r: Result<Profile, ConfigError>)
    ensures
        resolves(
            file,
            match profile_flag {
                Some(f) => Some(f@),
                None => None,
            },
            env@,
            r,
        ),
{
    let ghost flag = match profile_flag {
        Some(f) => Some(f@),
        None => None::<Seq<char>>,
    };
    let ghost file0 = file;
    let env_profile = env_lookup(env, "NCHEAP_PROFILE");
    let (default_profile, profiles) = match file {
        Some(f) => (f.default_profile, f.profile),
        None => (None, Vec::new()),
    };
    assert(profiles@ == file_profiles(file0));
    let explicit = profile_flag.is_some() || env_profile.is_some() || default_profile.is_some();
    let name: String = match profile_flag {
        Some(f) => owned(f),
        None => match env_profile {
            Some(p) => p,
            None => match &default_profile {
                Some(d) => d.clone(),
                None => owned("production"),
            },
        },
    };
    assert(name@ == profile_name(file0, flag, env@));
    let found = find_profile(&profiles, name.as_str());
    let base: Option<ProfileFile> = match found {
        Some(i) => {
            let mut ps = profiles;
            let (_, p) = ps.remove(i);
            Some(p)
        },
        None => {
            if explicit && profiles.len() > 0 {
                return Err(ConfigError::UnknownProfile(name));
            }
            None
        },
    };
    assert(base == base_profile(file0, flag, env@));
    let sandbox = match env_lookup(env, "NCHEAP_SANDBOX") {
        Some(v) => match parse_bool(v.as_str()) {
            Some(b) => b,
            None => {
                return Err(ConfigError::Invalid(owned("NCHEAP_SANDBOX")));
            },
        },
        None => match &base {
            Some(b) => match b.sandbox {
                Some(v) => v,
                None => false,
            },
            None => false,
        },
    };
    let allow_production_mutations = match &base {
        Some(b) => match b.allow_production_mutations {
            Some(v) => v,
            None => false,
        },
        None => false,
    };
    let (file_user, file_key, file_ip, file_username) = match base {
        Some(b) => (b.api_user, b.api_key, b.client_ip, b.username),
        None => (None, None, None, None),
    };
    let api_user = match env_lookup(env, "NCHEAP_API_USER") {
        Some(v) => Some(v),
        None => file_user,
    };
    let api_key = match env_lookup(env, "NCHEAP_API_KEY") {
        Some(v) => Some(Secret::new(v)),
        None => file_key,
    };
    let client_ip = match env_lookup(env, "NCHEAP_CLIENT_IP") {
        Some(v) => Some(v),
        None => file_ip,
    };
    let username = match env_lookup(env, "NCHEAP_USERNAME") {
        Some(v) => Some(v),
        None => file_username,
    };
    let mut missing: Vec<&str> = Vec::new();
    if api_user.is_none() {
        missing.push("api_user (NCHEAP_API_USER)");
    }
    if api_key.is_none() {
        missing.push("api_key (NCHEAP_API_KEY)");
    }
    if client_ip.is_none() {
        missing.push("client_ip (NCHEAP_CLIENT_IP)");
    }
    let ghost labels = missing_labels(api_user is None, api_key is None, client_ip is None);
    assert(missing@.map_values(|s: &str| s@) =~= labels);
    match (api_user, api_key, client_ip) {
        (Some(api_user), Some(api_key), Some(client_ip)) => {
            let username = match username {
                Some(u) => u,
                None => api_user.clone(),
            };
            Ok(Profile { name, api_user, api_key, username, client_ip, sandbox, allow_production_mutations })
        },
        _ => Err(ConfigError::Missing(join_strs(&missing, ", "))),
    }
}

/// `parts.join(sep)`.
pub fn join_strs(parts: &Vec<&str>, sep: &str) -> (r: String)
    ensures
        r@ == join(parts@.map_values(|s: &str| s@), sep@),
{
    let ghost views = parts@.map_values(|s: &str| s@);
    let mut r = String::new();
    let mut i: usize = 0;
    while i < parts.len()
        invariant
            i <= parts@.len(),
            views == parts@.map_values(|s: &str| s@),
            r@ == join(views.take(i as int), sep@),
        decreases parts@.len() - i,
    {
        if i > 0 {
            r.push_str(sep);
        }
        r.push_str(parts[i]);
        proof {
            let t = views.take(i + 1);
            assert(t.drop_last() =~= views.take(i as int));
            assert(t.last() == parts@[i as int]@);
            if i == 0 {
                assert(t =~= seq![parts@[0]@]);
            }
        }
        i = i + 1;
    }
    assert(views.take(parts@.len() as int) =~= views);
    r
}

} // verus!

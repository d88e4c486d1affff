use vstd::prelude::*;
use vstd::string::StringExecFns;
use crate::text::chars_of;

verus! {

/// Where the web server listens when the user config names no address.
pub fn serde_default_server_ip() -> (r: String)
    ensures
        r@ == "0.0.0.0"@,
{
    "0.0.0.0".to_string()
}

/// The port the web server listens on when the user config names none.
pub fn serde_default_server_port() -> (r: u16)
    ensures
        r == 3939,
{
    3939
}

/// Who may reach the settings pages when the user config says nothing.
pub fn default_settings_ip_whitelist() -> (r: Vec<String>)
    ensures
        r@.len() == 1,
        r@[0]@ == "localhost"@,
{
    let mut v: Vec<String> = Vec::new();
    v.push("localhost".to_string());
    v
}

/// Where the master config lives on Linux.
pub fn get_master_config_path() -> (r: String)
    ensures
        r@ == "/etc/DataRace/MasterConfig.toml"@,
{
    "/etc/DataRace/MasterConfig.toml".to_string()
}

/// The master config is trusted only when root (user and group 0) owns it
/// and all other users may only read it (the last octal digit of the mode
/// is 4).
pub fn validate_master_config_permissions(gid: u32, uid: u32, mode: u32) -> (r: bool)
    ensures
        r == (gid == 0 && uid == 0 && mode % 8 == 4),
{
    gid == 0 && uid == 0 && mode % 8 == 4
}

/// Copies a list of texts.
pub fn clone_strings(v: &Vec<String>) -> (r: Vec<String>)
    ensures
        r@ == v@,
{
    let mut r: Vec<String> = Vec::new();
    let mut i: usize = 0;
    while i < v.len()
        invariant
            i <= v.len(),
            r@ == v@.subrange(0, i as int),
        decreases v.len() - i,
    {
        r.push(v[i].clone());
        i = i + 1;
    }
    assert(r@ =~= v@);
    r
}

/// Appends a copy of `b` to `a`.
pub fn append_strings(a: &mut Vec<String>, b: &Vec<String>)
    ensures
        final(a)@ == old(a)@ + b@,
{
    let mut i: usize = 0;
    while i < b.len()
        invariant
            i <= b.len(),
            a@ == old(a)@ + b@.subrange(0, i as int),
        decreases b.len() - i,
    {
        a.push(b[i].clone());
        i = i + 1;
        assert(a@ =~= old(a)@ + b@.subrange(0, i as int));
    }
    assert(b@.subrange(0, b@.len() as int) =~= b@);
}

/// The defaults that depend on the operating system.
pub struct PlatformDefaults {
    pub dashboard_path: String,
    pub plugin_settings_path: String,
    pub master_plugin_locations: Vec<String>,
    pub user_plugin_locations: Vec<String>,
}

/// The master config, which only an administrator can write; it can force
/// settings on every user.
pub struct MasterConfig {
    pub disable_web_server: bool,
    pub web_ip_whitelist: Vec<String>,
    pub web_force_ip_whitelist: bool,
    pub web_settings_ip_whitelist: Vec<String>,
    pub web_force_settings_ip_whitelist: bool,
    pub disable_user_plugin_locations: bool,
    pub plugin_locations: Vec<String>,
}

/// A master config that forces nothing and names no plugin location.
pub open spec fn is_empty_master(c: MasterConfig) -> bool {
    &&& !c.disable_web_server
    &&& c.web_ip_whitelist@.len() == 0
    &&& !c.web_force_ip_whitelist
    &&& c.web_settings_ip_whitelist@.len() == 0
    &&& !c.web_force_settings_ip_whitelist
    &&& !c.disable_user_plugin_locations
    &&& c.plugin_locations@.len() == 0
}

impl Default for MasterConfig {
    fn default() -> (c: MasterConfig)
        ensures
            is_empty_master(c),
    {
        MasterConfig {
            disable_web_server: false,
            web_ip_whitelist: Vec::new(),
            web_force_ip_whitelist: false,
            web_settings_ip_whitelist: Vec::new(),
            web_force_settings_ip_whitelist: false,
            disable_user_plugin_locations: false,
            plugin_locations: Vec::new(),
        }
    }
}

/// The master config that is written out on request: nothing forced, the
/// settings pages open to `localhost`, the platform's plugin folders.
pub fn default_master_config(defaults: &PlatformDefaults) -> (c: MasterConfig)
    ensures
        !c.disable_web_server,
        !c.disable_user_plugin_locations,
        c.web_ip_whitelist@.len() == 0,
        !c.web_force_ip_whitelist,
        c.web_settings_ip_whitelist@.len() == 1,
        c.web_settings_ip_whitelist@[0]@ == "localhost"@,
        !c.web_force_settings_ip_whitelist,
        c.plugin_locations@ == defaults.master_plugin_locations@,
{
    MasterConfig {
        disable_web_server: false,
        disable_user_plugin_locations: false,
        web_ip_whitelist: Vec::new(),
        web_force_ip_whitelist: false,
        web_settings_ip_whitelist: default_settings_ip_whitelist(),
        web_force_settings_ip_whitelist: false,
        plugin_locations: clone_strings(&defaults.master_plugin_locations),
    }
}

/// The config of the user (Config.toml).
pub struct UserConfig {
    pub disable_web_server: bool,
    pub web_server_ip: String,
    pub web_server_port: u16,
    pub web_ip_whitelist: Vec<String>,
    pub web_settings_ip_whitelist: Vec<String>,
    pub plugin_locations: Vec<String>,
    pub dashboards_location: String,
    pub plugin_settings_location: String,
}

/// The user config that is written when none exists.
pub open spec fn is_default_user(c: UserConfig, defaults: PlatformDefaults) -> bool {
    &&& !c.disable_web_server
    &&& c.web_server_ip@ == "0.0.0.0"@
    &&& c.web_server_port == 3939
    &&& c.web_ip_whitelist@.len() == 0
    &&& c.web_settings_ip_whitelist@.len() == 1
    &&& c.web_settings_ip_whitelist@[0]@ == "localhost"@
    &&& c.plugin_locations@ == defaults.user_plugin_locations@
    &&& c.dashboards_location@ == defaults.dashboard_path@
    &&& c.plugin_settings_location@ == defaults.plugin_settings_path@
}

impl UserConfig {
    /// The user config that is written when none exists yet.
    pub fn with_defaults(defaults: &PlatformDefaults) -> (c: UserConfig)
        ensures
            is_default_user(c, *defaults),
    {
        UserConfig {
            disable_web_server: false,
            web_server_ip: serde_default_server_ip(),
            web_server_port: serde_default_server_port(),
            web_ip_whitelist: Vec::new(),
            web_settings_ip_whitelist: default_settings_ip_whitelist(),
            plugin_locations: clone_strings(&defaults.user_plugin_locations),
            dashboards_location: defaults.dashboard_path.clone(),
            plugin_settings_location: defaults.plugin_settings_path.clone(),
        }
    }
}

/// What the command line asks for.
pub struct InitConfig {
    pub dashboards_folder: Option<String>,
    pub plugin_settings_folder: Option<String>,
    pub local_dev: bool,
}

/// The merged configuration, before paths are resolved against the file
/// system. A whitelist of `None` means that the web server is off; the
/// folders are the ones to try first.
pub struct ConfigPlan {
    pub disable_web_server: bool,
    pub web_server_ip: String,
    pub web_server_port: u16,
    pub web_ip_whitelist: Option<Vec<String>>,
    pub web_settings_whitelist: Option<Vec<String>>,
    pub plugin_locations: Vec<String>,
    pub dashboards_location: String,
    pub plugin_settings_location: String,
}

/// A master config that could not be read stops the launch, except on debug
/// builds, which go on with an empty master config and note the error.
pub fn settle_master_config(read: Result<MasterConfig, String>, debug_build: bool) -> (r: Option<
    (MasterConfig, bool),
>)
    ensures
        read is Ok ==> r == Some((read->Ok_0, false)),
        read is Err && debug_build ==> r is Some && is_empty_master(r->Some_0.0) && r->Some_0.1,
        read is Err && !debug_build ==> r is None,
{
    match read {
        Ok(c) => Some((c, false)),
        Err(_) => {
            if debug_build {
                Some((MasterConfig::default(), true))
            } else {
                None
            }
        },
    }
}

/// The addresses a whitelist is built from: `Some(None)` when the web
/// server is off; the master list alone when the master config forces it
/// (no whitelist at all, `None`, when that list is empty); otherwise the
/// user list followed by the master list.
pub open spec fn spec_ip_whitelist(
    disable_web_server: bool,
    ip_list: Seq<String>,
    master_ip_list: Seq<String>,
    force_master_config: bool,
) -> Option<Option<Seq<String>>> {
    if disable_web_server {
        Some(None)
    } else if force_master_config {
        if master_ip_list.len() == 0 {
            None
        } else {
            Some(Some(master_ip_list))
        }
    } else {
        Some(Some(ip_list + master_ip_list))
    }
}

/// The view of an optional whitelist.
pub open spec fn opt_list_view(o: Option<Option<Vec<String>>>) -> Option<Option<Seq<String>>> {
    match o {
        None => None,
        Some(None) => Some(None),
        Some(Some(v)) => Some(Some(v@)),
    }
}

/// Decides which addresses a whitelist holds (see `spec_ip_whitelist`).
pub fn create_ip_matcher(
    disable_web_server: bool,
    ip_list: Vec<String>,
    master_ip_list: Vec<String>,
    force_master_config: bool,
) -> (r: Option<Option<Vec<String>>>)
    ensures
        opt_list_view(r) == spec_ip_whitelist(
            disable_web_server,
            ip_list@,
            master_ip_list@,
            force_master_config,
        ),
{
    if !disable_web_server {
        if force_master_config {
            if master_ip_list.len() == 0 {
                return None;
            }
            Some(Some(master_ip_list))
        } else {
            let mut list = ip_list;
            append_strings(&mut list, &master_ip_list);
            Some(Some(list))
        }
    } else {
        Some(None)
    }
}

/// The plugin locations: those of the master config, then those of the
/// user unless the master config disables them; a local development run
/// adds `./Plugins` and moves it to the front (the former first entry
/// takes its place at the end).
pub open spec fn spec_plugin_locations(
    master: Seq<String>,
    user: Seq<String>,
    disable_user: bool,
    local_dev: bool,
) -> Seq<Seq<char>> {
    let base = if disable_user {
        master
    } else {
        master + user
    };
    let texts = base.map_values(|s: String| s@);
    if local_dev {
        let pushed = texts.push("./Plugins"@);
        let last = pushed.len() - 1;
        pushed.update(0, pushed[last]).update(last, pushed[0])
    } else {
        texts
    }
}

/// The texts of a list of strings.
pub open spec fn texts_of(v: Seq<String>) -> Seq<Seq<char>> {
    v.map_values(|s: String| s@)
}

fn plugin_locations(master: &Vec<String>, user: &Vec<String>, disable_user: bool, local_dev: bool) -> (r:
    Vec<String>)
    ensures
        texts_of(r@) == spec_plugin_locations(master@, user@, disable_user, local_dev),
{
    let mut list = clone_strings(master);
    if !disable_user {
        append_strings(&mut list, user);
    }
    proof {
        let base = if disable_user {
            master@
        } else {
            master@ + user@
        };
        assert(list@ == base);
    }
    if local_dev {
        list.push("./Plugins".to_string());
        let last = list.len() - 1;
        let first = list[0].clone();
        let moved = list[last].clone();
        list.set(0, moved);
        list.set(last, first);
        proof {
            let base = if disable_user {
                master@
            } else {
                master@ + user@
            };
            let pushed = texts_of(base).push("./Plugins"@);
            assert(texts_of(list@) =~= pushed.update(0, pushed[last as int]).update(
                last as int,
                pushed[0],
            ));
        }
    }
    list
}

/// What the merged configuration holds, given the master config, the user
/// config (or the reason it could not be read) and the command line.
pub open spec fn plan_matches(
    p: ConfigPlan,
    master: MasterConfig,
    user: UserConfig,
    init: InitConfig,
    debug_build: bool,
) -> bool {
    let disable = master.disable_web_server || user.disable_web_server;
    &&& p.disable_web_server == disable
    &&& p.web_server_ip@ == user.web_server_ip@
    &&& p.web_server_port == user.web_server_port
    &&& Some(opt_vec_view(p.web_ip_whitelist)) == spec_ip_whitelist(
        disable,
        user.web_ip_whitelist@,
        master.web_ip_whitelist@,
        master.web_force_ip_whitelist,
    )
    &&& Some(opt_vec_view(p.web_settings_whitelist)) == spec_ip_whitelist(
        disable,
        user.web_settings_ip_whitelist@,
        master.web_settings_ip_whitelist@,
        master.web_force_settings_ip_whitelist,
    )
    &&& texts_of(p.plugin_locations@) == spec_plugin_locations(
        master.plugin_locations@,
        user.plugin_locations@,
        master.disable_user_plugin_locations,
        init.local_dev && debug_build,
    )
    &&& p.dashboards_location@ == (match init.dashboards_folder {
        Some(f) => f@,
        None => user.dashboards_location@,
    })
    &&& p.plugin_settings_location@ == (match init.plugin_settings_folder {
        Some(f) => f@,
        None => user.plugin_settings_location@,
    })
}

/// The view of an optional list.
pub open spec fn opt_vec_view(o: Option<Vec<String>>) -> Option<Seq<String>> {
    match o {
        None => None,
        Some(v) => Some(v@),
    }
}

/// A whitelist is refused exactly when it is forced by the master config
/// but empty while the web server is on.
pub open spec fn whitelist_refused(disable: bool, master_list: Seq<String>, force: bool) -> bool {
    !disable && force && master_list.len() == 0
}

/// The outcome of merging `master` with the user config `u` that was used:
/// `None` exactly when a forced whitelist is empty; otherwise the plan and
/// whether an error was noted.
pub open spec fn config_outcome(
    r: Option<(ConfigPlan, bool)>,
    master: MasterConfig,
    master_errors: bool,
    u: UserConfig,
    user_failed: bool,
    init: InitConfig,
    debug_build: bool,
) -> bool {
    let disable = master.disable_web_server || u.disable_web_server;
    &&& (r is None <==> (whitelist_refused(
        disable,
        master.web_ip_whitelist@,
        master.web_force_ip_whitelist,
    ) || whitelist_refused(
        disable,
        master.web_settings_ip_whitelist@,
        master.web_force_settings_ip_whitelist,
    )))
    &&& (r is Some ==> plan_matches(r->Some_0.0, master, u, init, debug_build))
    &&& (r is Some ==> r->Some_0.1 == (master_errors || user_failed))
}

/// Merges the master config with the user config (the default user config
/// when it could not be read, which is noted as an error) and the command
/// line. `None` when a forced whitelist is empty.
pub fn read_config(
    master: MasterConfig,
    master_errors: bool,
    user: Result<UserConfig, String>,
    init: InitConfig,
    debug_build: bool,
    defaults: &PlatformDefaults,
) -> (r: Option<(ConfigPlan, bool)>)
    ensures
        exists|u: UserConfig|
            {
                &&& (user is Ok ==> u == user->Ok_0)
                &&& (user is Err ==> is_default_user(u, *defaults))
                &&& #[trigger] config_outcome(
                    r,
                    master,
                    master_errors,
                    u,
                    user is Err,
                    init,
                    debug_build,
                )
            },
{
    let ghost user_failed = user is Err;
    let (user, errors) = match user {
        Ok(u) => (u, master_errors),
        Err(_) => (UserConfig::with_defaults(defaults), true),
    };
    let disable_web_server = master.disable_web_server || user.disable_web_server;
    let web_ip_whitelist = create_ip_matcher(
        disable_web_server,
        clone_strings(&user.web_ip_whitelist),
        clone_strings(&master.web_ip_whitelist),
        master.web_force_ip_whitelist,
    );
    let web_settings_whitelist = create_ip_matcher(
        disable_web_server,
        clone_strings(&user.web_settings_ip_whitelist),
        clone_strings(&master.web_settings_ip_whitelist),
        master.web_force_settings_ip_whitelist,
    );
    let r = match (web_ip_whitelist, web_settings_whitelist) {
        (Some(web_ip_whitelist), Some(web_settings_whitelist)) => {
            let plugin_locations = plugin_locations(
                &master.plugin_locations,
                &user.plugin_locations,
                master.disable_user_plugin_locations,
                init.local_dev && debug_build,
            );
            let dashboards_location = match &init.dashboards_folder {
                Some(f) => f.clone(),
                None => user.dashboards_location.clone(),
            };
            let plugin_settings_location = match &init.plugin_settings_folder {
                Some(f) => f.clone(),
                None => user.plugin_settings_location.clone(),
            };
            Some(
                (
                    ConfigPlan {
                        disable_web_server,
                        web_server_ip: user.web_server_ip.clone(),
                        web_server_port: user.web_server_port,
                        web_ip_whitelist,
                        web_settings_whitelist,
                        plugin_locations,
                        dashboards_location,
                        plugin_settings_location,
                    },
                    errors,
                ),
            )
        },
        _ => None,
    };
    assert(config_outcome(r, master, master_errors, user, user_failed, init, debug_build));
    r
}

/// A configured path: `~/` is the home folder, `./` the current folder,
/// `:/` the install folder; anything else is taken as written.
pub struct PathString(pub String);

/// The folder a configured path is relative to.
#[derive(Debug, Clone, Copy, PartialEq, Eq, Structural)]
pub enum PathRoot {
    Home,
    CurrentDir,
    InstallDir,
    AsWritten,
}

/// `s` with every `from` replaced by `to`.
pub open spec fn replace_char(s: Seq<char>, from: char, to: char) -> Seq<char> {
    s.map_values(|c: char| if c == from { to } else { c })
}

/// The first index at or after `i` where `a` is directly followed by `b`.
pub open spec fn find_pair(s: Seq<char>, a: char, b: char, i: int) -> Option<int>
    decreases s.len() - i,
{
    if i < 0 || i + 1 >= s.len() {
        None
    } else if s[i] == a && s[i + 1] == b {
        Some(i)
    } else {
        find_pair(s, a, b, i + 1)
    }
}

/// `str::replacen(.., 1)` for two-character patterns and replacements: the
/// first occurrence of `ab` becomes `xy`.
pub open spec fn replace_first_pair(s: Seq<char>, a: char, b: char, x: char, y: char) -> Seq<
    char,
> {
    match find_pair(s, a, b, 0) {
        None => s,
        Some(i) => s.update(i, x).update(i + 1, y),
    }
}

/// The separators of a configured path made those of the platform. On
/// Windows, after turning every `/` into `\`, the first `~\` and `.\` are
/// turned back and the first `:\` becomes `./`.
pub open spec fn normalize_separators(s: Seq<char>, windows: bool) -> Seq<char> {
    if windows {
        let a = replace_char(s, '/', '\\');
        let b = replace_first_pair(a, '~', '\\', '~', '/');
        let c = replace_first_pair(b, '.', '\\', '.', '/');
        replace_first_pair(c, ':', '\\', '.', '/')
    } else {
        replace_char(s, '\\', '/')
    }
}

/// The root of a normalized path and the part that follows it.
pub open spec fn spec_path_root(v: Seq<char>) -> (PathRoot, Seq<char>) {
    if v.len() >= 2 && v[1] == '/' && v[0] == '~' {
        (PathRoot::Home, v.skip(2))
    } else if v.len() >= 2 && v[1] == '/' && v[0] == '.' {
        (PathRoot::CurrentDir, v.skip(2))
    } else if v.len() >= 2 && v[1] == '/' && v[0] == ':' {
        (PathRoot::InstallDir, v.skip(2))
    } else {
        (PathRoot::AsWritten, v)
    }
}

pub(crate) fn replace_all_char(s: &str, from: char, to: &str) -> (r: String)
    requires
        to@.len() == 1,
    ensures
        r@ == replace_char(s@, from, to@[0]),
{
    let v = chars_of(s);
    let n = v.len();
    let mut r = String::from_str("");
    proof {
        reveal_strlit("");
    }
    let mut i: usize = 0;
    while i < n
        invariant
            v@ == s@,
            n == s@.len(),
            i <= n,
            to@.len() == 1,
            r@ == replace_char(s@, from, to@[0]).take(i as int),
        decreases n - i,
    {
        if v[i] == from {
            r.append(to);
        } else {
            r.append(s.substring_char(i, i + 1));
        }
        assert(r@ =~= replace_char(s@, from, to@[0]).take(i + 1));
        i = i + 1;
    }
    assert(r@ =~= replace_char(s@, from, to@[0]));
    r
}

proof fn lemma_find_pair_none(s: Seq<char>, a: char, b: char, i: int)
    requires
        0 <= i,
        forall|j: int| i <= j && j + 1 < s.len() ==> !(#[trigger] s[j] == a && s[j + 1] == b),
    ensures
        find_pair(s, a, b, i) is None,
    decreases s.len() - i,
{
    if i + 1 < s.len() {
        lemma_find_pair_none(s, a, b, i + 1);
    }
}

proof fn lemma_find_pair_at(s: Seq<char>, a: char, b: char, i: int, k: int)
    requires
        0 <= i <= k,
        k + 1 < s.len(),
        s[k] == a && s[k + 1] == b,
        forall|j: int| i <= j < k ==> !(#[trigger] s[j] == a && s[j + 1] == b),
    ensures
        find_pair(s, a, b, i) == Some(k),
    decreases k - i,
{
    if i < k {
        lemma_find_pair_at(s, a, b, i + 1, k);
    }
}

fn replace_pair(s: &str, a: char, b: char, rep: &str) -> (r: String)
    requires
        rep@.len() == 2,
    ensures
        r@ == replace_first_pair(s@, a, b, rep@[0], rep@[1]),
{
    let v = chars_of(s);
    let n = v.len();
    let mut i: usize = 0;
    while n >= 2 && i < n - 1
        invariant
            v@ == s@,
            n == s@.len(),
            i <= n,
            rep@.len() == 2,
            forall|j: int| 0 <= j < i && j + 1 < n ==> !(#[trigger] s@[j] == a && s@[j + 1] == b),
        decreases n - i,
    {
        if v[i] == a && v[i + 1] == b {
            proof {
                lemma_find_pair_at(s@, a, b, 0, i as int);
            }
            let mut r = String::from_str(s.substring_char(0, i));
            r.append(rep);
            r.append(s.substring_char(i + 2, n));
            assert(r@ =~= s@.update(i as int, rep@[0]).update(i + 1, rep@[1]));
            return r;
        }
        i = i + 1;
    }
    proof {
        assert forall|j: int| 0 <= j && j + 1 < s@.len() implies !(#[trigger] s@[j] == a && s@[j
            + 1] == b) by {
            assert(j < i);
        }
        lemma_find_pair_none(s@, a, b, 0);
    }
    String::from_str(s)
}

impl PathString {
    /// Splits the path into the folder it is relative to and the rest, after
    /// making its separators those of the platform. Looking the folder up
    /// is left to the caller.
    pub fn path_root(&self, windows: bool) -> (r: (PathRoot, String))
        ensures
            (r.0, r.1@) == spec_path_root(normalize_separators(self.0@, windows)),
    {
        let v = if windows {
            proof {
                reveal_strlit("\\");
                reveal_strlit("~/");
                reveal_strlit("./");
            }
            let a = replace_all_char(self.0.as_str(), '/', "\\");
            let b = replace_pair(a.as_str(), '~', '\\', "~/");
            let c = replace_pair(b.as_str(), '.', '\\', "./");
            replace_pair(c.as_str(), ':', '\\', "./")
        } else {
            proof {
                reveal_strlit("/");
            }
            replace_all_char(self.0.as_str(), '\\', "/")
        };
        let t = v.as_str();
        let n = t.unicode_len();
        if n >= 2 && t.get_char(1) == '/' {
            let c = t.get_char(0);
            let rest = String::from_str(t.substring_char(2, n));
            assert(rest@ =~= v@.skip(2));
            if c == '~' {
                return (PathRoot::Home, rest);
            } else if c == '.' {
                return (PathRoot::CurrentDir, rest);
            } else if c == ':' {
                return (PathRoot::InstallDir, rest);
            }
        }
        (PathRoot::AsWritten, v)
    }
}

/// What to do next while looking for a folder.
#[derive(Debug, PartialEq, Eq)]
pub enum FolderStep {
    /// Create (if missing) and use this folder, then report back.
    Attempt(String),
    /// The folder to use.
    Found(String),
    /// Neither the configured folder nor the default could be used.
    Failed,
}

/// The search for a folder of one kind: the configured one first, then the
/// platform default.
pub struct FolderSearch {
    pub current: String,
    pub fallback: String,
    pub tried_fallback: bool,
}

/// Starts the search for the dashboards folder.
pub fn create_dashboard_folder(path: String, defaults: &PlatformDefaults) -> (r: FolderSearch)
    ensures
        r.current == path,
        r.fallback@ == defaults.dashboard_path@,
        !r.tried_fallback,
{
    FolderSearch { current: path, fallback: defaults.dashboard_path.clone(), tried_fallback: false }
}

/// Starts the search for the plugin settings folder.
pub fn create_plugin_settings_folder(path: String, defaults: &PlatformDefaults) -> (r:
    FolderSearch)
    ensures
        r.current == path,
        r.fallback@ == defaults.plugin_settings_path@,
        !r.tried_fallback,
{
    FolderSearch {
        current: path,
        fallback: defaults.plugin_settings_path.clone(),
        tried_fallback: false,
    }
}

impl FolderSearch {
    /// Takes the outcome of trying `current`. A usable folder is found;
    /// after the first failure the failure is noted in the error flag and
    /// the default is tried next; after a failure of the default the search
    /// fails.
    pub fn create_thing_folder(&mut self, usable: bool, errors: &mut bool) -> (r: FolderStep)
        ensures
            usable ==> r == FolderStep::Found(old(self).current) && *final(self) == *old(self)
                && *final(errors) == *old(errors),
            !usable && !old(self).tried_fallback ==> r == FolderStep::Attempt(old(self).fallback)
                && final(self).current == old(self).fallback && final(self).tried_fallback
                && final(self).fallback == old(self).fallback && *final(errors),
            !usable && old(self).tried_fallback ==> r == FolderStep::Failed && *final(self)
                == *old(self) && *final(errors) == *old(errors),
    {
        if usable {
            return FolderStep::Found(self.current.clone());
        }
        if !self.tried_fallback {
            *errors = true;
            self.tried_fallback = true;
            self.current = self.fallback.clone();
            return FolderStep::Attempt(self.fallback.clone());
        }
        FolderStep::Failed
    }
}

} // verus!

use vstd::prelude::*;
use vstd::string::StringExecFns;
use crate::handles::{spec_name_hashes, ActionHandle};
use crate::web_handle::{spec_extract_hashes, WebActionHandle};
use crate::dashboard::{spec_actions_all, texts, Dashboard};
use crate::web_updater::SocketChMsg;
use std::collections::HashMap;

verus! {

broadcast use vstd::std_specs::hash::group_hash_axioms;

/// Why a page, dashboard or asset could not be served. The texts of file
/// system and parse errors are carried as they were reported.
pub enum FsResourceError {
    AccessDenied,
    DoesNotExist,
    Custom(String),
    FSError(String),
    SerdeParseError(String),
}

/// The explanation of an error, without the resource name.
pub open spec fn error_reason(e: FsResourceError) -> Seq<char> {
    match e {
        FsResourceError::AccessDenied => "You are not permitted to access this resource"@,
        FsResourceError::DoesNotExist => "Does Not Exist"@,
        FsResourceError::Custom(t) => t@,
        FsResourceError::FSError(t) => "Failed to open file: "@ + t@,
        FsResourceError::SerdeParseError(t) => "Unable to parse: "@ + t@,
    }
}

/// The message shown for an error: "Unable to load Resource", the resource
/// name after a space when there is one, a colon and the explanation.
pub open spec fn spec_error_message(e: FsResourceError, resource_name: Option<Seq<char>>) -> Seq<char> {
    "Unable to load Resource"@ + match resource_name {
        Some(t) => " "@ + t,
        None => Seq::empty(),
    } + ": "@ + error_reason(e)
}

impl FsResourceError {
    /// The message shown for the error (see `spec_error_message`).
    pub fn format(&self, resource_name: Option<&str>) -> (r: String)
        ensures
            r@ == spec_error_message(
                *self,
                match resource_name {
                    Some(t) => Some(t@),
                    None => None,
                },
            ),
    {
        proof {
            reveal_strlit("Unable to load Resource");
            reveal_strlit(" ");
            reveal_strlit(": ");
            reveal_strlit("You are not permitted to access this resource");
            reveal_strlit("Does Not Exist");
            reveal_strlit("Failed to open file: ");
            reveal_strlit("Unable to parse: ");
        }
        let mut out = String::from_str("Unable to load Resource");
        match resource_name {
            Some(t) => {
                out.append(" ");
                out.append(t);
            },
            None => {},
        }
        out.append(": ");
        match self {
            FsResourceError::AccessDenied => out.append("You are not permitted to access this resource"),
            FsResourceError::DoesNotExist => out.append("Does Not Exist"),
            FsResourceError::Custom(t) => out.append(t.as_str()),
            FsResourceError::FSError(t) => {
                out.append("Failed to open file: ");
                out.append(t.as_str());
            },
            FsResourceError::SerdeParseError(t) => {
                out.append("Unable to parse: ");
                out.append(t.as_str());
            },
        }
        assert(out@ =~= spec_error_message(
            *self,
            match resource_name {
                Some(t) => Some(t@),
                None => None,
            },
        ));
        out
    }

    /// The HTTP status the error is answered with: 404 for a missing
    /// resource, 403 for a refused one, 500 otherwise.
    pub fn status_code(&self) -> (r: u16)
        ensures
            r == match *self {
                FsResourceError::DoesNotExist => 404u16,
                FsResourceError::AccessDenied => 403u16,
                _ => 500u16,
            },
    {
        match self {
            FsResourceError::DoesNotExist => 404,
            FsResourceError::AccessDenied => 403,
            _ => 500,
        }
    }
}

/// Who a websocket client authenticated as: a dashboard (with the actions
/// it may trigger) or a plugin (with its id and name).
pub enum Auth {
    Dashboard(String, Vec<ActionHandle>),
    Plugin(u64, String),
}

/// The action handles named by a dashboard's actions: valid names, in
/// order; invalid ones are left out.
pub open spec fn spec_allow_list(actions: Seq<String>) -> Seq<ActionHandle>
    decreases actions.len(),
{
    if actions.len() == 0 {
        Seq::empty()
    } else {
        let rest = spec_allow_list(actions.drop_last());
        match spec_name_hashes(actions.last()@) {
            Some((p, a)) => rest.push(ActionHandle { plugin: p, action: a }),
            None => rest,
        }
    }
}

/// The actions a dashboard may trigger (see `spec_allow_list`).
pub fn dashboard_allow_list(actions: &Vec<String>) -> (r: Vec<ActionHandle>)
    ensures
        r@ == spec_allow_list(actions@),
{
    let mut out: Vec<ActionHandle> = Vec::new();
    let mut i: usize = 0;
    while i < actions.len()
        invariant
            i <= actions@.len(),
            out@ == spec_allow_list(actions@.take(i as int)),
        decreases actions@.len() - i,
    {
        assert(actions@.take(i + 1).drop_last() =~= actions@.take(i as int));
        match ActionHandle::new(actions[i].as_str()) {
            Some(h) => out.push(h),
            None => {},
        }
        i = i + 1;
    }
    assert(actions@.take(actions@.len() as int) =~= actions@);
    out
}

/// Whether `allow` holds the action `(plugin, action)`.
pub open spec fn allows(allow: Seq<ActionHandle>, plugin: u64, action: u64) -> bool {
    exists|i: int| 0 <= i < allow.len() && #[trigger] allow[i] == ActionHandle { plugin, action }
}

/// The origin under which a websocket client may trigger `action`: 0 for a
/// dashboard whose allow list holds it, the plugin's id for a plugin; the
/// reason otherwise (`client` names the client in the message).
pub open spec fn spec_authorize(auth: Option<Auth>, client: Seq<char>, action: Seq<char>) -> Result<u64, Seq<char>> {
    match auth {
        None => Err("Client "@ + client + " has not done auth yet"@),
        Some(Auth::Plugin(id, _)) => Ok(id),
        Some(Auth::Dashboard(_, allow)) => match spec_extract_hashes(action) {
            None => Err("Invalid Action Format"@),
            Some((p, a)) => if allows(allow@, p, a) {
                Ok(0)
            } else {
                Err("This action is not authorized for this dashboard"@)
            },
        },
    }
}

/// The view of an authorization result.
pub open spec fn authorize_view(r: Result<u64, String>) -> Result<u64, Seq<char>> {
    match r {
        Ok(x) => Ok(x),
        Err(e) => Err(e@),
    }
}

/// Decides under which origin a websocket client may trigger `action` (see
/// `spec_authorize`).
#[verifier::loop_isolation(false)]
pub fn authorize_web_action(auth: Option<&Auth>, client: &str, action: &WebActionHandle) -> (r: Result<
    u64,
    String,
>)
    ensures
        authorize_view(r) == spec_authorize(
            match auth {
                Some(a) => Some(*a),
                None => None,
            },
            client@,
            action@,
        ),
{
    proof {
        reveal_strlit("Client ");
        reveal_strlit(" has not done auth yet");
        reveal_strlit("Invalid Action Format");
        reveal_strlit("This action is not authorized for this dashboard");
    }
    match auth {
        None => {
            let mut m = String::from_str("Client ");
            m.append(client);
            m.append(" has not done auth yet");
            assert(m@ =~= "Client "@ + client@ + " has not done auth yet"@);
            Err(m)
        },
        Some(Auth::Plugin(id, _)) => Ok(*id),
        Some(Auth::Dashboard(_, allow)) => match action.get_hashes() {
            None => Err(String::from_str("Invalid Action Format")),
            Some((plugin, act)) => {
                let mut i: usize = 0;
                while i < allow.len()
                    invariant
                        i <= allow@.len(),
                        forall|j: int| 0 <= j < i ==> #[trigger] allow@[j] != (ActionHandle { plugin, action: act }),
                    decreases allow@.len() - i,
                {
                    if allow[i].plugin == plugin && allow[i].action == act {
                        assert(allow@[i as int] == ActionHandle { plugin, action: act });
                        assert(allows(allow@, plugin, act));
                        return Ok(0);
                    }
                    i = i + 1;
                }
                Err(String::from_str("This action is not authorized for this dashboard"))
            },
        },
    }
}

/// A name in `names` whose handle is `(plugin, action)`.
pub open spec fn names_action(names: Seq<Seq<char>>, plugin: u64, action: u64) -> bool {
    exists|i: int| 0 <= i < names.len() && spec_name_hashes(#[trigger] names[i]) == Some((plugin, action))
}

/// The allow list of a list of action names holds exactly the handles of
/// its valid names.
pub proof fn lemma_allow_list_allows(actions: Seq<String>, plugin: u64, action: u64)
    ensures
        allows(spec_allow_list(actions), plugin, action) <==> names_action(texts(actions), plugin, action),
    decreases actions.len(),
{
    let h = ActionHandle { plugin, action };
    if actions.len() > 0 {
        let rest = actions.drop_last();
        lemma_allow_list_allows(rest, plugin, action);
        assert(texts(rest) =~= texts(actions).drop_last());
        if names_action(texts(actions), plugin, action) {
            let i = choose|i: int| 0 <= i < texts(actions).len() && spec_name_hashes(#[trigger] texts(actions)[i]) == Some((plugin, action));
            if i < actions.len() - 1 {
                assert(texts(rest)[i] == texts(actions)[i]);
                assert(names_action(texts(rest), plugin, action));
                let j = choose|j: int| 0 <= j < spec_allow_list(rest).len() && #[trigger] spec_allow_list(rest)[j] == h;
                assert(spec_allow_list(actions)[j] == h);
            } else {
                assert(actions.last()@ == texts(actions)[i]);
                let l = spec_allow_list(actions);
                assert(l[l.len() - 1] == h);
            }
        }
        if allows(spec_allow_list(actions), plugin, action) {
            let l = spec_allow_list(actions);
            let j = choose|j: int| 0 <= j < l.len() && #[trigger] l[j] == h;
            if j < spec_allow_list(rest).len() {
                assert(spec_allow_list(rest)[j] == h);
                let i = choose|i: int| 0 <= i < texts(rest).len() && spec_name_hashes(#[trigger] texts(rest)[i]) == Some((plugin, action));
                assert(texts(actions)[i] == texts(rest)[i]);
            } else {
                assert(texts(actions)[actions.len() - 1] == actions.last()@);
            }
        }
    }
}

/// Whether `dash` names the action `(plugin, action)`.
pub open spec fn dashboard_names_action(dash: Dashboard, plugin: u64, action: u64) -> bool {
    exists|name: Seq<char>| #[trigger] spec_actions_all(dash.elements@).contains(name)
        && spec_name_hashes(name) == Some((plugin, action))
}

/// `auth` is the record of a client that authenticated as `dash`: its
/// allow list holds exactly the actions that the dashboard names.
pub open spec fn dashboard_auth(auth: Auth, dash: Dashboard) -> bool {
    auth matches Auth::Dashboard(n, allow) && n@ == dash.name@ && forall|p: u64, a: u64|
        allows(allow@, p, a) <==> dashboard_names_action(dash, p, a)
}

/// A client that authenticated as a dashboard may trigger, under origin 0,
/// exactly the actions that the dashboard's elements name; any other
/// action handle is refused as not authorized, and a text that is no
/// action handle as malformed.
pub proof fn lemma_dashboard_triggers_its_actions(auth: Auth, dash: Dashboard, client: Seq<char>, action: Seq<char>)
    requires
        dashboard_auth(auth, dash),
    ensures
        spec_authorize(Some(auth), client, action) == match spec_extract_hashes(action) {
            None => Err("Invalid Action Format"@),
            Some((p, a)) => if dashboard_names_action(dash, p, a) {
                Ok::<u64, Seq<char>>(0)
            } else {
                Err("This action is not authorized for this dashboard"@)
            },
        },
{
}

/// Who each connected websocket client authenticated as, by client id (the
/// 16 bytes of the socket id, read as a number).
pub struct AccessTable {
    pub table: HashMap<u128, Auth>,
}

impl AccessTable {
    /// No client authenticated.
    pub fn new() -> (r: AccessTable)
        ensures
            r.table@ == Map::<u128, Auth>::empty(),
    {
        AccessTable { table: HashMap::new() }
    }

    /// Who client `id` authenticated as.
    pub fn get_auth(&self, id: u128) -> (r: Option<&Auth>)
        ensures
            match r {
                Some(a) => self.table@.contains_key(id) && self.table@[id] == *a,
                None => !self.table@.contains_key(id),
            },
    {
        self.table.get(&id)
    }

    /// Records who client `id` authenticated as, replacing an earlier
    /// record; every other client keeps its record.
    pub fn insert_auth(&mut self, id: u128, auth: Auth)
        ensures
            final(self).table@ == old(self).table@.insert(id, auth),
    {
        self.table.insert(id, auth);
    }

    /// Forgets client `id` (it disconnected); a dashboard's departure is
    /// told to the update task. Removing a plugin client is not
    /// implemented (it panics), so `id` may not be one.
    pub fn remove_auth(&mut self, id: u128) -> (r: Option<SocketChMsg>)
        requires
            !(old(self).table@.contains_key(id) && old(self).table@[id] is Plugin),
        ensures
            final(self).table@ == old(self).table@.remove(id),
            if old(self).table@.contains_key(id) {
                old(self).table@[id] matches Auth::Dashboard(name, _) && r matches Some(SocketChMsg::RmDashboard(n))
                    && n@ == name@
            } else {
                r is None
            },
    {
        match self.table.remove(&id) {
            Some(Auth::Dashboard(name, _)) => Some(SocketChMsg::RmDashboard(name)),
            _ => None,
        }
    }

    /// Records that client `id` authenticated as dashboard `dash` (whose
    /// token the caller checked): it may trigger exactly the actions that
    /// the dashboard's elements name. Answers the message that tells the
    /// update task of the new dashboard instance.
    pub fn insert_dashboard(&mut self, id: u128, dash: &Dashboard) -> (r: SocketChMsg)
        ensures
            r matches SocketChMsg::AddDashboard(n) && n@ == dash.name@,
            final(self).table@.contains_key(id),
            dashboard_auth(final(self).table@[id], *dash),
            final(self).table@.remove(id) == old(self).table@.remove(id),
    {
        let actions = dash.list_actions();
        let allow = dashboard_allow_list(&actions);
        let ghost al = allow@;
        proof {
            assert forall|p: u64, a: u64| allows(al, p, a) <==> exists|name: Seq<char>| #[trigger] spec_actions_all(dash.elements@).contains(name)
                && spec_name_hashes(name) == Some((p, a)) by {
                lemma_allow_list_allows(actions@, p, a);
                if names_action(texts(actions@), p, a) {
                    let i = choose|i: int| 0 <= i < texts(actions@).len() && spec_name_hashes(#[trigger] texts(actions@)[i]) == Some((p, a));
                    assert(texts(actions@).to_set().contains(texts(actions@)[i]));
                }
                if exists|name: Seq<char>| #[trigger] spec_actions_all(dash.elements@).contains(name)
                    && spec_name_hashes(name) == Some((p, a)) {
                    let name = choose|name: Seq<char>| #[trigger] spec_actions_all(dash.elements@).contains(name)
                        && spec_name_hashes(name) == Some((p, a));
                    assert(texts(actions@).to_set().contains(name));
                    assert(texts(actions@).contains(name));
                    let i = choose|i: int| 0 <= i < texts(actions@).len() && texts(actions@)[i] == name;
                    assert(spec_name_hashes(texts(actions@)[i]) == Some((p, a)));
                }
            }
        }
        let name = dash.name.clone();
        self.insert_auth(id, Auth::Dashboard(dash.name.clone(), allow));
        proof {
            assert(self.table@.remove(id) =~= old(self).table@.remove(id));
        }
        SocketChMsg::AddDashboard(name)
    }
}

} // verus!

use dashmap::DashMap;
use vstd::prelude::*;

verus! {

use crate::client::{ClientView, ZjuClient};
use crate::error::AppError;
use crate::models::{DingTalkConfig, TaskInfo, UserInfo};
use crate::text::{strip_prefix_exec, strip_prefix_seq};

/// `dashmap::DashMap`, whose contents the names below describe.
#[verifier::external_type_specification]
#[verifier::external_body]
#[verifier::reject_recursive_types(K)]
#[verifier::reject_recursive_types(V)]
#[verifier::reject_recursive_types(S)]
pub struct ExDashMap<K, V, S>(DashMap<K, V, S>);

/// What a map of web tokens to student numbers holds.
pub uninterp spec fn session_entries(m: DashMap<String, String>) -> Map<Seq<char>, Seq<char>>;

/// `DashMap::new`: an empty map.
#[verifier::external_body]
fn new_session_map() -> (r: DashMap<String, String>)
    ensures
        session_entries(r).dom() == Set::<Seq<char>>::empty(),
{
    DashMap::new()
}

/// `DashMap::insert`: the key now maps to the value, the other keys are kept.
#[verifier::external_body]
fn insert_session(m: &mut DashMap<String, String>, key: String, value: String)
    ensures
        session_entries(*final(m)) == session_entries(*old(m)).insert(key@, value@),
{
    m.insert(key, value);
}

/// `DashMap::get`, handing out a copy of the value.
#[verifier::external_body]
fn get_session(m: &DashMap<String, String>, key: &str) -> (r: Option<String>)
    ensures
        r is Some <==> session_entries(*m).contains_key(key@),
        r matches Some(v) ==> v@ == session_entries(*m)[key@],
{
    match m.get(key) {
        Some(v) => Some(v.value().clone()),
        None => None,
    }
}

/// `DashMap::remove`: the key is gone, the other keys are kept.
#[verifier::external_body]
fn remove_session(m: &mut DashMap<String, String>, key: &str)
    ensures
        session_entries(*final(m)) == session_entries(*old(m)).remove(key@),
{
    m.remove(key);
}

/// What a map of student numbers to logged-in clients holds.
pub uninterp spec fn pooled_clients(m: DashMap<String, ZjuClient>) -> Map<Seq<char>, ClientView>;

/// `DashMap::new`: an empty map.
#[verifier::external_body]
fn new_client_map() -> (r: DashMap<String, ZjuClient>)
    ensures
        pooled_clients(r).dom() == Set::<Seq<char>>::empty(),
{
    DashMap::new()
}

/// `DashMap::insert`: the key now maps to the client, the other keys are kept.
#[verifier::external_body]
fn insert_client(m: &mut DashMap<String, ZjuClient>, key: String, value: ZjuClient)
    ensures
        pooled_clients(*final(m)) == pooled_clients(*old(m)).insert(key@, value@),
{
    m.insert(key, value);
}

/// `DashMap::get`, handing out a clone of the client (its strings are copied,
/// its HTTP client is another handle on the same pool). That the clone equals
/// the stored client rests on the derived `Clone` of `ZjuClient`, which
/// copies each field.
#[verifier::external_body]
fn get_client_entry(m: &DashMap<String, ZjuClient>, key: &str) -> (r: Option<ZjuClient>)
    ensures
        r is Some <==> pooled_clients(*m).contains_key(key@),
        r matches Some(c) ==> c@ == pooled_clients(*m)[key@],
{
    match m.get(key) {
        Some(v) => Some(v.value().clone()),
        None => None,
    }
}

/// What a map of task ids to running tasks holds.
pub uninterp spec fn task_entries(m: DashMap<String, TaskInfo>) -> Map<Seq<char>, TaskInfo>;

/// `DashMap::new`: an empty map.
#[verifier::external_body]
fn new_task_map() -> (r: DashMap<String, TaskInfo>)
    ensures
        task_entries(r).dom() == Set::<Seq<char>>::empty(),
{
    DashMap::new()
}

/// `DashMap::insert`: the key now maps to the task, the other keys are kept.
#[verifier::external_body]
fn insert_task_entry(m: &mut DashMap<String, TaskInfo>, key: String, value: TaskInfo)
    ensures
        task_entries(*final(m)) == task_entries(*old(m)).insert(key@, value),
{
    m.insert(key, value);
}

/// `DashMap::remove`: the key is gone, the other keys are kept; the result
/// says whether the key was there.
#[verifier::external_body]
fn remove_task_entry(m: &mut DashMap<String, TaskInfo>, key: &str) -> (r: bool)
    ensures
        r == task_entries(*old(m)).contains_key(key@),
        task_entries(*final(m)) == task_entries(*old(m)).remove(key@),
{
    m.remove(key).is_some()
}

/// `DashMap::iter`, handing out a clone of every value: each entry once, in
/// an order that the map's hashing decides. That each clone equals the stored
/// task rests on the derived `Clone` of `TaskInfo`, which copies each field.
#[verifier::external_body]
fn task_values(m: &DashMap<String, TaskInfo>) -> (r: Vec<TaskInfo>)
    ensures
        r@.len() == task_entries(*m).dom().len(),
        forall|i: int|
            0 <= i < r@.len() ==> exists|k: Seq<char>|
                task_entries(*m).contains_key(k) && task_entries(*m)[k] == #[trigger] r@[i],
        forall|k: Seq<char>|
            task_entries(*m).contains_key(k) ==> exists|i: int|
                0 <= i < r@.len() && r@[i] == #[trigger] task_entries(*m)[k],
{
    m.iter().map(|e| e.value().clone()).collect()
}

/// The registries of the web server: web sessions (token to student number),
/// the pool of logged-in clients (student number to client), the running
/// booking tasks (id to task) and the cached DingTalk configuration.
pub struct AppState {
    sessions: DashMap<String, String>,
    client_pool: DashMap<String, ZjuClient>,
    task_handles: DashMap<String, TaskInfo>,
    dingtalk_config: Option<DingTalkConfig>,
}

/// What the registries hold, for contracts.
pub struct StateView {
    pub sessions: Map<Seq<char>, Seq<char>>,
    pub clients: Map<Seq<char>, ClientView>,
    pub tasks: Map<Seq<char>, TaskInfo>,
    pub dingtalk_config: Option<DingTalkConfig>,
}

impl View for AppState {
    type V = StateView;

    closed spec fn view(&self) -> StateView {
        StateView {
            sessions: session_entries(self.sessions),
            clients: pooled_clients(self.client_pool),
            tasks: task_entries(self.task_handles),
            dingtalk_config: self.dingtalk_config,
        }
    }
}

/// The web token in an `Authorization` header: what follows `Bearer `.
pub open spec fn auth_token(auth: Option<Seq<char>>) -> Option<Seq<char>> {
    strip_prefix_seq(
        match auth {
            Some(a) => a,
            None => Seq::empty(),
        },
        "Bearer "@,
    )
}

/// The client that an `Authorization` header resolves to: its token names a
/// session, whose student number names a pooled client.
pub open spec fn resolve_client(v: StateView, auth: Option<Seq<char>>) -> Option<ClientView> {
    match auth_token(auth) {
        Some(t) => if v.sessions.contains_key(t) && v.clients.contains_key(v.sessions[t]) {
            Some(v.clients[v.sessions[t]])
        } else {
            None
        },
        None => None,
    }
}

/// The task map is keyed by the tasks' own ids.
pub open spec fn tasks_keyed_by_id(tasks: Map<Seq<char>, TaskInfo>) -> bool {
    forall|k: Seq<char>| #[trigger] tasks.contains_key(k) ==> tasks[k].id@ == k
}

/// The token of `Bearer <token>` is `token`.
pub proof fn lemma_auth_token_of_bearer(token: Seq<char>)
    ensures
        auth_token(Some("Bearer "@ + token)) == Some(token),
{
    let s = "Bearer "@ + token;
    assert(s.subrange(0, "Bearer "@.len() as int) =~= "Bearer "@);
    assert(s.subrange("Bearer "@.len() as int, s.len() as int) =~= token);
}

/// `after` is `before` with the DingTalk configuration replaced by `config`
/// and the sessions, clients and tasks kept.
pub open spec fn config_update(before: StateView, config: DingTalkConfig, after: StateView) -> bool {
    &&& after.dingtalk_config == Some(config)
    &&& after.sessions == before.sessions
    &&& after.clients == before.clients
    &&& after.tasks == before.tasks
}

/// After a run of DingTalk configuration updates, the cache holds the one
/// given last, and the sessions, clients and tasks are those from before the
/// first.
pub proof fn law_dingtalk_config_last_update_wins(states: Seq<StateView>, configs: Seq<DingTalkConfig>)
    requires
        configs.len() > 0,
        states.len() == configs.len() + 1,
        forall|i: int|
            0 <= i < configs.len() ==> config_update(states[i], configs[i], #[trigger] states[i + 1]),
    ensures
        states.last().dingtalk_config == Some(configs.last()),
        states.last().sessions == states[0].sessions,
        states.last().clients == states[0].clients,
        states.last().tasks == states[0].tasks,
    decreases configs.len(),
{
    let n = configs.len() as int;
    assert(config_update(states[n - 1], configs[n - 1], states[n - 1 + 1]));
    if n > 1 {
        let ps = states.drop_last();
        let pc = configs.drop_last();
        assert forall|i: int| 0 <= i < pc.len() implies config_update(
            ps[i],
            pc[i],
            #[trigger] ps[i + 1],
        ) by {
            assert(config_update(states[i], configs[i], states[i + 1]));
        }
        law_dingtalk_config_last_update_wins(ps, pc);
        assert(ps.last() == states[n - 1]);
    }
}

/// Across a step from `before` to `after`, the session of token `t`, if any,
/// still names the same user, and every user with a pooled client keeps one.
pub open spec fn keeps_session(before: StateView, after: StateView, t: Seq<char>) -> bool {
    &&& before.sessions.contains_key(t) ==> after.sessions.contains_key(t) && after.sessions[t]
        == before.sessions[t]
    &&& before.clients.dom().subset_of(after.clients.dom())
}

/// A web token that resolves keeps resolving, to a client of the same user,
/// through every run of operations that keep its session: all but a logout
/// of that token and a login that reuses it.
pub proof fn law_session_keeps_resolving(states: Seq<StateView>, token: Seq<char>)
    requires
        states.len() > 0,
        resolve_client(states[0], Some("Bearer "@ + token)) is Some,
        forall|i: int|
            0 <= i < states.len() - 1 ==> #[trigger] keeps_session(states[i], states[i + 1], token),
    ensures
        resolve_client(states.last(), Some("Bearer "@ + token)) is Some,
        states.last().sessions[token] == states[0].sessions[token],
    decreases states.len(),
{
    lemma_auth_token_of_bearer(token);
    if states.len() > 1 {
        let n = states.len() as int;
        let ps = states.drop_last();
        assert forall|i: int| 0 <= i < ps.len() - 1 implies #[trigger] keeps_session(
            ps[i],
            ps[i + 1],
            token,
        ) by {
            assert(keeps_session(states[i], states[i + 1], token));
        }
        law_session_keeps_resolving(ps, token);
        assert(keeps_session(states[n - 2], states[n - 2 + 1], token));
        assert(ps.last() == states[n - 2]);
    }
}

/// A list that holds each task of a map keyed by id, as many items as the map
/// has keys, lists no id twice.
proof fn lemma_listed_ids_distinct(tasks: Map<Seq<char>, TaskInfo>, r: Seq<TaskInfo>)
    requires
        tasks_keyed_by_id(tasks),
        tasks.dom().finite(),
        r.len() == tasks.dom().len(),
        forall|i: int|
            0 <= i < r.len() ==> tasks.contains_key(r[i].id@) && tasks[r[i].id@] == r[i],
        forall|k: Seq<char>|
            tasks.contains_key(k) ==> exists|i: int| 0 <= i < r.len() && r[i] == #[trigger] tasks[k],
    ensures
        forall|i: int, j: int| 0 <= i < j < r.len() ==> r[i].id@ != r[j].id@,
{
    let dom = tasks.dom();
    let f = |k: Seq<char>| choose|i: int| 0 <= i < r.len() && r[i] == tasks[k];
    assert forall|k: Seq<char>| dom.contains(k) implies 0 <= #[trigger] f(k) < r.len() && r[f(k)]
        == tasks[k] by {
        assert(tasks.contains_key(k));
    }
    assert(vstd::relations::injective_on(f, dom)) by {
        assert forall|a: Seq<char>, b: Seq<char>|
            dom.contains(a) && dom.contains(b) && #[trigger] f(a) == #[trigger] f(b) implies a == b by {
            assert(r[f(a)].id@ == a);
            assert(r[f(b)].id@ == b);
        }
    }
    let image = dom.map(f);
    vstd::set_lib::lemma_map_size(dom, image, f);
    let range = vstd::set_lib::set_int_range(0, r.len() as int);
    vstd::set_lib::lemma_int_range(0, r.len() as int);
    assert(image.subset_of(range));
    vstd::set_lib::lemma_subset_equality(image, range);
    assert forall|i: int, j: int| 0 <= i < j < r.len() implies r[i].id@ != r[j].id@ by {
        assert(range.contains(i));
        assert(range.contains(j));
        assert(image.contains(i));
        assert(image.contains(j));
        let ki = choose|k: Seq<char>| dom.contains(k) && f(k) == i;
        let kj = choose|k: Seq<char>| dom.contains(k) && f(k) == j;
        assert(r[i].id@ == ki);
        assert(r[j].id@ == kj);
    }
}

/// The text of an optional header value.
pub open spec fn view_of_auth(auth: Option<&str>) -> Option<Seq<char>> {
    match auth {
        Some(a) => Some(a@),
        None => None,
    }
}

impl AppState {
    /// The registries are consistent: the task map is finite and keyed by the
    /// tasks' own ids.
    pub open spec fn wf(self) -> bool {
        &&& tasks_keyed_by_id(self@.tasks)
        &&& self@.tasks.dom().finite()
    }

    /// Empty registries with the DingTalk configuration loaded at start.
    pub fn new(dingtalk_config: Option<DingTalkConfig>) -> (r: AppState)
        ensures
            r.wf(),
            tasks_keyed_by_id(r@.tasks),
            r@.sessions.dom() == Set::<Seq<char>>::empty(),
            r@.clients.dom() == Set::<Seq<char>>::empty(),
            r@.tasks.dom() == Set::<Seq<char>>::empty(),
            r@.dingtalk_config == dingtalk_config,
    {
        let r = AppState {
            sessions: new_session_map(),
            client_pool: new_client_map(),
            task_handles: new_task_map(),
            dingtalk_config,
        };
        assert(task_entries(r.task_handles).dom() =~= Set::empty());
        r
    }

    /// The web token of an `Authorization` header value.
    pub fn bearer_token(auth: Option<&str>) -> (r: Option<String>)
        ensures
            r matches Some(t) ==> auth_token(view_of_auth(auth)) == Some(t@),
            r is None ==> auth_token(view_of_auth(auth)) is None,
    {
        proof {
            reveal_strlit("");
        }
        let a = match auth {
            Some(a) => a,
            None => "",
        };
        assert(a@ == (match view_of_auth(auth) {
            Some(x) => x,
            None => Seq::empty(),
        }));
        strip_prefix_exec(a, "Bearer ")
    }

    /// The client of the user behind an `Authorization` header; `Unauthorized`
    /// when the header names no session or the session's user has no client.
    pub fn get_client(&self, auth: Option<&str>) -> (r: Result<ZjuClient, AppError>)
        ensures
            r matches Ok(c) ==> resolve_client(self@, view_of_auth(auth)) == Some(c@),
            r is Err ==> resolve_client(self@, view_of_auth(auth)) is None,
            r matches Err(e) ==> e is Unauthorized,
    {
        let token = match Self::bearer_token(auth) {
            Some(t) => t,
            None => {
                return Err(AppError::Unauthorized);
            },
        };
        let username = match get_session(&self.sessions, token.as_str()) {
            Some(u) => u,
            None => {
                return Err(AppError::Unauthorized);
            },
        };
        match get_client_entry(&self.client_pool, username.as_str()) {
            Some(c) => Ok(c),
            None => Err(AppError::Unauthorized),
        }
    }

    /// The user behind an `Authorization` header.
    pub fn get_user_info(&self, auth: Option<&str>) -> (r: Result<UserInfo, AppError>)
        ensures
            r matches Ok(u) ==> resolve_client(self@, view_of_auth(auth)) matches Some(c) && u.uid@
                == c.uid && u.name@ == c.name,
            r is Err ==> resolve_client(self@, view_of_auth(auth)) is None,
            r matches Err(e) ==> e is Unauthorized,
    {
        match self.get_client(auth) {
            Ok(c) => Ok(UserInfo { uid: c.uid, name: c.name }),
            Err(e) => Err(e),
        }
    }

    /// The pooled client of a student number, if any.
    pub fn cached_client(&self, username: &str) -> (r: Option<ZjuClient>)
        ensures
            r is Some <==> self@.clients.contains_key(username@),
            r matches Some(c) ==> c@ == self@.clients[username@],
    {
        get_client_entry(&self.client_pool, username)
    }

    /// Opens a web session: `token` now names `username`. A client that the
    /// caller got from a fresh CAS login (`fresh`) is pooled for the user, in
    /// place of any pooled before; without one the user's pooled client is
    /// reused, and where none is pooled nothing changes and the answer is
    /// `None`: the caller must log in afresh. Answers with the user of the
    /// client that the token now resolves to.
    pub fn login(&mut self, username: String, token: String, fresh: Option<ZjuClient>) -> (r:
        Option<UserInfo>)
        requires
            old(self).wf(),
        ensures
            final(self).wf(),
            r is Some <==> (fresh is Some || old(self)@.clients.contains_key(username@)),
            final(self)@.sessions == (if r is Some {
                old(self)@.sessions.insert(token@, username@)
            } else {
                old(self)@.sessions
            }),
            final(self)@.clients == (match fresh {
                Some(c) => old(self)@.clients.insert(username@, c@),
                None => old(self)@.clients,
            }),
            final(self)@.tasks == old(self)@.tasks,
            final(self)@.dingtalk_config == old(self)@.dingtalk_config,
            r is Some ==> resolve_client(final(self)@, Some("Bearer "@ + token@)) == Some(
                final(self)@.clients[username@],
            ),
            r matches Some(info) ==> info.uid@ == final(self)@.clients[username@].uid && info.name@
                == final(self)@.clients[username@].name,
            forall|t: Seq<char>| t != token@ ==> #[trigger] keeps_session(old(self)@, final(self)@, t),
    {
        proof {
            lemma_auth_token_of_bearer(token@);
        }
        match fresh {
            Some(c) => {
                let info = UserInfo { uid: c.uid.clone(), name: c.name.clone() };
                let key = username.clone();
                insert_client(&mut self.client_pool, key, c);
                insert_session(&mut self.sessions, token, username);
                Some(info)
            },
            None => match get_client_entry(&self.client_pool, username.as_str()) {
                Some(p) => {
                    insert_session(&mut self.sessions, token, username);
                    Some(UserInfo { uid: p.uid, name: p.name })
                },
                None => None,
            },
        }
    }

    /// Pools `client` for `username`, in place of any pooled before: a worker
    /// shares the client of its fresh CAS login with the web side.
    pub fn pool_client(&mut self, username: String, client: ZjuClient)
        requires
            old(self).wf(),
        ensures
            final(self).wf(),
            final(self)@.clients == old(self)@.clients.insert(username@, client@),
            final(self)@.sessions == old(self)@.sessions,
            final(self)@.tasks == old(self)@.tasks,
            final(self)@.dingtalk_config == old(self)@.dingtalk_config,
            forall|t: Seq<char>| #[trigger] keeps_session(old(self)@, final(self)@, t),
    {
        insert_client(&mut self.client_pool, username, client);
    }

    /// Closes the web session named by an `Authorization` header, if any; the
    /// pooled client stays for the workers.
    pub fn logout(&mut self, auth: Option<&str>)
        requires
            old(self).wf(),
        ensures
            final(self).wf(),
            final(self)@.sessions == (match auth_token(view_of_auth(auth)) {
                Some(t) => old(self)@.sessions.remove(t),
                None => old(self)@.sessions,
            }),
            auth_token(view_of_auth(auth)) matches Some(t) ==> resolve_client(
                final(self)@,
                view_of_auth(auth),
            ) is None,
            final(self)@.clients == old(self)@.clients,
            final(self)@.tasks == old(self)@.tasks,
            final(self)@.dingtalk_config == old(self)@.dingtalk_config,
            forall|t: Seq<char>|
                auth_token(view_of_auth(auth)) != Some(t) ==> #[trigger] keeps_session(
                    old(self)@,
                    final(self)@,
                    t,
                ),
    {
        match Self::bearer_token(auth) {
            Some(t) => remove_session(&mut self.sessions, t.as_str()),
            None => {},
        }
    }

    /// Registers a running task under its id.
    pub fn add_task(&mut self, task: TaskInfo)
        requires
            old(self).wf(),
        ensures
            final(self).wf(),
            tasks_keyed_by_id(final(self)@.tasks),
            final(self)@.tasks == old(self)@.tasks.insert(task.id@, task),
            final(self)@.sessions == old(self)@.sessions,
            final(self)@.clients == old(self)@.clients,
            final(self)@.dingtalk_config == old(self)@.dingtalk_config,
            forall|t: Seq<char>| #[trigger] keeps_session(old(self)@, final(self)@, t),
    {
        let key = task.id.clone();
        insert_task_entry(&mut self.task_handles, key, task);
    }

    /// The running tasks, each once, in no particular order: every task is
    /// stored under its own id, and no two listed tasks share an id.
    pub fn list_tasks(&self) -> (r: Vec<TaskInfo>)
        requires
            self.wf(),
        ensures
            tasks_keyed_by_id(self@.tasks),
            r@.len() == self@.tasks.dom().len(),
            forall|i: int|
                0 <= i < r@.len() ==> self@.tasks.contains_key(r@[i].id@) && self@.tasks[r@[i].id@]
                    == r@[i],
            forall|k: Seq<char>|
                self@.tasks.contains_key(k) ==> exists|i: int|
                    0 <= i < r@.len() && r@[i] == #[trigger] self@.tasks[k],
            forall|i: int, j: int| 0 <= i < j < r@.len() ==> r@[i].id@ != r@[j].id@,
    {
        let r = task_values(&self.task_handles);
        assert forall|i: int| 0 <= i < r@.len() implies self@.tasks.contains_key(r@[i].id@)
            && self@.tasks[r@[i].id@] == r@[i] by {
            let k = choose|k: Seq<char>|
                task_entries(self.task_handles).contains_key(k) && task_entries(self.task_handles)[k]
                    == r@[i];
            assert(task_entries(self.task_handles)[k].id@ == k);
        }
        proof {
            lemma_listed_ids_distinct(self@.tasks, r@);
        }
        r
    }

    /// Forgets the task `id`; a task that is not running is refused.
    pub fn delete_task(&mut self, id: &str) -> (r: Result<(), AppError>)
        requires
            old(self).wf(),
        ensures
            final(self).wf(),
            r is Ok <==> old(self)@.tasks.contains_key(id@),
            r matches Err(e) ==> e matches AppError::Business(m) && m@ == "找不到指定任务"@,
            final(self)@.tasks == old(self)@.tasks.remove(id@),
            final(self)@.sessions == old(self)@.sessions,
            final(self)@.clients == old(self)@.clients,
            final(self)@.dingtalk_config == old(self)@.dingtalk_config,
            forall|t: Seq<char>| #[trigger] keeps_session(old(self)@, final(self)@, t),
    {
        if remove_task_entry(&mut self.task_handles, id) {
            Ok(())
        } else {
            Err(AppError::Business("找不到指定任务".to_owned()))
        }
    }

    /// The cached DingTalk configuration.
    pub fn dingtalk_config(&self) -> (r: &Option<DingTalkConfig>)
        ensures
            *r == self@.dingtalk_config,
    {
        &self.dingtalk_config
    }

    /// Replaces the cached DingTalk configuration.
    pub fn set_dingtalk_config(&mut self, config: DingTalkConfig)
        requires
            old(self).wf(),
        ensures
            final(self).wf(),
            config_update(old(self)@, config, final(self)@),
            forall|t: Seq<char>| #[trigger] keeps_session(old(self)@, final(self)@, t),
    {
        self.dingtalk_config = Some(config);
    }
}

} // verus!

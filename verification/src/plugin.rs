use vstd::prelude::*;
use crate::error::Error;

verus! {

/// What a plugin declares about itself.
#[derive(Debug, Clone, PartialEq, Eq)]
pub struct PluginManifest {
    pub id: String,
    pub name: String,
    pub version: String,
    pub min_api_version: u32,
    pub author: String,
    pub description: String,
    pub permissions: Vec<String>,
    pub main: String,
}

/// The message with which a build without a script runtime refuses plugins.
pub open spec fn no_runtime_message() -> Seq<char> {
    "Plugin runtime not available. Rebuild with 'plugin-runtime' feature."@
}

/// The plugin host of a build without a script runtime: it runs no plugin and
/// grants nothing.
#[derive(Debug, Clone, Copy, PartialEq, Eq, Structural)]
pub struct PluginManager;

impl PluginManager {
    /// A host with no plugins.
    pub fn new() -> (r: PluginManager)
        ensures
            r == PluginManager,
    {
        PluginManager
    }

    /// Refuses to load any plugin: there is no runtime to run it.
    pub fn load_plugin(&self, manifest: &PluginManifest, source: &str) -> (r: Result<(), Error>)
        ensures
            r matches Err(Error::InvalidOperation(m)) && m@ == no_runtime_message(),
    {
        Err(
            Error::InvalidOperation(
                String::from_str(
                    "Plugin runtime not available. Rebuild with 'plugin-runtime' feature.",
                ),
            ),
        )
    }

    /// Unloading always succeeds: nothing is loaded.
    pub fn unload_plugin(&self, plugin_id: &str) -> (r: Result<(), Error>)
        ensures
            r is Ok,
    {
        Ok(())
    }

    /// No plugin holds any permission.
    pub fn has_permission(&self, plugin_id: &str, permission: &str) -> (r: bool)
        ensures
            !r,
    {
        false
    }

    /// No plugin is loaded.
    pub fn plugin_count(&self) -> (r: usize)
        ensures
            r == 0,
    {
        0
    }
}

impl Default for PluginManager {
    fn default() -> (r: PluginManager) {
        PluginManager::new()
    }
}

/// The permissions each loaded plugin was granted, as a plugin host with a
/// script runtime keeps them: one entry per plugin id, a reload replacing the
/// earlier grant.
#[derive(Debug)]
pub struct PluginRegistry {
    pub entries: Vec<(String, Vec<String>)>,
}

/// The texts of a list of permissions.
pub open spec fn perm_views(v: Seq<String>) -> Seq<Seq<char>> {
    v.map_values(|p: String| p@)
}

/// The grants of a registry, by plugin id.
pub open spec fn grants(entries: Seq<(String, Vec<String>)>) -> Map<Seq<char>, Seq<Seq<char>>>
    decreases entries.len(),
{
    if entries.len() == 0 {
        Map::empty()
    } else {
        grants(entries.drop_last()).insert(
            entries.last().0@,
            perm_views(entries.last().1@),
        )
    }
}

/// No plugin id appears twice.
pub open spec fn ids_unique(entries: Seq<(String, Vec<String>)>) -> bool {
    forall|i: int, j: int| 0 <= i < j < entries.len() ==> entries[i].0@ != entries[j].0@
}

proof fn lemma_grants_domain(entries: Seq<(String, Vec<String>)>, id: Seq<char>)
    ensures
        grants(entries).contains_key(id) <==> exists|i: int|
            0 <= i < entries.len() && #[trigger] entries[i].0@ == id,
    decreases entries.len(),
{
    if entries.len() > 0 {
        lemma_grants_domain(entries.drop_last(), id);
        if exists|i: int| 0 <= i < entries.len() && #[trigger] entries[i].0@ == id {
            let i = choose|i: int| 0 <= i < entries.len() && #[trigger] entries[i].0@ == id;
            if i < entries.len() - 1 {
                assert(entries.drop_last()[i] == entries[i]);
            }
        }
        if grants(entries.drop_last()).contains_key(id) {
            let i = choose|i: int|
                0 <= i < entries.drop_last().len() && #[trigger] entries.drop_last()[i].0@ == id;
            assert(entries[i] == entries.drop_last()[i]);
        }
    }
}

proof fn lemma_grants_value(entries: Seq<(String, Vec<String>)>, i: int)
    requires
        ids_unique(entries),
        0 <= i < entries.len(),
    ensures
        grants(entries).contains_key(entries[i].0@),
        grants(entries)[entries[i].0@] == perm_views(entries[i].1@),
    decreases entries.len(),
{
    if i < entries.len() - 1 {
        assert(entries.drop_last()[i] == entries[i]);
        lemma_grants_value(entries.drop_last(), i);
    }
}

impl PluginRegistry {
    /// A registry with no plugin.
    pub fn new() -> (r: PluginRegistry)
        ensures
            r.entries@.len() == 0,
            grants(r.entries@) == Map::<Seq<char>, Seq<Seq<char>>>::empty(),
    {
        PluginRegistry { entries: Vec::new() }
    }

    /// Where the plugin `id` stands in the registry, if it is there.
    fn position(&self, id: &str) -> (r: Option<usize>)
        ensures
            r matches Some(i) ==> i < self.entries@.len() && self.entries@[i as int].0@ == id@,
            r is None ==> forall|i: int| 0 <= i < self.entries@.len() ==> self.entries@[i].0@ != id@,
    {
        let mut i: usize = 0;
        while i < self.entries.len()
            invariant
                i <= self.entries@.len(),
                forall|j: int| 0 <= j < i ==> self.entries@[j].0@ != id@,
            decreases self.entries.len() - i,
        {
            if crate::text::str_eq(self.entries[i].0.as_str(), id) {
                return Some(i);
            }
            i = i + 1;
        }
        None
    }

    /// Records the permissions granted to a loaded plugin, replacing any
    /// earlier grant to the same id.
    pub fn grant(&mut self, id: String, permissions: Vec<String>)
        requires
            ids_unique(old(self).entries@),
        ensures
            ids_unique(final(self).entries@),
            grants(final(self).entries@) == grants(old(self).entries@).insert(
                id@,
                perm_views(permissions@),
            ),
    {
        let ghost before = self.entries@;
        if let Some(i) = self.position(id.as_str()) {
            self.entries.remove(i);
            proof {
                lemma_remove_grant(before, i as int);
            }
        }
        let ghost mid = self.entries@;
        let ghost idv = id@;
        self.entries.push((id, permissions));
        proof {
            assert(self.entries@.drop_last() =~= mid);
            lemma_grants_domain(mid, idv);
        }
    }

    /// Forgets an unloaded plugin.
    pub fn revoke(&mut self, id: &str)
        requires
            ids_unique(old(self).entries@),
        ensures
            ids_unique(final(self).entries@),
            grants(final(self).entries@) == grants(old(self).entries@).remove(id@),
    {
        let ghost before = self.entries@;
        match self.position(id) {
            Some(i) => {
                self.entries.remove(i);
                proof {
                    lemma_remove_grant(before, i as int);
                }
            },
            None => {
                proof {
                    lemma_grants_domain(before, id@);
                    assert(grants(before).remove(id@) =~= grants(before));
                }
            },
        }
    }

    /// Whether the loaded plugin `id` was granted `permission`.
    pub fn has_permission(&self, id: &str, permission: &str) -> (r: bool)
        requires
            ids_unique(self.entries@),
        ensures
            r == holds_permission(grants(self.entries@), id@, permission@),
    {
        proof {
            lemma_grants_domain(self.entries@, id@);
        }
        match self.position(id) {
            None => false,
            Some(i) => {
                proof {
                    lemma_grants_value(self.entries@, i as int);
                }
                let perms = &self.entries[i].1;
                let ghost pv = perm_views(perms@);
                let mut k: usize = 0;
                while k < perms.len()
                    invariant
                        k <= perms@.len(),
                        pv == perm_views(perms@),
                        grants(self.entries@).contains_key(id@),
                        grants(self.entries@)[id@] == pv,
                        forall|j: int| 0 <= j < k ==> perms@[j]@ != permission@,
                    decreases perms.len() - k,
                {
                    if crate::text::str_eq(perms[k].as_str(), permission) {
                        assert(pv[k as int] == permission@);
                        assert(pv.contains(permission@));
                        return true;
                    }
                    k = k + 1;
                }
                proof {
                    if pv.contains(permission@) {
                        let j = choose|j: int| 0 <= j < pv.len() && pv[j] == permission@;
                        assert(perms@[j]@ == permission@);
                    }
                }
                false
            },
        }
    }

    /// How many plugins are loaded.
    pub fn plugin_count(&self) -> (r: usize)
        ensures
            r == self.entries@.len(),
    {
        self.entries.len()
    }
}

proof fn lemma_remove_grant(entries: Seq<(String, Vec<String>)>, i: int)
    requires
        ids_unique(entries),
        0 <= i < entries.len(),
    ensures
        ids_unique(entries.remove(i)),
        grants(entries.remove(i)) == grants(entries).remove(entries[i].0@),
    decreases entries.len(),
{
    let n = entries.len();
    let init = entries.drop_last();
    let k = entries[i].0@;
    if i == n - 1 {
        assert(entries.remove(i) =~= init);
        lemma_grants_domain(init, k);
        assert(grants(entries).remove(k) =~= grants(init));
    } else {
        assert(init[i] == entries[i]);
        lemma_remove_grant(init, i);
        assert(entries.remove(i) =~= init.remove(i).push(entries.last()));
        assert(entries.remove(i).drop_last() =~= init.remove(i));
        assert(k != entries.last().0@);
        assert(grants(entries.remove(i)) =~= grants(entries).remove(k));
    }
    assert forall|a: int, b: int| 0 <= a < b < entries.remove(i).len() implies entries.remove(
        i,
    )[a].0@ != entries.remove(i)[b].0@ by {
        let a2 = if a < i { a } else { a + 1 };
        let b2 = if b < i { b } else { b + 1 };
        assert(entries.remove(i)[a] == entries[a2]);
        assert(entries.remove(i)[b] == entries[b2]);
    }
}

/// What `has_permission` answers for `id` and `permission` of a registry
/// whose grants are `g`.
pub open spec fn holds_permission(
    g: Map<Seq<char>, Seq<Seq<char>>>,
    id: Seq<char>,
    permission: Seq<char>,
) -> bool {
    g.contains_key(id) && g[id].contains(permission)
}

/// A plugin holds exactly the permissions of its latest grant until it is
/// revoked, and none after; granting or revoking one plugin leaves every
/// other plugin's permissions as they were. (`e0`, `e1`, `e2` are the entries
/// before, after `grant(id, perms)`, and after `revoke(id)`, as their
/// contracts relate them.)
pub proof fn law_grant_then_revoke(
    e0: Seq<(String, Vec<String>)>,
    e1: Seq<(String, Vec<String>)>,
    e2: Seq<(String, Vec<String>)>,
    id: Seq<char>,
    perms: Seq<Seq<char>>,
    other: Seq<char>,
    permission: Seq<char>,
)
    requires
        grants(e1) == grants(e0).insert(id, perms),
        grants(e2) == grants(e1).remove(id),
        other != id,
    ensures
        holds_permission(grants(e1), id, permission) == perms.contains(permission),
        !holds_permission(grants(e2), id, permission),
        holds_permission(grants(e1), other, permission) == holds_permission(
            grants(e0),
            other,
            permission,
        ),
        holds_permission(grants(e2), other, permission) == holds_permission(
            grants(e0),
            other,
            permission,
        ),
{
}

/// Whether `perms` lists `permission`.
pub fn lists_permission(perms: &Vec<String>, permission: &str) -> (r: bool)
    ensures
        r == perm_views(perms@).contains(permission@),
{
    let ghost pv = perm_views(perms@);
    let mut k: usize = 0;
    while k < perms.len()
        invariant
            k <= perms@.len(),
            pv == perm_views(perms@),
            forall|j: int| 0 <= j < k ==> perms@[j]@ != permission@,
        decreases perms.len() - k,
    {
        if crate::text::str_eq(perms[k].as_str(), permission) {
            assert(pv[k as int] == permission@);
            return true;
        }
        k = k + 1;
    }
    proof {
        if pv.contains(permission@) {
            let j = choose|j: int| 0 <= j < pv.len() && pv[j] == permission@;
            assert(perms@[j]@ == permission@);
        }
    }
    false
}

/// The texts of a list of names.
pub open spec fn name_views(v: Seq<String>) -> Seq<Seq<char>> {
    v.map_values(|n: String| n@)
}

/// The functions of the `ui` API a plugin granted `perms` is given: command
/// and view registration only with their permissions, navigation and
/// notifications always.
pub open spec fn ui_api_spec(perms: Seq<Seq<char>>) -> Seq<Seq<char>> {
    (if perms.contains("ui:register-command"@) {
        seq!["registerCommand"@]
    } else {
        Seq::empty()
    }) + (if perms.contains("ui:register-view"@) {
        seq!["registerView"@]
    } else {
        Seq::empty()
    }) + seq!["navigateToNode"@, "showNotification"@]
}

/// The functions of the `nodes` API a plugin granted `perms` is given:
/// reading with `node:read`, writing with `node:write`.
pub open spec fn nodes_api_spec(perms: Seq<Seq<char>>) -> Seq<Seq<char>> {
    (if perms.contains("node:read"@) {
        seq!["get"@, "getChildren"@]
    } else {
        Seq::empty()
    }) + (if perms.contains("node:write"@) {
        seq!["create"@, "update"@]
    } else {
        Seq::empty()
    })
}

/// The names of the `ui` functions a plugin granted `perms` is given.
pub fn ui_api_functions(perms: &Vec<String>) -> (r: Vec<String>)
    ensures
        name_views(r@) == ui_api_spec(perm_views(perms@)),
{
    let mut out: Vec<String> = Vec::new();
    if lists_permission(perms, "ui:register-command") {
        out.push(String::from_str("registerCommand"));
    }
    if lists_permission(perms, "ui:register-view") {
        out.push(String::from_str("registerView"));
    }
    out.push(String::from_str("navigateToNode"));
    out.push(String::from_str("showNotification"));
    proof {
        assert(name_views(out@) =~= ui_api_spec(perm_views(perms@)));
    }
    out
}

/// The names of the `nodes` functions a plugin granted `perms` is given.
pub fn nodes_api_functions(perms: &Vec<String>) -> (r: Vec<String>)
    ensures
        name_views(r@) == nodes_api_spec(perm_views(perms@)),
{
    let mut out: Vec<String> = Vec::new();
    if lists_permission(perms, "node:read") {
        out.push(String::from_str("get"));
        out.push(String::from_str("getChildren"));
    }
    if lists_permission(perms, "node:write") {
        out.push(String::from_str("create"));
        out.push(String::from_str("update"));
    }
    proof {
        assert(name_views(out@) =~= nodes_api_spec(perm_views(perms@)));
    }
    out
}

/// A plugin without a permission is not given the functions it guards:
/// no writing without `node:write`, no reading without `node:read`, no
/// command registration without `ui:register-command`.
pub proof fn law_functions_follow_permissions(perms: Seq<Seq<char>>)
    ensures
        !perms.contains("node:write"@) ==> !nodes_api_spec(perms).contains("create"@)
            && !nodes_api_spec(perms).contains("update"@),
        !perms.contains("node:read"@) ==> !nodes_api_spec(perms).contains("get"@)
            && !nodes_api_spec(perms).contains("getChildren"@),
        !perms.contains("ui:register-command"@) ==> !ui_api_spec(perms).contains(
            "registerCommand"@,
        ),
        ui_api_spec(perms).contains("navigateToNode"@),
{
    reveal_strlit("create");
    reveal_strlit("update");
    reveal_strlit("get");
    reveal_strlit("getChildren");
    reveal_strlit("registerCommand");
    reveal_strlit("registerView");
    reveal_strlit("navigateToNode");
    reveal_strlit("showNotification");
    let n = nodes_api_spec(perms);
    let u = ui_api_spec(perms);
    assert(u[u.len() - 2] == "navigateToNode"@);
    if !perms.contains("node:write"@) {
        assert forall|i: int| 0 <= i < n.len() implies n[i] != "create"@ && n[i] != "update"@ by {
            assert(n[i] == "get"@ || n[i] == "getChildren"@);
            assert("get"@.len() != "create"@.len());
            assert("getChildren"@.len() != "create"@.len());
            assert("get"@.len() != "update"@.len());
            assert("getChildren"@.len() != "update"@.len());
        }
    }
    if !perms.contains("node:read"@) {
        assert forall|i: int| 0 <= i < n.len() implies n[i] != "get"@ && n[i] != "getChildren"@ by {
            assert(n[i] == "create"@ || n[i] == "update"@);
            assert("get"@.len() != "create"@.len());
            assert("getChildren"@.len() != "create"@.len());
            assert("get"@.len() != "update"@.len());
            assert("getChildren"@.len() != "update"@.len());
        }
    }
    if !perms.contains("ui:register-command"@) {
        assert forall|i: int| 0 <= i < u.len() implies u[i] != "registerCommand"@ by {
            assert(u[i] == "registerView"@ || u[i] == "navigateToNode"@ || u[i]
                == "showNotification"@);
            assert("registerView"@[8] != "registerCommand"@[8]);
            assert("navigateToNode"@.len() != "registerCommand"@.len());
            assert("showNotification"@.len() != "registerCommand"@.len());
        }
    }
}

/// The id of the event listener registered as number `n`.
pub open spec fn listener_id_spec(n: nat) -> Seq<char> {
    "listener-"@ + crate::text::decimal_seq(n)
}

/// Numbers the event listeners a plugin registers.
#[derive(Debug)]
pub struct ListenerIds {
    pub next: u32,
}

impl ListenerIds {
    /// A plugin that has registered no listener yet.
    pub fn new() -> (r: ListenerIds)
        ensures
            r.next == 0,
    {
        ListenerIds { next: 0 }
    }

    /// Registers a listener: gives it the id `listener-<n>` for the next
    /// number `n`, and counts it.
    pub fn register(&mut self) -> (id: String)
        requires
            old(self).next < u32::MAX,
        ensures
            id@ == listener_id_spec(old(self).next as nat),
            final(self).next == old(self).next + 1,
    {
        let n = self.next;
        self.next = n + 1;
        let digits = crate::text::u64_to_decimal(n as u64);
        proof {
            reveal_strlit("listener-");
        }
        crate::backup::concat2("listener-", digits.as_str())
    }
}

/// Listeners registered under different numbers get different ids, so an id
/// names one listener.
pub proof fn law_listener_ids_are_distinct(a: nat, b: nat)
    requires
        a != b,
    ensures
        listener_id_spec(a) != listener_id_spec(b),
{
    let p = "listener-"@;
    if listener_id_spec(a) == listener_id_spec(b) {
        assert(crate::text::decimal_seq(a) =~= listener_id_spec(a).skip(p.len() as int));
        assert(crate::text::decimal_seq(b) =~= listener_id_spec(b).skip(p.len() as int));
        crate::text::lemma_decimal_injective(a, b);
    }
}

/// The key-value storage a plugin's script keeps for itself, one value per
/// key.
#[derive(Debug)]
pub struct PluginStore {
    pub entries: Vec<(String, String)>,
}

/// What a store holds, by key.
pub open spec fn store_map(entries: Seq<(String, String)>) -> Map<Seq<char>, Seq<char>>
    decreases entries.len(),
{
    if entries.len() == 0 {
        Map::empty()
    } else {
        store_map(entries.drop_last()).insert(entries.last().0@, entries.last().1@)
    }
}

/// No key appears twice.
pub open spec fn store_keys_unique(entries: Seq<(String, String)>) -> bool {
    forall|i: int, j: int| 0 <= i < j < entries.len() ==> entries[i].0@ != entries[j].0@
}

/// What reading `key` from a store holding `m` gives.
pub open spec fn store_get(m: Map<Seq<char>, Seq<char>>, key: Seq<char>) -> Option<Seq<char>> {
    if m.contains_key(key) {
        Some(m[key])
    } else {
        None
    }
}

proof fn lemma_store_domain(entries: Seq<(String, String)>, key: Seq<char>)
    ensures
        store_map(entries).contains_key(key) <==> exists|i: int|
            0 <= i < entries.len() && #[trigger] entries[i].0@ == key,
    decreases entries.len(),
{
    if entries.len() > 0 {
        lemma_store_domain(entries.drop_last(), key);
        if exists|i: int| 0 <= i < entries.len() && #[trigger] entries[i].0@ == key {
            let i = choose|i: int| 0 <= i < entries.len() && #[trigger] entries[i].0@ == key;
            if i < entries.len() - 1 {
                assert(entries.drop_last()[i] == entries[i]);
            }
        }
        if store_map(entries.drop_last()).contains_key(key) {
            let i = choose|i: int|
                0 <= i < entries.drop_last().len() && #[trigger] entries.drop_last()[i].0@ == key;
            assert(entries[i] == entries.drop_last()[i]);
        }
    }
}

proof fn lemma_store_value(entries: Seq<(String, String)>, i: int)
    requires
        store_keys_unique(entries),
        0 <= i < entries.len(),
    ensures
        store_map(entries).contains_key(entries[i].0@),
        store_map(entries)[entries[i].0@] == entries[i].1@,
    decreases entries.len(),
{
    if i < entries.len() - 1 {
        assert(entries.drop_last()[i] == entries[i]);
        lemma_store_value(entries.drop_last(), i);
    }
}

proof fn lemma_store_update(entries: Seq<(String, String)>, i: int, item: (String, String))
    requires
        store_keys_unique(entries),
        0 <= i < entries.len(),
        item.0@ == entries[i].0@,
    ensures
        store_keys_unique(entries.update(i, item)),
        store_map(entries.update(i, item)) == store_map(entries).insert(item.0@, item.1@),
    decreases entries.len(),
{
    let n = entries.len();
    let init = entries.drop_last();
    let updated = entries.update(i, item);
    if i == n - 1 {
        assert(updated.drop_last() =~= init);
        assert(store_map(updated) =~= store_map(entries).insert(item.0@, item.1@));
    } else {
        assert(init[i] == entries[i]);
        lemma_store_update(init, i, item);
        assert(updated.drop_last() =~= init.update(i, item));
        assert(entries.last().0@ != item.0@);
        assert(store_map(updated) =~= store_map(entries).insert(item.0@, item.1@));
    }
    assert forall|a: int, b: int| 0 <= a < b < updated.len() implies updated[a].0@
        != updated[b].0@ by {
        assert(updated[a].0@ == entries[a].0@);
        assert(updated[b].0@ == entries[b].0@);
    }
}

impl PluginStore {
    /// An empty store.
    pub fn new() -> (r: PluginStore)
        ensures
            store_keys_unique(r.entries@),
            store_map(r.entries@) == Map::<Seq<char>, Seq<char>>::empty(),
    {
        PluginStore { entries: Vec::new() }
    }

    /// Where `key` stands in the store, if it is there.
    fn position(&self, key: &str) -> (r: Option<usize>)
        ensures
            r matches Some(i) ==> i < self.entries@.len() && self.entries@[i as int].0@ == key@,
            r is None ==> forall|i: int| 0 <= i < self.entries@.len() ==> self.entries@[i].0@ != key@,
    {
        let mut i: usize = 0;
        while i < self.entries.len()
            invariant
                i <= self.entries@.len(),
                forall|j: int| 0 <= j < i ==> self.entries@[j].0@ != key@,
            decreases self.entries.len() - i,
        {
            if crate::text::str_eq(self.entries[i].0.as_str(), key) {
                return Some(i);
            }
            i = i + 1;
        }
        None
    }

    /// The value stored under `key`, if any.
    pub fn get(&self, key: &str) -> (r: Option<String>)
        requires
            store_keys_unique(self.entries@),
        ensures
            match r {
                Some(v) => store_get(store_map(self.entries@), key@) == Some(v@),
                None => store_get(store_map(self.entries@), key@) is None,
            },
    {
        proof {
            lemma_store_domain(self.entries@, key@);
        }
        match self.position(key) {
            Some(i) => {
                proof {
                    lemma_store_value(self.entries@, i as int);
                }
                Some(self.entries[i].1.clone())
            },
            None => None,
        }
    }

    /// Stores `value` under `key`, replacing what was there.
    pub fn set(&mut self, key: String, value: String)
        requires
            store_keys_unique(old(self).entries@),
        ensures
            store_keys_unique(final(self).entries@),
            store_map(final(self).entries@) == store_map(old(self).entries@).insert(key@, value@),
    {
        let ghost before = self.entries@;
        match self.position(key.as_str()) {
            Some(i) => {
                let ghost item = (key, value);
                proof {
                    lemma_store_update(before, i as int, item);
                }
                self.entries.set(i, (key, value));
                proof {
                    assert(self.entries@ =~= before.update(i as int, item));
                }
            },
            None => {
                let ghost kv = key@;
                self.entries.push((key, value));
                proof {
                    assert(self.entries@.drop_last() =~= before);
                    lemma_store_domain(before, kv);
                }
            },
        }
    }
}

/// What a script reads back from its storage is what it last wrote under
/// that key, and writing one key leaves every other key as it was. (`before`
/// and `after` are the entries around `set(key, value)`, as its contract
/// relates them.)
pub proof fn law_read_after_write(
    before: Seq<(String, String)>,
    after: Seq<(String, String)>,
    key: Seq<char>,
    value: Seq<char>,
    other: Seq<char>,
)
    requires
        store_map(after) == store_map(before).insert(key, value),
        other != key,
    ensures
        store_get(store_map(after), key) == Some(value),
        store_get(store_map(after), other) == store_get(store_map(before), other),
{
}

} // verus!

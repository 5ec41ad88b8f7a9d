//! The life of plugins: which ones run, what is stored about them, and what
//! happens when one is enabled, restored or shut down.
//!
//! Running plugins live outside; the manager knows each by its owner, its id
//! and the number of the slot in which it lives.
use vstd::prelude::*;
use vstd::string::*;

use crate::error::ChannelError;
use crate::json;
use crate::json::{get_member, JsonNode};
use crate::text::str_eq;
use crate::types;
use crate::types::{copy_opt, PluginCredentials, PluginStatus, PluginType, UnifiedIncomingMessage};

verus! {

// ---------------------------------------------------------------------------
// Running plugins
// ---------------------------------------------------------------------------

/// `dashmap::DashMap`, a map that threads share. What it holds is not seen here.
#[verifier::external_type_specification]
#[verifier::external_body]
#[verifier::reject_recursive_types(K)]
#[verifier::reject_recursive_types(V)]
#[verifier::reject_recursive_types(S)]
pub struct ExDashMap<K, V, S>(dashmap::DashMap<K, V, S>);

/// A table of running plugins: their slots, by owner and plugin.
pub type SlotTable = dashmap::DashMap<(String, String), u64>;

/// The slots that a table of running plugins holds, by owner and plugin.
pub uninterp spec fn slots(table: SlotTable) -> Map<(Seq<char>, Seq<char>), u64>;

/// No plugin runs.
pub open spec fn no_slots() -> Map<(Seq<char>, Seq<char>), u64> {
    Map::empty()
}

/// `dashmap::DashMap::new`: the table without entries.
#[verifier::external_body]
fn new_table() -> (r: SlotTable)
    ensures
        slots(r) == no_slots(),
{
    dashmap::DashMap::new()
}

/// `dashmap::DashMap::insert`: puts a slot under a key, in the place of one that
/// stood there.
#[verifier::external_body]
fn put_slot(table: &mut SlotTable, owner: &str, plugin: &str, slot: u64)
    ensures
        slots(*final(table)) == slots(*old(table)).insert((owner@, plugin@), slot),
{
    table.insert((owner.to_owned(), plugin.to_owned()), slot);
}

/// `dashmap::DashMap::remove`: takes a key out and gives its slot back, where it
/// was there.
#[verifier::external_body]
fn take_slot(table: &mut SlotTable, owner: &str, plugin: &str) -> (r: Option<u64>)
    ensures
        slots(*final(table)) == slots(*old(table)).remove((owner@, plugin@)),
        match r {
            Some(slot) => slots(*old(table)).dom().contains((owner@, plugin@)) && slots(*old(table))[(owner@, plugin@)]
                == slot,
            None => !slots(*old(table)).dom().contains((owner@, plugin@)),
        },
{
    table.remove(&(owner.to_owned(), plugin.to_owned())).map(|entry| entry.1)
}

/// `dashmap::DashMap::get`: the slot of a key, where it is there.
#[verifier::external_body]
fn find_slot(table: &SlotTable, owner: &str, plugin: &str) -> (r: Option<u64>)
    ensures
        match r {
            Some(slot) => slots(*table).dom().contains((owner@, plugin@)) && slots(*table)[(owner@, plugin@)] == slot,
            None => !slots(*table).dom().contains((owner@, plugin@)),
        },
{
    table.get(&(owner.to_owned(), plugin.to_owned())).map(|slot| *slot)
}

/// What a list of keys holds.
pub open spec fn key_views(keys: Seq<ChannelRuntimeKey>) -> Seq<(Seq<char>, Seq<char>)> {
    keys.map_values(|k: ChannelRuntimeKey| k@)
}

/// `dashmap::DashMap::iter`: every key of the table once, in no particular
/// order.
#[verifier::external_body]
fn all_keys(table: &SlotTable) -> (r: Vec<ChannelRuntimeKey>)
    ensures
        key_views(r@).no_duplicates(),
        key_views(r@).to_set() == slots(*table).dom(),
{
    table.iter().map(
        |entry| ChannelRuntimeKey { owner_user_id: entry.key().0.clone(), plugin_id: entry.key().1.clone() },
    ).collect()
}

/// Which plugin of which owner.
#[derive(Debug, PartialEq, Eq, Hash)]
pub struct ChannelRuntimeKey {
    pub owner_user_id: String,
    pub plugin_id: String,
}

impl View for ChannelRuntimeKey {
    type V = (Seq<char>, Seq<char>);

    open spec fn view(&self) -> (Seq<char>, Seq<char>) {
        (self.owner_user_id@, self.plugin_id@)
    }
}

impl ChannelRuntimeKey {
    /// The key of a plugin of an owner. The two parts stay apart.
    pub fn new(owner_user_id: &str, plugin_id: &str) -> (r: Self)
        ensures
            r@ == (owner_user_id@, plugin_id@),
    {
        ChannelRuntimeKey { owner_user_id: owner_user_id.to_owned(), plugin_id: plugin_id.to_owned() }
    }
}

/// The plugins that run.
pub struct ChannelManager {
    table: SlotTable,
}

impl View for ChannelManager {
    type V = Map<(Seq<char>, Seq<char>), u64>;

    closed spec fn view(&self) -> Map<(Seq<char>, Seq<char>), u64> {
        slots(self.table)
    }
}

/// Whether a plugin belongs to an owner; to any where none is named.
pub open spec fn belongs_to(key: (Seq<char>, Seq<char>), owner_user_id: Option<Seq<char>>) -> bool {
    match owner_user_id {
        Some(o) => key.0 == o,
        None => true,
    }
}

/// The plugins that run, without those of one owner; none where no owner is
/// named.
pub open spec fn without(m: Map<(Seq<char>, Seq<char>), u64>, owner_user_id: Option<Seq<char>>) -> Map<
    (Seq<char>, Seq<char>),
    u64,
> {
    Map::new(
        |key: (Seq<char>, Seq<char>)| m.dom().contains(key) && !belongs_to(key, owner_user_id),
        |key: (Seq<char>, Seq<char>)| m[key],
    )
}

/// Whether `keys` lists each plugin of an owner once, and `found` their slots.
pub open spec fn are_slots_of(
    m: Map<(Seq<char>, Seq<char>), u64>,
    owner_user_id: Option<Seq<char>>,
    keys: Seq<(Seq<char>, Seq<char>)>,
    found: Seq<u64>,
) -> bool {
    &&& keys.no_duplicates()
    &&& keys.to_set() == m.dom().filter(|key: (Seq<char>, Seq<char>)| belongs_to(key, owner_user_id))
    &&& found == keys.map_values(|key: (Seq<char>, Seq<char>)| m[key])
}

impl ChannelManager {
    /// Nothing runs.
    pub fn new() -> (r: Self)
        ensures
            r@ == no_slots(),
    {
        ChannelManager { table: new_table() }
    }

    /// A plugin has started in a slot.
    pub fn started(&mut self, owner_user_id: &str, plugin_id: &str, slot: u64)
        ensures
            final(self)@ == old(self)@.insert((owner_user_id@, plugin_id@), slot),
    {
        put_slot(&mut self.table, owner_user_id, plugin_id, slot);
    }

    /// The slot of a plugin that runs.
    pub fn slot(&self, owner_user_id: &str, plugin_id: &str) -> (r: Option<u64>)
        ensures
            match r {
                Some(slot) => self@.dom().contains((owner_user_id@, plugin_id@)) && self@[(owner_user_id@, plugin_id@)]
                    == slot,
                None => !self@.dom().contains((owner_user_id@, plugin_id@)),
            },
    {
        find_slot(&self.table, owner_user_id, plugin_id)
    }

    /// The slot of a plugin that a message goes through.
    pub fn sender(&self, owner_user_id: &str, plugin_id: &str) -> (r: Result<u64, ChannelError>)
        ensures
            match r {
                Ok(slot) => self@.dom().contains((owner_user_id@, plugin_id@)) && self@[(owner_user_id@, plugin_id@)]
                    == slot,
                Err(e) => !self@.dom().contains((owner_user_id@, plugin_id@)) && e@
                    == crate::error::ErrorView::PluginNotFound(plugin_id@),
            },
    {
        match find_slot(&self.table, owner_user_id, plugin_id) {
            Some(slot) => Ok(slot),
            None => Err(ChannelError::PluginNotFound(plugin_id.to_owned())),
        }
    }

    /// Takes a plugin out, to be stopped; nothing where it does not run.
    pub fn stop_plugin(&mut self, owner_user_id: &str, plugin_id: &str) -> (r: Option<u64>)
        ensures
            final(self)@ == old(self)@.remove((owner_user_id@, plugin_id@)),
            match r {
                Some(slot) => old(self)@.dom().contains((owner_user_id@, plugin_id@)) && old(self)@[(
                    owner_user_id@,
                    plugin_id@,
                )] == slot,
                None => !old(self)@.dom().contains((owner_user_id@, plugin_id@)),
            },
    {
        take_slot(&mut self.table, owner_user_id, plugin_id)
    }

    /// How many plugins run.
    pub fn active_plugin_count(&self) -> (r: usize)
        ensures
            self@.dom().finite(),
            r == self@.dom().len(),
    {
        let keys = all_keys(&self.table);
        proof {
            key_views(keys@).unique_seq_to_set();
            vstd::seq_lib::seq_to_set_is_finite(key_views(keys@));
        }
        keys.len()
    }

    /// Takes out every plugin, or every plugin of one owner, to be stopped.
    fn stop_all(&mut self, owner_user_id: Option<&str>) -> (r: Vec<u64>)
        ensures
            final(self)@ == without(old(self)@, types::opt_str(owner_user_id)),
            exists|keys: Seq<(Seq<char>, Seq<char>)>|
                are_slots_of(old(self)@, types::opt_str(owner_user_id), keys, r@),
    {
        let keys = all_keys(&self.table);
        let ghost owner = types::opt_str(owner_user_id);
        let ghost views = key_views(keys@);
        let ghost before = self@;
        let mut out: Vec<u64> = Vec::new();
        let ghost mut taken: Seq<(Seq<char>, Seq<char>)> = Seq::empty();
        let mut i: usize = 0;
        while i < keys.len()
            invariant
                i <= keys.len(),
                owner == types::opt_str(owner_user_id),
                views == key_views(keys@),
                views.no_duplicates(),
                views.to_set() == before.dom(),
                taken == views.take(i as int).filter(|key: (Seq<char>, Seq<char>)| belongs_to(key, owner)),
                out@ == taken.map_values(|key: (Seq<char>, Seq<char>)| before[key]),
                forall|key: (Seq<char>, Seq<char>)| #[trigger]
                    self@.dom().contains(key) <==> before.dom().contains(key) && !(belongs_to(key, owner)
                        && views.take(i as int).contains(key)),
                forall|key: (Seq<char>, Seq<char>)| #[trigger]
                    self@.dom().contains(key) ==> self@[key] == before[key],
            decreases keys.len() - i,
        {
            let key: &ChannelRuntimeKey = &keys[i];
            let ghost mine = |key: (Seq<char>, Seq<char>)| belongs_to(key, owner);
            proof {
                reveal(Seq::filter);
                assert(views[i as int] == key@);
                assert(views.to_set().contains(views[i as int]));
                assert(views.take(i + 1).drop_last() =~= views.take(i as int));
                assert(views.take(i + 1).last() == key@);
                let earlier = views.take(i as int);
                let upto = views.take(i + 1);
                assert forall|x: (Seq<char>, Seq<char>)| #[trigger] upto.contains(x) <==> earlier.contains(x) || x
                    == key@ by {
                    if earlier.contains(x) {
                        let k = choose|k: int| 0 <= k < earlier.len() && earlier[k] == x;
                        assert(upto[k] == x);
                    }
                    if upto.contains(x) {
                        let k = choose|k: int| 0 <= k < upto.len() && upto[k] == x;
                        if k < i {
                            assert(earlier[k] == x);
                        }
                    }
                    assert(upto[i as int] == key@);
                }
                assert(!views.take(i as int).contains(key@)) by {
                    if views.take(i as int).contains(key@) {
                        let k = choose|k: int| 0 <= k < i && views.take(i as int)[k] == key@;
                        assert(views[k] == views[i as int]);
                    }
                }
            }
            let wanted = match owner_user_id {
                Some(o) => str_eq(key.owner_user_id.as_str(), o),
                None => true,
            };
            assert(wanted == belongs_to(key@, owner));
            if wanted {
                assert(self@.dom().contains(key@));
                if let Some(slot) = take_slot(&mut self.table, key.owner_user_id.as_str(), key.plugin_id.as_str()) {
                    out.push(slot);
                }
                proof {
                    taken = taken.push(key@);
                    assert(out@ =~= taken.map_values(|key: (Seq<char>, Seq<char>)| before[key]));
                }
            }
            i += 1;
        }
        proof {
            let mine = |key: (Seq<char>, Seq<char>)| belongs_to(key, owner);
            assert(views.take(views.len() as int) =~= views);
            lemma_filter_no_duplicates(views, mine);
            assert(taken.to_set() =~= before.dom().filter(mine)) by {
                assert forall|x: (Seq<char>, Seq<char>)| taken.to_set().contains(x) == before.dom().filter(
                    mine,
                ).contains(x) by {
                    if taken.contains(x) {
                        let k = choose|k: int| 0 <= k < taken.len() && taken[k] == x;
                        views.lemma_filter_pred(mine, k);
                        views.lemma_filter_contains_rev(mine, x);
                        assert(views.to_set().contains(x));
                    }
                    if before.dom().filter(mine).contains(x) {
                        assert(views.to_set().contains(x));
                        let k = choose|k: int| 0 <= k < views.len() && views[k] == x;
                        views.lemma_filter_contains(mine, k);
                    }
                }
            }
            assert(are_slots_of(before, owner, taken, out@));
            assert forall|key: (Seq<char>, Seq<char>)| #[trigger] self@.dom().contains(key) == without(
                before,
                owner,
            ).dom().contains(key) by {
                if before.dom().contains(key) {
                    assert(views.to_set().contains(key));
                }
            }
            assert(self@ =~= without(before, owner));
        }
        out
    }

    /// Takes out every plugin of one owner, to be stopped. Those of other owners
    /// go on.
    pub fn shutdown_for_user(&mut self, owner_user_id: &str) -> (r: Vec<u64>)
        ensures
            final(self)@ == without(old(self)@, Some(owner_user_id@)),
            exists|keys: Seq<(Seq<char>, Seq<char>)>|
                are_slots_of(old(self)@, Some(owner_user_id@), keys, r@),
    {
        self.stop_all(Some(owner_user_id))
    }

    /// Takes out every plugin, to be stopped.
    pub fn shutdown(&mut self) -> (r: Vec<u64>)
        ensures
            final(self)@ == no_slots(),
            exists|keys: Seq<(Seq<char>, Seq<char>)>| are_slots_of(old(self)@, None, keys, r@),
    {
        let r = self.stop_all(None);
        assert(self@ =~= no_slots());
        r
    }
}

proof fn lemma_filter_no_duplicates(s: Seq<(Seq<char>, Seq<char>)>, p: spec_fn((Seq<char>, Seq<char>)) -> bool)
    requires
        s.no_duplicates(),
    ensures
        s.filter(p).no_duplicates(),
    decreases s.len(),
{
    reveal(Seq::filter);
    if s.len() > 0 {
        let rest = s.drop_last();
        assert(rest.no_duplicates()) by {
            assert forall|i: int, j: int| 0 <= i < rest.len() && 0 <= j < rest.len() && i != j implies rest[i]
                != rest[j] by {
                assert(s[i] != s[j]);
            }
        }
        lemma_filter_no_duplicates(rest, p);
        if p(s.last()) {
            let kept = rest.filter(p);
            assert forall|k: int| 0 <= k < kept.len() implies kept[k] != s.last() by {
                assert(kept.contains(kept[k]));
                rest.lemma_filter_contains_rev(p, kept[k]);
                let j = choose|j: int| 0 <= j < rest.len() && rest[j] == kept[k];
                assert(s[j] != s[s.len() - 1]);
            }
        }
    }
}

impl ChannelManager {
    /// A plugin runs where it is in the table and its own status says so.
    pub fn is_plugin_running(&self, owner_user_id: &str, plugin_id: &str, live: Option<PluginStatus>) -> (r: bool)
        ensures
            r == (self@.dom().contains((owner_user_id@, plugin_id@)) && live == Some(PluginStatus::Running)),
    {
        match self.slot(owner_user_id, plugin_id) {
            None => false,
            Some(_) => match live {
                Some(PluginStatus::Running) => true,
                _ => false,
            },
        }
    }
}

// ---------------------------------------------------------------------------
// Stored plugins
// ---------------------------------------------------------------------------

/// What is stored about a plugin. Its configuration is encrypted.
#[derive(Debug, PartialEq, Eq)]
pub struct PluginRow {
    pub id: String,
    pub owner_user_id: String,
    pub plugin_type: String,
    pub name: String,
    pub enabled: bool,
    pub config: String,
    pub status: Option<String>,
    pub last_connected: Option<i64>,
    pub created_at: i64,
    pub updated_at: i64,
}

/// What a stored plugin holds.
pub struct RowView {
    pub id: Seq<char>,
    pub owner_user_id: Seq<char>,
    pub plugin_type: Seq<char>,
    pub name: Seq<char>,
    pub enabled: bool,
    pub config: Seq<char>,
    pub status: Option<Seq<char>>,
    pub last_connected: Option<i64>,
    pub created_at: i64,
    pub updated_at: i64,
}

impl View for PluginRow {
    type V = RowView;

    open spec fn view(&self) -> RowView {
        RowView {
            id: self.id@,
            owner_user_id: self.owner_user_id@,
            plugin_type: self.plugin_type@,
            name: self.name@,
            enabled: self.enabled,
            config: self.config@,
            status: types::opt_text(self.status),
            last_connected: self.last_connected,
            created_at: self.created_at,
            updated_at: self.updated_at,
        }
    }
}

/// The name under which a plugin is shown.
pub open spec fn plugin_name(t: PluginType) -> Seq<char> {
    match t {
        PluginType::Telegram => "Telegram Bot"@,
        PluginType::Lark => "Lark Bot"@,
        PluginType::Dingtalk => "DingTalk Bot"@,
        PluginType::Weixin => "WeChat Bot"@,
        PluginType::Slack => "Slack Bot"@,
        PluginType::Discord => "Discord Bot"@,
    }
}

impl ChannelManager {
    /// The name under which a plugin is shown.
    pub fn default_plugin_name(plugin_type: PluginType) -> (r: String)
        ensures
            r@ == plugin_name(plugin_type),
    {
        match plugin_type {
            PluginType::Telegram => "Telegram Bot".to_owned(),
            PluginType::Lark => "Lark Bot".to_owned(),
            PluginType::Dingtalk => "DingTalk Bot".to_owned(),
            PluginType::Weixin => "WeChat Bot".to_owned(),
            PluginType::Slack => "Slack Bot".to_owned(),
            PluginType::Discord => "Discord Bot".to_owned(),
        }
    }
}

/// What is stored when a plugin is enabled.
pub open spec fn enabled_row(
    owner_user_id: Seq<char>,
    plugin_id: Seq<char>,
    plugin_type: PluginType,
    config: Seq<char>,
    now: i64,
) -> RowView {
    RowView {
        id: plugin_id,
        owner_user_id,
        plugin_type: types::plugin_type_text(plugin_type),
        name: plugin_name(plugin_type),
        enabled: true,
        config,
        status: Some(types::plugin_status_text(PluginStatus::Created)),
        last_connected: None,
        created_at: now,
        updated_at: now,
    }
}

/// What is stored when a plugin is enabled.
pub fn build_enabled_row(owner_user_id: &str, plugin_id: &str, plugin_type: PluginType, config: &str, now: i64) -> (r:
    PluginRow)
    ensures
        r@ == enabled_row(owner_user_id@, plugin_id@, plugin_type, config@, now),
{
    PluginRow {
        id: plugin_id.to_owned(),
        owner_user_id: owner_user_id.to_owned(),
        plugin_type: plugin_type.as_str().to_owned(),
        name: ChannelManager::default_plugin_name(plugin_type),
        enabled: true,
        config: config.to_owned(),
        status: Some(PluginStatus::Created.as_str().to_owned()),
        last_connected: None,
        created_at: now,
        updated_at: now,
    }
}

/// What is stored when an extension's plugin is enabled: it does not run, and
/// keeps its history.
pub open spec fn extension_row(
    owner_user_id: Seq<char>,
    plugin_id: Seq<char>,
    name: Seq<char>,
    config: Seq<char>,
    existing: Option<RowView>,
    now: i64,
) -> RowView {
    RowView {
        id: plugin_id,
        owner_user_id,
        plugin_type: plugin_id,
        name,
        enabled: true,
        config,
        status: Some(types::plugin_status_text(PluginStatus::Stopped)),
        last_connected: match existing {
            Some(e) => e.last_connected,
            None => None,
        },
        created_at: match existing {
            Some(e) => e.created_at,
            None => now,
        },
        updated_at: now,
    }
}

impl ChannelManager {
    /// What is stored when an extension's plugin is enabled.
    pub fn enable_extension_plugin(
        owner_user_id: &str,
        plugin_id: &str,
        plugin_name: &str,
        config: &str,
        existing: Option<&PluginRow>,
        now: i64,
    ) -> (r: PluginRow)
        ensures
            r@ == extension_row(
                owner_user_id@,
                plugin_id@,
                plugin_name@,
                config@,
                match existing {
                    Some(e) => Some(e@),
                    None => None,
                },
                now,
            ),
    {
        PluginRow {
            id: plugin_id.to_owned(),
            owner_user_id: owner_user_id.to_owned(),
            plugin_type: plugin_id.to_owned(),
            name: plugin_name.to_owned(),
            enabled: true,
            config: config.to_owned(),
            status: Some(PluginStatus::Stopped.as_str().to_owned()),
            last_connected: match existing {
                Some(e) => e.last_connected,
                None => None,
            },
            created_at: match existing {
                Some(e) => e.created_at,
                None => now,
            },
            updated_at: now,
        }
    }
}

/// A change to what is stored about a plugin; what is not named stays.
#[derive(Clone, Copy, Debug, PartialEq, Eq, Structural)]
pub struct StatusUpdate {
    pub status: Option<PluginStatus>,
    pub last_connected: Option<i64>,
    pub enabled: Option<bool>,
}

/// What is stored about a plugin after a change.
pub open spec fn row_after(row: RowView, update: StatusUpdate) -> RowView {
    RowView {
        status: match update.status {
            Some(s) => Some(types::plugin_status_text(s)),
            None => row.status,
        },
        last_connected: match update.last_connected {
            Some(t) => Some(t),
            None => row.last_connected,
        },
        enabled: match update.enabled {
            Some(e) => e,
            None => row.enabled,
        },
        ..row
    }
}

/// The change when a plugin has connected.
pub fn running_update(now: i64) -> (r: StatusUpdate)
    ensures
        r == (StatusUpdate { status: Some(PluginStatus::Running), last_connected: Some(now), enabled: None }),
{
    StatusUpdate { status: Some(PluginStatus::Running), last_connected: Some(now), enabled: None }
}

impl ChannelManager {
    /// The change when a plugin has failed.
    pub fn update_plugin_error() -> (r: StatusUpdate)
        ensures
            r == (StatusUpdate { status: Some(PluginStatus::Error), last_connected: None, enabled: None }),
    {
        StatusUpdate { status: Some(PluginStatus::Error), last_connected: None, enabled: None }
    }

    /// The change when a plugin is disabled. A plugin that does not run and is
    /// stored as off needs none: nothing is stopped, stored or told about.
    pub fn disable_plugin(&self, owner_user_id: &str, plugin_id: &str, row: Option<&PluginRow>) -> (r: Option<
        StatusUpdate,
    >)
        ensures
            r == if disable_needed(
                match row {
                    Some(x) => Some(x@),
                    None => None,
                },
                self@.dom().contains((owner_user_id@, plugin_id@)),
            ) {
                Some(switch_off())
            } else {
                None
            },
    {
        let running = self.slot(owner_user_id, plugin_id).is_some();
        let off = match row {
            Some(x) => !x.enabled && (match &x.status {
                Some(s) => str_eq(s.as_str(), PluginStatus::Stopped.as_str()),
                None => false,
            }),
            None => false,
        };
        if running || !off {
            Some(StatusUpdate { status: Some(PluginStatus::Stopped), last_connected: None, enabled: Some(false) })
        } else {
            None
        }
    }
}

/// The change that switches a plugin off.
pub open spec fn switch_off() -> StatusUpdate {
    StatusUpdate { status: Some(PluginStatus::Stopped), last_connected: None, enabled: Some(false) }
}

/// Whether a plugin has to be switched off: it runs, or is not stored as off.
pub open spec fn disable_needed(row: Option<RowView>, running: bool) -> bool {
    ||| running
    ||| match row {
        Some(r) => r.enabled || r.status != Some(types::plugin_status_text(PluginStatus::Stopped)),
        None => true,
    }
}

/// Once a plugin is disabled, disabling it again does nothing; and where nothing
/// is done, the plugin is stored as it would be after it.
pub proof fn law_disable_is_idempotent(row: RowView)
    ensures
        !disable_needed(Some(row_after(row, switch_off())), false),
        !disable_needed(Some(row), false) ==> row_after(row, switch_off()) == row,
{
}

// ---------------------------------------------------------------------------
// Reports
// ---------------------------------------------------------------------------

/// What is told about a plugin.
#[derive(Debug, PartialEq, Eq)]
pub struct PluginStatusReport {
    pub plugin_id: String,
    pub plugin_type: String,
    pub name: String,
    pub enabled: bool,
    pub status: Option<String>,
    pub last_connected: Option<i64>,
    pub created_at: i64,
    pub updated_at: i64,
    pub connected: bool,
    pub has_token: bool,
    pub bot_username: Option<String>,
    pub active_users: u64,
}

/// What a report holds.
pub struct ReportView {
    pub plugin_id: Seq<char>,
    pub plugin_type: Seq<char>,
    pub name: Seq<char>,
    pub enabled: bool,
    pub status: Option<Seq<char>>,
    pub last_connected: Option<i64>,
    pub created_at: i64,
    pub updated_at: i64,
    pub connected: bool,
    pub has_token: bool,
    pub bot_username: Option<Seq<char>>,
    pub active_users: u64,
}

impl View for PluginStatusReport {
    type V = ReportView;

    open spec fn view(&self) -> ReportView {
        ReportView {
            plugin_id: self.plugin_id@,
            plugin_type: self.plugin_type@,
            name: self.name@,
            enabled: self.enabled,
            status: types::opt_text(self.status),
            last_connected: self.last_connected,
            created_at: self.created_at,
            updated_at: self.updated_at,
            connected: self.connected,
            has_token: self.has_token,
            bot_username: types::opt_text(self.bot_username),
            active_users: self.active_users,
        }
    }
}

/// What is told about a stored plugin: the status of the running one goes before
/// the stored status.
pub open spec fn report_of(row: RowView, running: bool, live: Option<PluginStatus>) -> ReportView {
    ReportView {
        plugin_id: row.id,
        plugin_type: row.plugin_type,
        name: row.name,
        enabled: row.enabled,
        status: match live {
            Some(s) => Some(types::plugin_status_text(s)),
            None => row.status,
        },
        last_connected: row.last_connected,
        created_at: row.created_at,
        updated_at: row.updated_at,
        connected: running,
        has_token: row.config.len() > 0,
        bot_username: None,
        active_users: 0,
    }
}

impl ChannelManager {
    /// What is told about a stored plugin. `live` is the status that the running
    /// plugin gives of itself.
    pub fn row_to_status_response(&self, row: &PluginRow, live: Option<PluginStatus>) -> (r: PluginStatusReport)
        ensures
            r@ == report_of(row@, self@.dom().contains((row.owner_user_id@, row.id@)), live),
    {
        PluginStatusReport {
            plugin_id: row.id.clone(),
            plugin_type: row.plugin_type.clone(),
            name: row.name.clone(),
            enabled: row.enabled,
            status: match live {
                Some(s) => Some(s.as_str().to_owned()),
                None => copy_opt(&row.status),
            },
            last_connected: row.last_connected,
            created_at: row.created_at,
            updated_at: row.updated_at,
            connected: self.slot(row.owner_user_id.as_str(), row.id.as_str()).is_some(),
            has_token: !row.config.as_str().is_empty(),
            bot_username: None,
            active_users: 0,
        }
    }
}

/// What reports hold.
pub open spec fn report_views(reports: Seq<PluginStatusReport>) -> Seq<ReportView> {
    reports.map_values(|r: PluginStatusReport| r@)
}

/// What is told about stored plugins, each with the status that the running
/// plugin gives of itself.
pub open spec fn reports_of(
    m: Map<(Seq<char>, Seq<char>), u64>,
    rows: Seq<PluginRow>,
    live: Seq<Option<PluginStatus>>,
) -> Seq<ReportView> {
    Seq::new(
        rows.len(),
        |i: int| report_of(rows[i]@, m.dom().contains((rows[i].owner_user_id@, rows[i].id@)), live[i]),
    )
}

impl ChannelManager {
    /// What is told about stored plugins, in their order. `live` holds for each
    /// the status that the running plugin gives of itself.
    pub fn get_plugin_status(&self, rows: &Vec<PluginRow>, live: &Vec<Option<PluginStatus>>) -> (r: Vec<
        PluginStatusReport,
    >)
        requires
            rows.len() == live.len(),
        ensures
            report_views(r@) == reports_of(self@, rows@, live@),
    {
        let mut out: Vec<PluginStatusReport> = Vec::new();
        let mut i: usize = 0;
        while i < rows.len()
            invariant
                i <= rows.len(),
                rows.len() == live.len(),
                out@.len() == i,
                forall|k: int| 0 <= k < i ==> (#[trigger] out@[k])@ == reports_of(self@, rows@, live@)[k],
            decreases rows.len() - i,
        {
            out.push(self.row_to_status_response(&rows[i], live[i]));
            i += 1;
        }
        assert(report_views(out@) =~= reports_of(self@, rows@, live@));
        out
    }
}

// ---------------------------------------------------------------------------
// Enabling
// ---------------------------------------------------------------------------

/// The platform of a plugin id.
pub fn plugin_type_of(plugin_id: &str) -> (r: Result<PluginType, ChannelError>)
    ensures
        match r {
            Ok(t) => plugin_id@ == types::plugin_type_text(t),
            Err(e) => {
                &&& forall|t: PluginType| plugin_id@ != #[trigger] types::plugin_type_text(t)
                &&& e@ == crate::error::ErrorView::InvalidPluginType(plugin_id@)
            },
        },
{
    match PluginType::from_str_opt(plugin_id) {
        Some(t) => Ok(t),
        None => Err(ChannelError::InvalidPluginType(plugin_id.to_owned())),
    }
}

/// The error for a platform that nothing implements.
pub fn no_implementation(plugin_type: PluginType) -> (r: ChannelError)
    ensures
        r@ == crate::error::ErrorView::InvalidPluginType("No implementation for "@ + types::plugin_type_text(plugin_type)),
{
    let mut text = "No implementation for ".to_owned();
    text.append(plugin_type.as_str());
    ChannelError::InvalidPluginType(text)
}

/// Whether an optional text is missing or empty.
pub open spec fn is_blank(s: Option<Seq<char>>) -> bool {
    types::nonempty(s) is None
}

fn blank(s: &Option<String>) -> (r: bool)
    ensures
        r == is_blank(types::opt_text(*s)),
{
    match s {
        Some(t) => t.as_str().is_empty(),
        None => true,
    }
}

/// Whether credentials hold nothing.
pub open spec fn no_credentials(c: PluginCredentials) -> bool {
    &&& is_blank(types::opt_text(c.token))
    &&& is_blank(types::opt_text(c.app_id))
    &&& is_blank(types::opt_text(c.app_secret))
    &&& is_blank(types::opt_text(c.encrypt_key))
    &&& is_blank(types::opt_text(c.verification_token))
    &&& is_blank(types::opt_text(c.client_id))
    &&& is_blank(types::opt_text(c.client_secret))
    &&& is_blank(types::opt_text(c.account_id))
    &&& is_blank(types::opt_text(c.bot_token))
    &&& is_blank(types::opt_text(c.app_token))
    &&& c.extra.pairs().len() == 0
}

impl PluginCredentials {
    /// Whether these credentials hold nothing.
    pub fn is_empty(&self) -> (r: bool)
        ensures
            r == no_credentials(*self),
    {
        blank(&self.token) && blank(&self.app_id) && blank(&self.app_secret) && blank(&self.encrypt_key) && blank(
            &self.verification_token,
        ) && blank(&self.client_id) && blank(&self.client_secret) && blank(&self.account_id) && blank(&self.bot_token)
            && blank(&self.app_token) && self.extra.len() == 0
    }
}

/// Whether a configuration brings credentials: an object of that name that is
/// not empty.
pub open spec fn brings_credentials(member: Option<json::NodeView>) -> bool {
    match member {
        Some(json::NodeView::Object(members)) => members.len() > 0,
        _ => false,
    }
}

/// Whether this member brings credentials.
pub fn member_brings_credentials(member: &Option<JsonNode>) -> (r: bool)
    ensures
        r == brings_credentials(json::opt_node(*member)),
{
    match member {
        Some(JsonNode::Object(members)) => members.len() > 0,
        _ => false,
    }
}

/// Whether a configuration brings credentials.
pub fn credentials_supplied(config: &str) -> (r: bool)
    ensures
        r == brings_credentials(json::json_member(config@, "credentials"@)),
{
    member_brings_credentials(&get_member(config, "credentials"))
}

/// Which configuration a plugin is enabled with.
#[derive(Debug, PartialEq, Eq)]
pub enum ConfigChoice {
    /// The one that was supplied.
    Supplied,
    /// The one that is stored.
    Stored,
}

impl ChannelManager {
    /// Which configuration a plugin is enabled with: the supplied one where it holds
    /// credentials, and else the stored one. A configuration that brings credentials
    /// and cannot be read is an error.
    pub fn config_with_credentials(supplied: bool, parsed: Result<&PluginCredentials, &str>) -> (r: Result<
        ConfigChoice,
        ChannelError,
    >)
        ensures
            match r {
                Ok(ConfigChoice::Stored) => !supplied || (parsed matches Ok(c) && no_credentials(*c)),
                Ok(ConfigChoice::Supplied) => supplied && (parsed matches Ok(c) && !no_credentials(*c)),
                Err(e) => supplied && (parsed matches Err(why) && e@ == crate::error::ErrorView::InvalidConfig(
                    "Invalid config: "@ + why@,
                )),
            },
    {
        if !supplied {
            return Ok(ConfigChoice::Stored);
        }
        match parsed {
            Err(why) => {
                let mut text = "Invalid config: ".to_owned();
                text.append(why);
                Err(ChannelError::InvalidConfig(text))
            },
            Ok(c) => if c.is_empty() {
                Ok(ConfigChoice::Stored)
            } else {
                Ok(ConfigChoice::Supplied)
            },
        }
    }

    /// The stored configuration, still encrypted, where there is one.
    pub fn load_stored_config(plugin_id: &str, row: Option<&PluginRow>) -> (r: Result<String, ChannelError>)
        ensures
            match r {
                Ok(config) => row matches Some(x) && x.config@.len() > 0 && config@ == x.config@,
                Err(e) => (row matches Some(x) ==> x.config@.len() == 0) && e@ == crate::error::ErrorView::InvalidConfig(
                    "No credentials provided and no stored configuration for plugin '"@ + plugin_id@ + "'"@,
                ),
            },
    {
        match row {
            Some(x) => if !x.config.as_str().is_empty() {
                return Ok(x.config.clone());
            },
            None => {},
        }
        let mut text = "No credentials provided and no stored configuration for plugin '".to_owned();
        text.append(plugin_id);
        text.append("'");
        Err(ChannelError::InvalidConfig(text))
    }
}

/// How far a plugin is on its way to running.
#[derive(Clone, Copy, Debug, PartialEq, Eq, Structural)]
pub enum EnableStage {
    /// Its configuration is known.
    Configured,
    /// The one that ran before has been stopped.
    Stopped,
    /// It is stored.
    Stored,
    /// It has been made.
    Created,
    /// It knows its configuration.
    Initialized,
    /// It is connected.
    Started,
    /// It is stored as running.
    Recorded,
}

/// What to do next on the way to running.
#[derive(Clone, Copy, Debug, PartialEq, Eq, Structural)]
pub enum EnableStep {
    StopOld,
    Store,
    Create,
    Initialize,
    Start,
    RecordRunning,
    /// Put it into the table and tell about it.
    Publish,
}

/// The next step of a plugin on its way to running.
pub open spec fn next_enable_step(stage: EnableStage) -> EnableStep {
    match stage {
        EnableStage::Configured => EnableStep::StopOld,
        EnableStage::Stopped => EnableStep::Store,
        EnableStage::Stored => EnableStep::Create,
        EnableStage::Created => EnableStep::Initialize,
        EnableStage::Initialized => EnableStep::Start,
        EnableStage::Started => EnableStep::RecordRunning,
        EnableStage::Recorded => EnableStep::Publish,
    }
}

impl ChannelManager {
    /// The next step of a plugin on its way to running.
    pub fn enable_plugin(stage: EnableStage) -> (r: EnableStep)
        ensures
            r == next_enable_step(stage),
    {
        match stage {
            EnableStage::Configured => EnableStep::StopOld,
            EnableStage::Stopped => EnableStep::Store,
            EnableStage::Stored => EnableStep::Create,
            EnableStage::Created => EnableStep::Initialize,
            EnableStage::Initialized => EnableStep::Start,
            EnableStage::Started => EnableStep::RecordRunning,
            EnableStage::Recorded => EnableStep::Publish,
        }
    }
}

/// What follows a step on the way to running.
#[derive(Clone, Copy, Debug, PartialEq, Eq, Structural)]
pub enum EnableNext {
    /// The plugin has come to a further stage.
    Stage(EnableStage),
    /// It runs.
    Running,
    /// It does not, and the error is returned. Where there is an update, it is stored
    /// and told first.
    Failed(Option<StatusUpdate>),
}

/// What follows a step on the way to running. Only a plugin that has been made and
/// did not come up is stored as failed.
pub open spec fn next_enabled(step: EnableStep, ok: bool) -> EnableNext {
    if ok {
        match step {
            EnableStep::StopOld => EnableNext::Stage(EnableStage::Stopped),
            EnableStep::Store => EnableNext::Stage(EnableStage::Stored),
            EnableStep::Create => EnableNext::Stage(EnableStage::Created),
            EnableStep::Initialize => EnableNext::Stage(EnableStage::Initialized),
            EnableStep::Start => EnableNext::Stage(EnableStage::Started),
            EnableStep::RecordRunning => EnableNext::Stage(EnableStage::Recorded),
            EnableStep::Publish => EnableNext::Running,
        }
    } else if step == EnableStep::Initialize || step == EnableStep::Start {
        EnableNext::Failed(
            Some(StatusUpdate { status: Some(PluginStatus::Error), last_connected: None, enabled: None }),
        )
    } else {
        EnableNext::Failed(None)
    }
}

/// What follows a step on the way to running.
pub fn after_enable_step(step: EnableStep, ok: bool) -> (r: EnableNext)
    ensures
        r == next_enabled(step, ok),
{
    if !ok {
        return match step {
            EnableStep::Initialize | EnableStep::Start => EnableNext::Failed(
                Some(ChannelManager::update_plugin_error()),
            ),
            _ => EnableNext::Failed(None),
        };
    }
    match step {
        EnableStep::StopOld => EnableNext::Stage(EnableStage::Stopped),
        EnableStep::Store => EnableNext::Stage(EnableStage::Stored),
        EnableStep::Create => EnableNext::Stage(EnableStage::Created),
        EnableStep::Initialize => EnableNext::Stage(EnableStage::Initialized),
        EnableStep::Start => EnableNext::Stage(EnableStage::Started),
        EnableStep::RecordRunning => EnableNext::Stage(EnableStage::Recorded),
        EnableStep::Publish => EnableNext::Running,
    }
}

/// How many steps a plugin at a stage is from running.
pub open spec fn steps_left(stage: EnableStage) -> nat {
    match stage {
        EnableStage::Configured => 7,
        EnableStage::Stopped => 6,
        EnableStage::Stored => 5,
        EnableStage::Created => 4,
        EnableStage::Initialized => 3,
        EnableStage::Started => 2,
        EnableStage::Recorded => 1,
    }
}

/// The steps that are taken from a stage on, where `works` says of each whether it
/// succeeds, and how they end.
pub open spec fn enable_way(stage: EnableStage, works: spec_fn(EnableStep) -> bool) -> (Seq<EnableStep>, EnableNext)
    decreases steps_left(stage),
{
    let step = next_enable_step(stage);
    match next_enabled(step, works(step)) {
        EnableNext::Stage(next) => {
            let (rest, end) = enable_way(next, works);
            (seq![step] + rest, end)
        },
        end => (seq![step], end),
    }
}

/// A plugin that is enabled runs exactly if every step succeeds. It is stored with
/// the status of an error exactly if it was made and then did not initialize or did
/// not start; if an earlier step fails, or storing that it runs, nothing more is
/// stored about it.
pub proof fn law_enabled_if_all_succeeds(works: spec_fn(EnableStep) -> bool, row: RowView)
    ensures
        enable_way(EnableStage::Configured, works).1 == EnableNext::Running <==> forall|step: EnableStep| #[trigger]
            works(step),
        (enable_way(EnableStage::Configured, works).1 matches EnableNext::Failed(Some(_))) <==> {
            &&& works(EnableStep::StopOld)
            &&& works(EnableStep::Store)
            &&& works(EnableStep::Create)
            &&& !works(EnableStep::Initialize) || !works(EnableStep::Start)
        },
        enable_way(EnableStage::Configured, works).1 matches EnableNext::Failed(Some(update)) ==> row_after(row, update)
            == (RowView { status: Some(types::plugin_status_text(PluginStatus::Error)), ..row }),
{
    reveal_with_fuel(enable_way, 8);
    if enable_way(EnableStage::Configured, works).1 == EnableNext::Running {
        assert forall|step: EnableStep| #[trigger] works(step) by {
            match step {
                EnableStep::StopOld => {},
                EnableStep::Store => {},
                EnableStep::Create => {},
                EnableStep::Initialize => {},
                EnableStep::Start => {},
                EnableStep::RecordRunning => {},
                EnableStep::Publish => {},
            }
        }
    }
}

/// A plugin is kept among the running ones, by the step that publishes it, only
/// after all others have succeeded in their order: the one that ran before is
/// stopped, it is stored, made, initialized, started, and stored as running.
pub proof fn law_kept_last(works: spec_fn(EnableStep) -> bool)
    ensures
        enable_way(EnableStage::Configured, works).0.contains(EnableStep::Publish) ==> enable_way(
            EnableStage::Configured,
            works,
        ).0 == seq![
            EnableStep::StopOld,
            EnableStep::Store,
            EnableStep::Create,
            EnableStep::Initialize,
            EnableStep::Start,
            EnableStep::RecordRunning,
            EnableStep::Publish,
        ],
{
    reveal_with_fuel(enable_way, 8);
    let steps = enable_way(EnableStage::Configured, works).0;
    if steps.contains(EnableStep::Publish) {
        assert(steps =~= seq![
            EnableStep::StopOld,
            EnableStep::Store,
            EnableStep::Create,
            EnableStep::Initialize,
            EnableStep::Start,
            EnableStep::RecordRunning,
            EnableStep::Publish,
        ]);
    }
}

// ---------------------------------------------------------------------------
// Restoring
// ---------------------------------------------------------------------------

/// What happens to a stored plugin when the application starts.
#[derive(Clone, Copy, Debug, PartialEq, Eq, Structural)]
pub enum RestorePlan {
    /// Nothing: it is disabled.
    Leave,
    /// It is only told about: no platform runs it.
    Announce,
    /// It is started.
    Start(PluginType),
}

impl ChannelManager {
    /// What happens to a stored plugin when the application starts.
    pub fn restore_plugin(row: &PluginRow) -> (r: RestorePlan)
        ensures
            match r {
                RestorePlan::Leave => !row.enabled,
                RestorePlan::Announce => row.enabled && forall|t: PluginType|
                    row.plugin_type@ != #[trigger] types::plugin_type_text(t),
                RestorePlan::Start(t) => row.enabled && row.plugin_type@ == types::plugin_type_text(t),
            },
    {
        if !row.enabled {
            RestorePlan::Leave
        } else {
            match PluginType::from_str_opt(row.plugin_type.as_str()) {
                Some(t) => RestorePlan::Start(t),
                None => RestorePlan::Announce,
            }
        }
    }
}

/// How far a stored plugin is on its way back to running.
#[derive(Clone, Copy, Debug, PartialEq, Eq, Structural)]
pub enum RestoreStage {
    /// It is to be started.
    Planned,
    /// Its configuration is known.
    Opened,
    /// The plugin has been made.
    Created,
    /// It has been initialized.
    Initialized,
    /// It has been started.
    Started,
    /// It is stored as running.
    Recorded,
}

/// What to do next for a stored plugin on its way back to running.
#[derive(Clone, Copy, Debug, PartialEq, Eq, Structural)]
pub enum RestoreStep {
    /// Read its stored configuration.
    Open,
    /// Make the plugin.
    Create,
    /// Initialize it.
    Initialize,
    /// Start it.
    Start,
    /// Store that it runs.
    RecordRunning,
    /// Keep it among the running ones and tell about it.
    Publish,
}

/// The next step of a stored plugin on its way back to running.
pub open spec fn next_restore_step(stage: RestoreStage) -> RestoreStep {
    match stage {
        RestoreStage::Planned => RestoreStep::Open,
        RestoreStage::Opened => RestoreStep::Create,
        RestoreStage::Created => RestoreStep::Initialize,
        RestoreStage::Initialized => RestoreStep::Start,
        RestoreStage::Started => RestoreStep::RecordRunning,
        RestoreStage::Recorded => RestoreStep::Publish,
    }
}

/// Where a step leads that succeeded; nowhere further once the plugin is kept.
pub open spec fn stage_after(step: RestoreStep) -> Option<RestoreStage> {
    match step {
        RestoreStep::Open => Some(RestoreStage::Opened),
        RestoreStep::Create => Some(RestoreStage::Created),
        RestoreStep::Initialize => Some(RestoreStage::Initialized),
        RestoreStep::Start => Some(RestoreStage::Started),
        RestoreStep::RecordRunning => Some(RestoreStage::Recorded),
        RestoreStep::Publish => None,
    }
}

/// The next step of a stored plugin on its way back to running.
pub fn restore_step(stage: RestoreStage) -> (r: RestoreStep)
    ensures
        r == next_restore_step(stage),
{
    match stage {
        RestoreStage::Planned => RestoreStep::Open,
        RestoreStage::Opened => RestoreStep::Create,
        RestoreStage::Created => RestoreStep::Initialize,
        RestoreStage::Initialized => RestoreStep::Start,
        RestoreStage::Started => RestoreStep::RecordRunning,
        RestoreStage::Recorded => RestoreStep::Publish,
    }
}

/// What follows a step on the way back to running.
#[derive(Clone, Copy, Debug, PartialEq, Eq, Structural)]
pub enum RestoreNext {
    /// The plugin has come to a further stage.
    Stage(RestoreStage),
    /// It runs again.
    Running,
    /// It does not; this is stored about it and told.
    Failed(StatusUpdate),
}

/// What follows a step on the way back to running. Whichever step fails, the plugin
/// is stored as failed.
pub open spec fn next_restored(step: RestoreStep, ok: bool) -> RestoreNext {
    if !ok {
        RestoreNext::Failed(
            StatusUpdate { status: Some(PluginStatus::Error), last_connected: None, enabled: None },
        )
    } else {
        match stage_after(step) {
            Some(stage) => RestoreNext::Stage(stage),
            None => RestoreNext::Running,
        }
    }
}

/// What follows a step on the way back to running.
pub fn after_restore_step(step: RestoreStep, ok: bool) -> (r: RestoreNext)
    ensures
        r == next_restored(step, ok),
{
    if !ok {
        return RestoreNext::Failed(ChannelManager::update_plugin_error());
    }
    match step {
        RestoreStep::Open => RestoreNext::Stage(RestoreStage::Opened),
        RestoreStep::Create => RestoreNext::Stage(RestoreStage::Created),
        RestoreStep::Initialize => RestoreNext::Stage(RestoreStage::Initialized),
        RestoreStep::Start => RestoreNext::Stage(RestoreStage::Started),
        RestoreStep::RecordRunning => RestoreNext::Stage(RestoreStage::Recorded),
        RestoreStep::Publish => RestoreNext::Running,
    }
}

/// How the way of a stored plugin ends that has come to a stage, where `works` says
/// of each step whether it succeeds.
pub open spec fn restore_end(stage: RestoreStage, works: spec_fn(RestoreStep) -> bool) -> RestoreNext
    decreases
            (match stage {
                RestoreStage::Planned => 6nat,
                RestoreStage::Opened => 5,
                RestoreStage::Created => 4,
                RestoreStage::Initialized => 3,
                RestoreStage::Started => 2,
                RestoreStage::Recorded => 1,
            }),
{
    let step = next_restore_step(stage);
    match next_restored(step, works(step)) {
        RestoreNext::Stage(next) => restore_end(next, works),
        end => end,
    }
}

/// A stored plugin runs again exactly if every step succeeds: its configuration
/// opens, it can be made, it initializes, it starts, and that is stored. Otherwise
/// it ends as one that failed, and is stored with that status.
pub proof fn law_restored_if_all_succeeds(works: spec_fn(RestoreStep) -> bool, row: RowView)
    ensures
        restore_end(RestoreStage::Planned, works) == RestoreNext::Running <==> {
            &&& works(RestoreStep::Open)
            &&& works(RestoreStep::Create)
            &&& works(RestoreStep::Initialize)
            &&& works(RestoreStep::Start)
            &&& works(RestoreStep::RecordRunning)
            &&& works(RestoreStep::Publish)
        },
        restore_end(RestoreStage::Planned, works) != RestoreNext::Running ==> (restore_end(
            RestoreStage::Planned,
            works,
        ) matches RestoreNext::Failed(update) && row_after(row, update) == (RowView {
            status: Some(types::plugin_status_text(PluginStatus::Error)),
            ..row
        })),
{
    reveal_with_fuel(restore_end, 7);
}

/// A message with the owner of the plugin through which it came.
pub fn tag_owner(msg: UnifiedIncomingMessage, owner_user_id: &str) -> (r: UnifiedIncomingMessage)
    ensures
        r@ == (types::IncomingView { owner_user_id: Some(owner_user_id@), ..msg@ }),
{
    let mut tagged = msg;
    tagged.owner_user_id = Some(owner_user_id.to_owned());
    tagged
}

// ---------------------------------------------------------------------------
// Laws
// ---------------------------------------------------------------------------

/// Shutting down for one owner leaves the plugins of every other owner running.
pub proof fn law_shutdown_spares_others(
    m: Map<(Seq<char>, Seq<char>), u64>,
    owner_user_id: Seq<char>,
    key: (Seq<char>, Seq<char>),
)
    ensures
        key.0 != owner_user_id ==> (without(m, Some(owner_user_id)).dom().contains(key) <==> m.dom().contains(key)),
        key.0 != owner_user_id && m.dom().contains(key) ==> without(m, Some(owner_user_id))[key] == m[key],
        key.0 == owner_user_id ==> !without(m, Some(owner_user_id)).dom().contains(key),
{
}

/// The same plugin of another owner, and another plugin of the same owner, are
/// left as they are when a plugin is started or stopped.
pub proof fn law_plugins_are_apart(
    m: Map<(Seq<char>, Seq<char>), u64>,
    key: (Seq<char>, Seq<char>),
    other: (Seq<char>, Seq<char>),
    slot: u64,
)
    requires
        key.0 != other.0 || key.1 != other.1,
    ensures
        m.insert(key, slot).dom().contains(other) <==> m.dom().contains(other),
        m.remove(key).dom().contains(other) <==> m.dom().contains(other),
        m.dom().contains(other) ==> m.insert(key, slot)[other] == m[other] && m.remove(key)[other] == m[other],
        m.insert(key, slot).remove(key) == m.remove(key),
{
    assert(key != other);
    assert(m.insert(key, slot).remove(key) =~= m.remove(key));
}

/// What a running plugin says of itself goes before what is stored; without one
/// the stored status is told.
pub proof fn law_live_status_wins(row: RowView, running: bool, live: PluginStatus)
    ensures
        report_of(row, running, Some(live)).status == Some(types::plugin_status_text(live)),
        report_of(row, running, None).status == row.status,
{
}

/// What is stored of a plugin that is enabled is that plugin, of that owner and of that
/// platform, with the configuration that was given, new and not yet running.
pub proof fn law_enabled_plugin_is_stored(
    owner_user_id: Seq<char>,
    plugin_id: Seq<char>,
    plugin_type: PluginType,
    config: Seq<char>,
    now: i64,
)
    ensures
        ({
            let row = enabled_row(owner_user_id, plugin_id, plugin_type, config, now);
            &&& row.id == plugin_id
            &&& row.owner_user_id == owner_user_id
            &&& row.plugin_type == types::plugin_type_text(plugin_type)
            &&& row.config == config
            &&& row.enabled
            &&& row.status == Some("created"@)
            &&& row.last_connected is None
            &&& row.created_at == now && row.updated_at == now
        }),
{
}

/// What is stored of an extension's plugin is that plugin, enabled and not running; it
/// keeps the day of its first storing and its last connection.
pub proof fn law_extension_keeps_its_history(
    owner_user_id: Seq<char>,
    plugin_id: Seq<char>,
    name: Seq<char>,
    config: Seq<char>,
    existing: Option<RowView>,
    now: i64,
)
    ensures
        ({
            let row = extension_row(owner_user_id, plugin_id, name, config, existing, now);
            &&& row.id == plugin_id
            &&& row.owner_user_id == owner_user_id
            &&& row.plugin_type == plugin_id
            &&& row.name == name
            &&& row.config == config
            &&& row.enabled
            &&& row.status == Some("stopped"@)
            &&& existing is Some ==> row.created_at == existing->0.created_at && row.last_connected
                == existing->0.last_connected
            &&& existing is None ==> row.created_at == now && row.last_connected is None
            &&& row.updated_at == now
        }),
{
}

/// A change to what is stored changes what it names and nothing else.
pub proof fn law_change_is_what_it_names(row: RowView, update: StatusUpdate)
    ensures
        ({
            let after = row_after(row, update);
            &&& after.id == row.id
            &&& after.owner_user_id == row.owner_user_id
            &&& after.plugin_type == row.plugin_type
            &&& after.name == row.name
            &&& after.config == row.config
            &&& after.created_at == row.created_at
            &&& update.status is None ==> after.status == row.status
            &&& update.status is Some ==> after.status == Some(types::plugin_status_text(update.status->0))
            &&& update.last_connected is None ==> after.last_connected == row.last_connected
            &&& update.last_connected is Some ==> after.last_connected == update.last_connected
            &&& update.enabled is None ==> after.enabled == row.enabled
            &&& update.enabled is Some ==> after.enabled == update.enabled->0
        }),
{
}

/// A plugin that is switched off is stored as disabled and stopped, and keeps the rest.
pub proof fn law_disabled_is_off(row: RowView)
    ensures
        row_after(row, switch_off()) == (RowView { enabled: false, status: Some("stopped"@), ..row }),
{
}

/// What is told about a plugin is what is stored about it; it is connected exactly if it
/// runs, and has a token exactly if a configuration is stored.
pub proof fn law_report_is_about_the_row(row: RowView, running: bool, live: Option<PluginStatus>)
    ensures
        ({
            let r = report_of(row, running, live);
            &&& r.plugin_id == row.id
            &&& r.plugin_type == row.plugin_type
            &&& r.name == row.name
            &&& r.enabled == row.enabled
            &&& r.last_connected == row.last_connected
            &&& r.created_at == row.created_at
            &&& r.updated_at == row.updated_at
            &&& r.connected == running
            &&& r.has_token <==> row.config.len() > 0
        }),
{
}

/// The reports stand in the order of the rows, each with the status of its own plugin.
pub proof fn law_reports_follow_the_rows(
    m: Map<(Seq<char>, Seq<char>), u64>,
    rows: Seq<PluginRow>,
    live: Seq<Option<PluginStatus>>,
    i: int,
)
    requires
        rows.len() == live.len(),
        0 <= i < rows.len(),
    ensures
        reports_of(m, rows, live).len() == rows.len(),
        reports_of(m, rows, live)[i].plugin_id == rows[i].id@,
        reports_of(m, rows, live)[i].connected <==> m.dom().contains((rows[i].owner_user_id@, rows[i].id@)),
        live[i] is Some ==> reports_of(m, rows, live)[i].status == Some(types::plugin_status_text(live[i]->0)),
        live[i] is None ==> reports_of(m, rows, live)[i].status == types::opt_text(rows[i].status),
{
}

/// Credentials are empty exactly if every one of them is missing or empty and there is no
/// other.
pub proof fn law_any_credential_counts(c: PluginCredentials)
    ensures
        (c.token matches Some(s) && s@.len() > 0) ==> !no_credentials(c),
        (c.app_id matches Some(s) && s@.len() > 0) ==> !no_credentials(c),
        (c.app_secret matches Some(s) && s@.len() > 0) ==> !no_credentials(c),
        (c.encrypt_key matches Some(s) && s@.len() > 0) ==> !no_credentials(c),
        (c.verification_token matches Some(s) && s@.len() > 0) ==> !no_credentials(c),
        (c.client_id matches Some(s) && s@.len() > 0) ==> !no_credentials(c),
        (c.client_secret matches Some(s) && s@.len() > 0) ==> !no_credentials(c),
        (c.account_id matches Some(s) && s@.len() > 0) ==> !no_credentials(c),
        (c.bot_token matches Some(s) && s@.len() > 0) ==> !no_credentials(c),
        (c.app_token matches Some(s) && s@.len() > 0) ==> !no_credentials(c),
        c.extra.pairs().len() > 0 ==> !no_credentials(c),
        (c.token is None && c.app_id is None && c.app_secret is None && c.encrypt_key is None
            && c.verification_token is None && c.client_id is None && c.client_secret is None && c.account_id is None
            && c.bot_token is None && c.app_token is None && c.extra.pairs().len() == 0) ==> no_credentials(c),
{
}

/// Only an object that is not empty brings credentials.
pub proof fn law_only_an_object_brings_credentials(member: Option<json::NodeView>)
    ensures
        brings_credentials(member) <==> (member matches Some(json::NodeView::Object(members)) && members.len() > 0),
{
}

} // verus!

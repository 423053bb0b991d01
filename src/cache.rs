//! The snapshot store: work items, gates and grouping summaries keyed by
//! identifier, refreshed wholesale or patched event by event.

use vstd::prelude::*;
use crate::store::{KeyedStore, map_of, keys_distinct, lemma_map_of};
use crate::types::{Issue, IssueView, Gate, GateView, EpicStatus, ActivityEvent, EventView, decode_issue, decode_gate};
use crate::json::{JsonModel, lookup, find_field};
use crate::text::{has_infix, lower_of, lowercase, contains_text, elapsed_text, describe_elapsed, join_text};
use crate::clock::{now_millis, user_cache_dir};
use crate::dag::{DagGraph, graph_of, build_graph};
use crate::store::lemma_dom_len;
use crate::json::str_eq;

verus! {

/// Milliseconds after a full refresh past which the snapshot counts as stale.
pub const STALE_AFTER_MS: i64 = 30_000;

/// Milliseconds within which a persisted snapshot is still loaded at startup.
pub const LOAD_WINDOW_MS: i64 = 60_000;

/// The name of the persisted snapshot file.
pub const CACHE_FILE_NAME: &'static str = "agent-maestro-cache.json";

/// The directory under the user cache directory that holds the snapshot file.
pub const CACHE_DIR_NAME: &'static str = "agent-maestro";

#[derive(Debug)]
pub enum CacheError {
    IoError(String),
    SerializationError(String),
    DeserializationError(String),
    StaleCache(String),
    DagBuildError(String),
}

/// Counts over the snapshot.
#[derive(Debug)]
pub struct CacheStats {
    pub total_issues: usize,
    pub open: usize,
    pub closed: usize,
    pub in_progress: usize,
    pub blocked: usize,
    pub pending_gates: usize,
    /// How long ago the last full refresh was, for people.
    pub last_sync: String,
}

/// An entity with an identifier of its own.
pub trait HasId: View + Sized {
    spec fn id_of(&self) -> Seq<char>;

    fn id_text(&self) -> (r: String)
        ensures
            r@ == self.id_of();
}

impl HasId for Issue {
    open spec fn id_of(&self) -> Seq<char> {
        self.id@
    }

    fn id_text(&self) -> (r: String) {
        self.id.clone()
    }
}

impl HasId for Gate {
    open spec fn id_of(&self) -> Seq<char> {
        self.id@
    }

    fn id_text(&self) -> (r: String) {
        self.id.clone()
    }
}

impl HasId for EpicStatus {
    open spec fn id_of(&self) -> Seq<char> {
        self.id@
    }

    fn id_text(&self) -> (r: String) {
        self.id.clone()
    }
}

/// Entities keyed by their own identifiers; a later one replaces an earlier
/// one with the same identifier.
pub open spec fn keyed_by_id<T: HasId>(items: Seq<T>) -> Map<Seq<char>, T::V>
    decreases items.len(),
{
    if items.len() == 0 {
        Map::empty()
    } else {
        keyed_by_id(items.drop_last()).insert(items.last().id_of(), items.last()@)
    }
}

/// Entries under the keys they came with; a later one replaces an earlier one
/// with the same key.
pub open spec fn keyed_entries<T: View>(entries: Seq<(String, T)>) -> Map<Seq<char>, T::V> {
    map_of(entries)
}

/// A store holding `items`, each under its own identifier.
pub fn index_by_id<T: HasId>(items: Vec<T>) -> (r: KeyedStore<T>)
    ensures
        r.wf(),
        r@ == keyed_by_id(items@),
{
    let ghost all = items@;
    assert(all.len() == items.len());
    let mut rest = items;
    let mut store: KeyedStore<T> = KeyedStore::new();
    let mut n: usize = 0;
    while rest.len() > 0
        invariant
            store.wf(),
            n <= all.len(),
            all.len() <= usize::MAX,
            rest@ == all.subrange(n as int, all.len() as int),
            store@ == keyed_by_id(all.subrange(0, n as int)),
        decreases rest@.len(),
    {
        let item = rest.remove(0);
        let key = item.id_text();
        proof {
            assert(all.subrange(0, n + 1).drop_last() == all.subrange(0, n as int));
            assert(all[n as int] == item);
        }
        store.insert(key, item);
        n += 1;
        proof {
            assert(rest@ == all.subrange(n as int, all.len() as int));
        }
    }
    proof {
        assert(all.subrange(0, n as int) == all);
    }
    store
}

/// A store holding `entries`, each under the key it came with.
pub fn index_entries<T: View>(entries: Vec<(String, T)>) -> (r: KeyedStore<T>)
    ensures
        r.wf(),
        r@ == keyed_entries(entries@),
{
    let ghost all = entries@;
    assert(all.len() == entries.len());
    let mut rest = entries;
    let mut store: KeyedStore<T> = KeyedStore::new();
    let mut n: usize = 0;
    while rest.len() > 0
        invariant
            store.wf(),
            n <= all.len(),
            all.len() <= usize::MAX,
            rest@ == all.subrange(n as int, all.len() as int),
            store@ == map_of(all.subrange(0, n as int)),
        decreases rest@.len(),
    {
        let (key, item) = rest.remove(0);
        proof {
            assert(all.subrange(0, n + 1).drop_last() == all.subrange(0, n as int));
            assert(all[n as int] == (key, item));
        }
        store.insert(key, item);
        n += 1;
        proof {
            assert(rest@ == all.subrange(n as int, all.len() as int));
        }
    }
    proof {
        assert(all.subrange(0, n as int) == all);
    }
    store
}

/// Whether a snapshot last fully refreshed at `synced_ms` is stale at `now_ms`.
pub open spec fn stale_at(synced_ms: int, now_ms: int) -> bool {
    now_ms - synced_ms > STALE_AFTER_MS
}

/// Staleness by a clock reading: unknown time (a clock before the Unix epoch)
/// counts as stale.
pub open spec fn stale_by_clock(synced_ms: i64, clock: Option<i64>) -> bool {
    match clock {
        Some(now) => stale_at(synced_ms as int, now as int),
        None => true,
    }
}

/// Whether a snapshot recorded at `recorded_ms` may still be loaded at `now_ms`.
pub open spec fn loadable_at(recorded_ms: int, now_ms: int) -> bool {
    recorded_ms + LOAD_WINDOW_MS >= now_ms
}

/// The milliseconds elapsed from `from_ms` to `to_ms`, never below zero.
pub open spec fn elapsed_ms(from_ms: int, to_ms: int) -> int {
    if to_ms > from_ms {
        to_ms - from_ms
    } else {
        0
    }
}

/// Whether a gate awaits a person.
pub open spec fn gate_pending(g: GateView) -> bool {
    g.status == "pending"@ || g.status == "blocked"@
}

pub fn is_pending_gate(g: &Gate) -> (r: bool)
    ensures
        r == gate_pending(g@),
{
    str_eq(g.status.as_str(), "pending") || str_eq(g.status.as_str(), "blocked")
}

/// How a lower-cased status is counted.
#[derive(Clone, Copy, Debug, PartialEq, Eq, Structural)]
pub enum StatusBucket {
    Open,
    InProgress,
    Closed,
    Blocked,
    Other,
}

pub open spec fn bucket_of(lowered: Seq<char>) -> StatusBucket {
    if lowered == "open"@ || lowered == "todo"@ || lowered == "backlog"@ {
        StatusBucket::Open
    } else if lowered == "in progress"@ || lowered == "in_progress"@ || lowered == "doing"@ {
        StatusBucket::InProgress
    } else if lowered == "closed"@ || lowered == "done"@ || lowered == "completed"@ {
        StatusBucket::Closed
    } else if lowered == "blocked"@ {
        StatusBucket::Blocked
    } else {
        StatusBucket::Other
    }
}

/// The bucket of an already lower-cased status.
pub fn status_bucket(lowered: &str) -> (r: StatusBucket)
    ensures
        r == bucket_of(lowered@),
{
    if str_eq(lowered, "open") || str_eq(lowered, "todo") || str_eq(lowered, "backlog") {
        StatusBucket::Open
    } else if str_eq(lowered, "in progress") || str_eq(lowered, "in_progress") || str_eq(
        lowered,
        "doing",
    ) {
        StatusBucket::InProgress
    } else if str_eq(lowered, "closed") || str_eq(lowered, "done") || str_eq(lowered, "completed") {
        StatusBucket::Closed
    } else if str_eq(lowered, "blocked") {
        StatusBucket::Blocked
    } else {
        StatusBucket::Other
    }
}

/// How many issues among `entries` have a status in bucket `b`.
pub open spec fn count_bucket(entries: Seq<(String, Issue)>, b: StatusBucket) -> nat
    decreases entries.len(),
{
    if entries.len() == 0 {
        0
    } else {
        count_bucket(entries.drop_last(), b) + if bucket_of(lower_of(entries.last().1.status@)) == b {
            1nat
        } else {
            0nat
        }
    }
}

/// How many gates among `entries` await a person.
pub open spec fn count_pending(entries: Seq<(String, Gate)>) -> nat
    decreases entries.len(),
{
    if entries.len() == 0 {
        0
    } else {
        count_pending(entries.drop_last()) + if gate_pending(entries.last().1@) {
            1nat
        } else {
            0nat
        }
    }
}

/// The gates among `entries` that await a person, in order.
pub open spec fn pending_gates_of(entries: Seq<(String, Gate)>) -> Seq<Gate>
    decreases entries.len(),
{
    if entries.len() == 0 {
        Seq::empty()
    } else {
        let r = pending_gates_of(entries.drop_last());
        if gate_pending(entries.last().1@) {
            r.push(entries.last().1)
        } else {
            r
        }
    }
}

/// Whether an issue's title or status holds the query, ignoring case.
pub open spec fn issue_matches(i: IssueView, query: Seq<char>) -> bool {
    has_infix(lower_of(i.title), lower_of(query)) || has_infix(lower_of(i.status), lower_of(query))
}

/// Whether already lower-cased title or status texts hold the lower-cased query.
pub fn matches_lowered(title: &str, status: &str, query: &str) -> (r: bool)
    ensures
        r == (has_infix(title@, query@) || has_infix(status@, query@)),
{
    contains_text(title, query) || contains_text(status, query)
}

/// The issues among `entries` that match `query`, in order.
pub open spec fn search_of(entries: Seq<(String, Issue)>, query: Seq<char>) -> Seq<Issue>
    decreases entries.len(),
{
    if entries.len() == 0 {
        Seq::empty()
    } else {
        let r = search_of(entries.drop_last(), query);
        if issue_matches(entries.last().1@, query) {
            r.push(entries.last().1)
        } else {
            r
        }
    }
}

/// What an event does to the work items.
pub open spec fn issues_after(m: Map<Seq<char>, IssueView>, e: EventView) -> Map<Seq<char>, IssueView> {
    if e.event_type == "issue.created"@ || e.event_type == "issue.updated"@ {
        match lookup(e.extra, "issue"@) {
            Some(payload) => match decode_issue(payload) {
                Some(iv) => m.insert(iv.id, iv),
                None => m,
            },
            None => m,
        }
    } else if e.event_type == "issue.deleted"@ {
        match e.issue_id {
            Some(id) => m.remove(id),
            None => m,
        }
    } else {
        m
    }
}

/// What an event does to the gates.
pub open spec fn gates_after(m: Map<Seq<char>, GateView>, e: EventView) -> Map<Seq<char>, GateView> {
    if e.event_type == "gate.created"@ || e.event_type == "gate.updated"@ {
        match lookup(e.extra, "gate"@) {
            Some(payload) => match decode_gate(payload) {
                Some(gv) => m.insert(gv.id, gv),
                None => m,
            },
            None => m,
        }
    } else if e.event_type == "gate.deleted"@ {
        match e.gate_id {
            Some(id) => m.remove(id),
            None => m,
        }
    } else {
        m
    }
}

proof fn lemma_event_kinds_differ()
    ensures
        "issue.created"@ != "gate.created"@,
        "issue.created"@ != "gate.updated"@,
        "issue.created"@ != "gate.deleted"@,
        "issue.updated"@ != "gate.created"@,
        "issue.updated"@ != "gate.updated"@,
        "issue.updated"@ != "gate.deleted"@,
        "issue.deleted"@ != "gate.created"@,
        "issue.deleted"@ != "gate.updated"@,
        "issue.deleted"@ != "gate.deleted"@,
{
    reveal_strlit("issue.created");
    reveal_strlit("issue.updated");
    reveal_strlit("issue.deleted");
    reveal_strlit("gate.created");
    reveal_strlit("gate.updated");
    reveal_strlit("gate.deleted");
    assert("issue.created"@[0] != "gate.created"@[0]);
    assert("issue.created"@[0] != "gate.updated"@[0]);
    assert("issue.created"@[0] != "gate.deleted"@[0]);
    assert("issue.updated"@[0] != "gate.created"@[0]);
    assert("issue.updated"@[0] != "gate.updated"@[0]);
    assert("issue.updated"@[0] != "gate.deleted"@[0]);
    assert("issue.deleted"@[0] != "gate.created"@[0]);
    assert("issue.deleted"@[0] != "gate.updated"@[0]);
    assert("issue.deleted"@[0] != "gate.deleted"@[0]);
}

/// The contents of a persisted snapshot file.
#[derive(Debug)]
pub struct SerializedCache {
    pub issues: Vec<(String, Issue)>,
    pub gates: Vec<(String, Gate)>,
    pub epics: Vec<(String, EpicStatus)>,
    /// When the snapshot's full refresh happened, in milliseconds since the Unix epoch.
    pub last_full_sync_ms: i64,
}

/// The snapshot store.
#[derive(Debug)]
pub struct BeadsCache {
    pub issues: KeyedStore<Issue>,
    pub gates: KeyedStore<Gate>,
    pub epics: KeyedStore<EpicStatus>,
    /// When the last full refresh happened, in milliseconds since the Unix epoch.
    pub last_full_sync_ms: i64,
    pub cache_file_path: String,
}

/// `<dir>/agent-maestro/agent-maestro-cache.json`.
pub open spec fn cache_file_path_of(dir: Seq<char>) -> Seq<char> {
    dir + "/"@ + CACHE_DIR_NAME@ + "/"@ + CACHE_FILE_NAME@
}

impl BeadsCache {
    pub open spec fn wf(&self) -> bool {
        self.issues.wf() && self.gates.wf() && self.epics.wf()
    }

    /// A store with the given contents, each entity under its own identifier.
    pub fn with_contents(
        issues: Vec<Issue>,
        gates: Vec<Gate>,
        epics: Vec<EpicStatus>,
        synced_at_ms: i64,
        cache_file_path: String,
    ) -> (r: BeadsCache)
        ensures
            r.wf(),
            r.issues@ == keyed_by_id(issues@),
            r.gates@ == keyed_by_id(gates@),
            r.epics@ == keyed_by_id(epics@),
            r.last_full_sync_ms == synced_at_ms,
            r.cache_file_path == cache_file_path,
    {
        BeadsCache {
            issues: index_by_id(issues),
            gates: index_by_id(gates),
            epics: index_by_id(epics),
            last_full_sync_ms: synced_at_ms,
            cache_file_path,
        }
    }

    /// The store at startup: the persisted snapshot if there is one and it was
    /// recorded within the load window, else an empty store refreshed now.
    pub fn new(cache_file_path: String, loaded: Option<SerializedCache>, now_ms: i64) -> (r: BeadsCache)
        ensures
            r.wf(),
            r.cache_file_path == cache_file_path,
            match loaded {
                Some(s) => if loadable_at(s.last_full_sync_ms as int, now_ms as int) {
                    &&& r.issues@ == keyed_entries(s.issues@)
                    &&& r.gates@ == keyed_entries(s.gates@)
                    &&& r.epics@ == keyed_entries(s.epics@)
                    &&& r.last_full_sync_ms == s.last_full_sync_ms
                } else {
                    &&& r.issues@ == Map::<Seq<char>, IssueView>::empty()
                    &&& r.gates@ == Map::<Seq<char>, GateView>::empty()
                    &&& r.epics@.is_empty()
                    &&& r.last_full_sync_ms == now_ms
                },
                None => {
                    &&& r.issues@ == Map::<Seq<char>, IssueView>::empty()
                    &&& r.gates@ == Map::<Seq<char>, GateView>::empty()
                    &&& r.epics@.is_empty()
                    &&& r.last_full_sync_ms == now_ms
                },
            },
    {
        match loaded {
            Some(s) => {
                if (s.last_full_sync_ms as i128) + (LOAD_WINDOW_MS as i128) >= (now_ms as i128) {
                    return BeadsCache {
                        issues: index_entries(s.issues),
                        gates: index_entries(s.gates),
                        epics: index_entries(s.epics),
                        last_full_sync_ms: s.last_full_sync_ms,
                        cache_file_path,
                    };
                }
            },
            None => {},
        }
        BeadsCache {
            issues: KeyedStore::new(),
            gates: KeyedStore::new(),
            epics: KeyedStore::new(),
            last_full_sync_ms: now_ms,
            cache_file_path,
        }
    }

    /// The snapshot file under a cache directory.
    pub fn cache_file_path_in(dir: &str) -> (r: String)
        ensures
            r@ == cache_file_path_of(dir@),
    {
        let a = join_text(dir, "/");
        let b = join_text(a.as_str(), CACHE_DIR_NAME);
        let c = join_text(b.as_str(), "/");
        join_text(c.as_str(), CACHE_FILE_NAME)
    }

    /// The snapshot file under the user's cache directory; an I/O error where
    /// the platform has none.
    pub fn get_cache_file_path() -> (r: Result<String, CacheError>)
        ensures
            match r {
                Ok(p) => exists|d: Seq<char>| p@ == cache_file_path_of(d),
                Err(e) => e is IoError,
            },
    {
        match user_cache_dir() {
            Some(d) => Ok(Self::cache_file_path_in(d.as_str())),
            None => Err(CacheError::IoError(String::from_str("Failed to get cache directory"))),
        }
    }

    /// The store that a full refresh with these lists would leave: each list
    /// keyed by identifier (a later entity wins over an earlier one with the
    /// same identifier), refreshed at `now_ms`, with the same snapshot file.
    /// The host writes it to disk and then hands it to `full_refresh`.
    pub fn stage_refresh(
        &self,
        issues: Vec<Issue>,
        gates: Vec<Gate>,
        epics: Vec<EpicStatus>,
        now_ms: i64,
    ) -> (r: BeadsCache)
        ensures
            r.wf(),
            r.issues@ == keyed_by_id(issues@),
            r.gates@ == keyed_by_id(gates@),
            r.epics@ == keyed_by_id(epics@),
            r.last_full_sync_ms == now_ms,
            r.cache_file_path == self.cache_file_path,
    {
        Self::with_contents(issues, gates, epics, now_ms, self.cache_file_path.clone())
    }

    /// Completes a full refresh: where the staged snapshot was written to disk
    /// it replaces the whole store; where writing failed the store stays as it
    /// was and the error is returned.
    pub fn full_refresh(&mut self, staged: BeadsCache, persisted: Result<(), CacheError>) -> (r: Result<(), CacheError>)
        ensures
            match persisted {
                Ok(()) => r is Ok && *final(self) == staged,
                Err(e) => r == Err::<(), CacheError>(e) && *final(self) == *old(self),
            },
    {
        match persisted {
            Ok(()) => {
                *self = staged;
                Ok(())
            },
            Err(e) => Err(e),
        }
    }

    /// Applies one live event to the work items or gates. A payload that does
    /// not decode leaves the store unchanged; other kinds of event change
    /// nothing. The refresh time and the disk are not touched.
    pub fn apply_event(&mut self, event: &ActivityEvent) -> (r: Result<(), CacheError>)
        requires
            old(self).wf(),
        ensures
            r is Ok,
            final(self).wf(),
            final(self).issues@ == issues_after(old(self).issues@, event@),
            final(self).gates@ == gates_after(old(self).gates@, event@),
            final(self).epics == old(self).epics,
            final(self).last_full_sync_ms == old(self).last_full_sync_ms,
            final(self).cache_file_path == old(self).cache_file_path,
    {
        let kind = event.event_type.as_str();
        proof {
            lemma_event_kinds_differ();
        }
        if str_eq(kind, "issue.created") || str_eq(kind, "issue.updated") {
            match find_field(&event.extra, "issue") {
                Some(i) => match Issue::from_json(&event.extra[i].1) {
                    Some(issue) => {
                        let id = issue.id.clone();
                        self.issues.insert(id, issue);
                    },
                    None => {},
                },
                None => {},
            }
        } else if str_eq(kind, "issue.deleted") {
            match &event.issue_id {
                Some(id) => {
                    self.issues.remove(id.as_str());
                },
                None => {},
            }
        } else if str_eq(kind, "gate.created") || str_eq(kind, "gate.updated") {
            match find_field(&event.extra, "gate") {
                Some(i) => match Gate::from_json(&event.extra[i].1) {
                    Some(gate) => {
                        let id = gate.id.clone();
                        self.gates.insert(id, gate);
                    },
                    None => {},
                },
                None => {},
            }
        } else if str_eq(kind, "gate.deleted") {
            match &event.gate_id {
                Some(id) => {
                    self.gates.remove(id.as_str());
                },
                None => {},
            }
        }
        Ok(())
    }

    /// The work item keyed `id`.
    pub fn get_issue(&self, id: &str) -> (r: Option<&Issue>)
        requires
            self.wf(),
        ensures
            match r {
                Some(i) => self.issues@.contains_key(id@) && self.issues@[id@] == i@,
                None => !self.issues@.contains_key(id@),
            },
    {
        self.issues.get(id)
    }

    /// All work items, in the store's order.
    pub fn list_issues(&self) -> (r: Vec<&Issue>)
        ensures
            r@.len() == self.issues.entries@.len(),
            forall|i: int| 0 <= i < r@.len() ==> *(#[trigger] r@[i]) == self.issues.entries@[i].1,
    {
        self.issues.values()
    }

    /// The grouping summary keyed `id`.
    pub fn get_epic(&self, id: &str) -> (r: Option<&EpicStatus>)
        requires
            self.wf(),
        ensures
            match r {
                Some(e) => self.epics@.contains_key(id@) && self.epics@[id@] == e@,
                None => !self.epics@.contains_key(id@),
            },
    {
        self.epics.get(id)
    }

    /// All grouping summaries, in the store's order.
    pub fn list_epics(&self) -> (r: Vec<&EpicStatus>)
        ensures
            r@.len() == self.epics.entries@.len(),
            forall|i: int| 0 <= i < r@.len() ==> *(#[trigger] r@[i]) == self.epics.entries@[i].1,
    {
        self.epics.values()
    }

    /// The work items whose title or status holds `query`, ignoring case.
    pub fn search_issues(&self, query: &str) -> (r: Vec<&Issue>)
        ensures
            r@.len() == search_of(self.issues.entries@, query@).len(),
            forall|i: int| 0 <= i < r@.len() ==> *(#[trigger] r@[i]) == search_of(self.issues.entries@, query@)[i],
    {
        let q = lowercase(query);
        let entries = &self.issues.entries;
        let mut out: Vec<&Issue> = Vec::new();
        let mut i: usize = 0;
        while i < entries.len()
            invariant
                i <= entries@.len(),
                *entries == self.issues.entries,
                q@ == lower_of(query@),
                out@.len() == search_of(entries@.subrange(0, i as int), query@).len(),
                forall|j: int| 0 <= j < out@.len() ==> *(#[trigger] out@[j]) == search_of(entries@.subrange(0, i as int), query@)[j],
            decreases entries@.len() - i,
        {
            let issue = &entries[i].1;
            let title = lowercase(issue.title.as_str());
            let status = lowercase(issue.status.as_str());
            proof {
                assert(entries@.subrange(0, i + 1).drop_last() == entries@.subrange(0, i as int));
            }
            if matches_lowered(title.as_str(), status.as_str(), q.as_str()) {
                out.push(issue);
            }
            i += 1;
        }
        proof {
            assert(entries@.subrange(0, i as int) == entries@);
        }
        out
    }

    /// The gates that await a person: status "pending" or "blocked".
    pub fn get_pending_gates(&self) -> (r: Result<Vec<&Gate>, CacheError>)
        ensures
            r is Ok,
            r->Ok_0@.len() == pending_gates_of(self.gates.entries@).len(),
            forall|i: int| 0 <= i < r->Ok_0@.len() ==> *(#[trigger] r->Ok_0@[i]) == pending_gates_of(self.gates.entries@)[i],
    {
        let entries = &self.gates.entries;
        let mut out: Vec<&Gate> = Vec::new();
        let mut i: usize = 0;
        while i < entries.len()
            invariant
                i <= entries@.len(),
                *entries == self.gates.entries,
                out@.len() == pending_gates_of(entries@.subrange(0, i as int)).len(),
                forall|j: int| 0 <= j < out@.len() ==> *(#[trigger] out@[j]) == pending_gates_of(entries@.subrange(0, i as int))[j],
            decreases entries@.len() - i,
        {
            let gate = &entries[i].1;
            proof {
                assert(entries@.subrange(0, i + 1).drop_last() == entries@.subrange(0, i as int));
            }
            if is_pending_gate(gate) {
                out.push(gate);
            }
            i += 1;
        }
        proof {
            assert(entries@.subrange(0, i as int) == entries@);
        }
        Ok(out)
    }

    /// Counts by status bucket, pending gates, and the time since the last
    /// full refresh as of `now_ms`.
    pub fn stats_at(&self, now_ms: i64) -> (r: CacheStats)
        requires
            self.wf(),
        ensures
            r.total_issues == self.issues.entries@.len(),
            r.total_issues == self.issues@.dom().len(),
            r.open == count_bucket(self.issues.entries@, StatusBucket::Open),
            r.in_progress == count_bucket(self.issues.entries@, StatusBucket::InProgress),
            r.closed == count_bucket(self.issues.entries@, StatusBucket::Closed),
            r.blocked == count_bucket(self.issues.entries@, StatusBucket::Blocked),
            r.pending_gates == count_pending(self.gates.entries@),
            r.last_sync@ == elapsed_text(elapsed_ms(self.last_full_sync_ms as int, now_ms as int)),
    {
        let entries = &self.issues.entries;
        let mut open: usize = 0;
        let mut closed: usize = 0;
        let mut in_progress: usize = 0;
        let mut blocked: usize = 0;
        let mut i: usize = 0;
        while i < entries.len()
            invariant
                i <= entries@.len(),
                *entries == self.issues.entries,
                open == count_bucket(entries@.subrange(0, i as int), StatusBucket::Open),
                in_progress == count_bucket(entries@.subrange(0, i as int), StatusBucket::InProgress),
                closed == count_bucket(entries@.subrange(0, i as int), StatusBucket::Closed),
                blocked == count_bucket(entries@.subrange(0, i as int), StatusBucket::Blocked),
                open <= i && in_progress <= i && closed <= i && blocked <= i,
            decreases entries@.len() - i,
        {
            proof {
                assert(entries@.subrange(0, i + 1).drop_last() == entries@.subrange(0, i as int));
            }
            let lowered = lowercase(entries[i].1.status.as_str());
            match status_bucket(lowered.as_str()) {
                StatusBucket::Open => open += 1,
                StatusBucket::InProgress => in_progress += 1,
                StatusBucket::Closed => closed += 1,
                StatusBucket::Blocked => blocked += 1,
                StatusBucket::Other => {},
            }
            i += 1;
        }
        proof {
            assert(entries@.subrange(0, i as int) == entries@);
        }
        let gates = &self.gates.entries;
        let mut pending: usize = 0;
        let mut j: usize = 0;
        while j < gates.len()
            invariant
                j <= gates@.len(),
                *gates == self.gates.entries,
                pending == count_pending(gates@.subrange(0, j as int)),
                pending <= j,
            decreases gates@.len() - j,
        {
            proof {
                assert(gates@.subrange(0, j + 1).drop_last() == gates@.subrange(0, j as int));
            }
            if is_pending_gate(&gates[j].1) {
                pending += 1;
            }
            j += 1;
        }
        proof {
            assert(gates@.subrange(0, j as int) == gates@);
        }
        let elapsed: u64 = if now_ms > self.last_full_sync_ms {
            ((now_ms as i128) - (self.last_full_sync_ms as i128)) as u64
        } else {
            0
        };
        CacheStats {
            total_issues: self.issues.len(),
            open,
            closed,
            in_progress,
            blocked,
            pending_gates: pending,
            last_sync: describe_elapsed(elapsed),
        }
    }

    /// Counts as of the current time; an I/O error where the system clock
    /// reads before the Unix epoch.
    pub fn get_stats(&self) -> (r: Result<CacheStats, CacheError>)
        requires
            self.wf(),
        ensures
            match r {
                Ok(stats) => {
                    &&& stats.total_issues == self.issues.entries@.len()
                    &&& stats.open == count_bucket(self.issues.entries@, StatusBucket::Open)
                    &&& stats.in_progress == count_bucket(self.issues.entries@, StatusBucket::InProgress)
                    &&& stats.closed == count_bucket(self.issues.entries@, StatusBucket::Closed)
                    &&& stats.blocked == count_bucket(self.issues.entries@, StatusBucket::Blocked)
                    &&& stats.pending_gates == count_pending(self.gates.entries@)
                    &&& exists|now: i64| stats.last_sync@ == elapsed_text(elapsed_ms(self.last_full_sync_ms as int, now as int))
                },
                Err(e) => e is IoError,
            },
    {
        match now_millis() {
            Some(now) => Ok(self.stats_at(now)),
            None => Err(CacheError::IoError(String::from_str("system clock reads before the Unix epoch"))),
        }
    }

    /// Whole seconds since the last full refresh as of `now_ms`, never below zero.
    pub fn age_secs_at(&self, now_ms: i64) -> (r: u64)
        ensures
            r == elapsed_ms(self.last_full_sync_ms as int, now_ms as int) / 1000,
    {
        if now_ms > self.last_full_sync_ms {
            (((now_ms as i128) - (self.last_full_sync_ms as i128)) / 1000) as u64
        } else {
            0
        }
    }

    /// Whether the snapshot is stale at `now_ms`.
    pub fn is_stale_at(&self, now_ms: i64) -> (r: bool)
        ensures
            r == stale_at(self.last_full_sync_ms as int, now_ms as int),
    {
        (now_ms as i128) - (self.last_full_sync_ms as i128) > (STALE_AFTER_MS as i128)
    }

    /// Whether the snapshot is stale at the current time. Where the system
    /// clock reads before the Unix epoch the age is unknown, and the snapshot
    /// counts as stale.
    pub fn is_stale(&self) -> (r: bool)
        ensures
            exists|clock: Option<i64>| r == stale_by_clock(self.last_full_sync_ms, clock),
    {
        let clock = now_millis();
        let r = match clock {
            Some(now) => self.is_stale_at(now),
            None => true,
        };
        assert(r == stale_by_clock(self.last_full_sync_ms, clock));
        r
    }
}


impl BeadsCache {
    /// The graph of grouping `epic_id`, or `None` where it has no node.
    pub fn get_dag(&self, epic_id: &str) -> (r: Result<Option<DagGraph>, CacheError>)
        requires
            self.wf(),
        ensures
            r is Ok,
            match r->Ok_0 {
                Some(g) => g@ == graph_of(self.issues.entries@, self.issues@, self.gates.entries@, epic_id@)
                    && g@.nodes.len() > 0,
                None => graph_of(self.issues.entries@, self.issues@, self.gates.entries@, epic_id@).nodes.len() == 0,
            },
    {
        let g = build_graph(&self.issues, &self.gates, epic_id);
        if g.nodes.len() == 0 {
            Ok(None)
        } else {
            Ok(Some(g))
        }
    }
}

/// After a full refresh with work items `a` and `b` that was written to disk,
/// the store holds exactly `a` and `b`, whatever it held before, and is not
/// stale at the moment of the refresh.
pub proof fn lemma_refresh_holds_exactly(staged: BeadsCache, after: BeadsCache, a: Issue, b: Issue, now_ms: i64)
    requires
        a.id@ != b.id@,
        staged.wf(),
        staged.issues@ == keyed_by_id(seq![a, b]),
        staged.last_full_sync_ms == now_ms,
        after == staged,
    ensures
        after.issues@ == map![a.id@ => a@, b.id@ => b@],
        after.issues.entries@.len() == 2,
        forall|i: int| 0 <= i < 2 ==> (#[trigger] after.issues.entries@[i]).1@ == a@ || after.issues.entries@[i].1@ == b@,
        exists|i: int| 0 <= i < 2 && (#[trigger] after.issues.entries@[i]).1@ == a@,
        exists|i: int| 0 <= i < 2 && (#[trigger] after.issues.entries@[i]).1@ == b@,
        !stale_at(after.last_full_sync_ms as int, now_ms as int),
{
    let s = seq![a, b];
    reveal_with_fuel(keyed_by_id, 3);
    assert(s.drop_last().drop_last() == Seq::<Issue>::empty());
    assert(s.drop_last() == seq![a]);
    let m = map![a.id@ => a@, b.id@ => b@];
    assert(keyed_by_id(s) =~= m);
    let e = after.issues.entries@;
    lemma_map_of(e);
    lemma_dom_len(e);
    assert(m.dom() =~= set![a.id@, b.id@]);
    assert(set![a.id@, b.id@].len() == 2) by {
        assert(set![a.id@, b.id@] == set![a.id@].insert(b.id@));
    }
    assert forall|i: int| 0 <= i < 2 implies (#[trigger] e[i]).1@ == a@ || e[i].1@ == b@ by {
        assert(m.contains_key(e[i].0@));
    }
    assert(m.contains_key(a.id@));
    let ia = choose|i: int| 0 <= i < e.len() && e[i].0@ == a.id@;
    assert(e[ia].1@ == a@);
    assert(m.contains_key(b.id@));
    let ib = choose|i: int| 0 <= i < e.len() && e[i].0@ == b.id@;
    assert(e[ib].1@ == b@);
}

/// An `issue.updated` event whose payload decodes puts exactly the decoded
/// item under its own identifier, replacing what was there, and leaves every
/// other identifier as it was; an `issue.deleted` event for an identifier the
/// store lacks changes nothing.
pub proof fn lemma_issue_events(m: Map<Seq<char>, IssueView>, e: EventView)
    ensures
        e.event_type == "issue.updated"@ && lookup(e.extra, "issue"@) is Some
            && decode_issue(lookup(e.extra, "issue"@)->0) is Some ==> {
            let id = decode_issue(lookup(e.extra, "issue"@)->0)->0.id;
            let r = issues_after(m, e);
            &&& r.contains_key(id)
            &&& r[id] == decode_issue(lookup(e.extra, "issue"@)->0)->0
            &&& forall|k: Seq<char>| k != id ==> (#[trigger] r.contains_key(k) == m.contains_key(k)
                && (m.contains_key(k) ==> r[k] == m[k]))
        },
        e.event_type == "issue.deleted"@ && e.issue_id is Some && !m.contains_key(e.issue_id->0)
            ==> issues_after(m, e) == m,
{
    reveal_strlit("issue.created");
    reveal_strlit("issue.updated");
    reveal_strlit("issue.deleted");
    assert("issue.deleted"@ != "issue.created"@) by {
        assert("issue.deleted"@[6] != "issue.created"@[6]);
    }
    assert("issue.deleted"@ != "issue.updated"@) by {
        assert("issue.deleted"@[6] != "issue.updated"@[6]);
    }
    if e.event_type == "issue.deleted"@ && e.issue_id is Some && !m.contains_key(e.issue_id->0) {
        assert(m.remove(e.issue_id->0) =~= m);
    }
}

/// Events keep every work item and gate under its own identifier.
pub proof fn lemma_events_keep_own_ids(
    issues: Map<Seq<char>, IssueView>,
    gates: Map<Seq<char>, GateView>,
    e: EventView,
)
    requires
        forall|k: Seq<char>| #[trigger] issues.contains_key(k) ==> issues[k].id == k,
        forall|k: Seq<char>| #[trigger] gates.contains_key(k) ==> gates[k].id == k,
    ensures
        forall|k: Seq<char>| #[trigger] issues_after(issues, e).contains_key(k) ==> issues_after(issues, e)[k].id == k,
        forall|k: Seq<char>| #[trigger] gates_after(gates, e).contains_key(k) ==> gates_after(gates, e)[k].id == k,
{
}

proof fn lemma_search_sound(entries: Seq<(String, Issue)>, q: Seq<char>)
    ensures
        forall|i: int| 0 <= i < search_of(entries, q).len() ==> issue_matches((#[trigger] search_of(entries, q)[i])@, q)
            && exists|j: int| 0 <= j < entries.len() && entries[j].1 == search_of(entries, q)[i],
        forall|j: int| 0 <= j < entries.len() && issue_matches((#[trigger] entries[j]).1@, q)
            ==> search_of(entries, q).contains(entries[j].1),
    decreases entries.len(),
{
    if entries.len() > 0 {
        let p = entries.drop_last();
        lemma_search_sound(p, q);
        let r = search_of(p, q);
        assert forall|i: int| 0 <= i < search_of(entries, q).len() implies issue_matches((#[trigger] search_of(entries, q)[i])@, q)
            && exists|j: int| 0 <= j < entries.len() && entries[j].1 == search_of(entries, q)[i] by {
            if i < r.len() {
                assert(search_of(entries, q)[i] == r[i]);
                let j = choose|j: int| 0 <= j < p.len() && p[j].1 == r[i];
                assert(entries[j] == p[j]);
            } else {
                assert(entries[entries.len() - 1].1 == search_of(entries, q)[i]);
            }
        }
        assert forall|j: int| 0 <= j < entries.len() && issue_matches((#[trigger] entries[j]).1@, q)
            implies search_of(entries, q).contains(entries[j].1) by {
            if j < p.len() {
                assert(entries[j] == p[j]);
                assert(r.contains(p[j].1));
                let k = choose|k: int| 0 <= k < r.len() && r[k] == p[j].1;
                assert(search_of(entries, q)[k] == r[k]);
            } else {
                assert(search_of(entries, q).last() == entries[j].1);
            }
        }
    }
}

proof fn lemma_search_is_filter(entries: Seq<(String, Issue)>, q: Seq<char>)
    ensures
        search_of(entries, q) == entries.map_values(|e: (String, Issue)| e.1).filter(
            |i: Issue| issue_matches(i@, q),
        ),
    decreases entries.len(),
{
    let vals = entries.map_values(|e: (String, Issue)| e.1);
    let pred = |i: Issue| issue_matches(i@, q);
    reveal(Seq::filter);
    if entries.len() > 0 {
        lemma_search_is_filter(entries.drop_last(), q);
        assert(vals.drop_last() =~= entries.drop_last().map_values(|e: (String, Issue)| e.1));
        assert(vals.last() == entries.last().1);
        assert(vals.filter(pred) == if pred(vals.last()) {
            vals.drop_last().filter(pred).push(vals.last())
        } else {
            vals.drop_last().filter(pred)
        });
    } else {
        assert(vals =~= Seq::<Issue>::empty());
    }
}

/// A search returns the stored work items that match, each stored entry once
/// and in the store's order: exactly the filter of the stored items by the
/// match, so no match is missed or repeated.
pub proof fn lemma_search_filters_store(c: BeadsCache, query: Seq<char>)
    ensures
        search_of(c.issues.entries@, query) == c.issues.entries@.map_values(|e: (String, Issue)| e.1).filter(
            |i: Issue| issue_matches(i@, query),
        ),
{
    lemma_search_is_filter(c.issues.entries@, query);
}

/// A search returns exactly the work items whose title or status holds the
/// query, ignoring case: each result is a stored item that matches, and each
/// stored item that matches is among the results.
pub proof fn lemma_search_exact(c: BeadsCache, query: Seq<char>)
    ensures
        forall|i: int| 0 <= i < search_of(c.issues.entries@, query).len() ==> {
            let found = #[trigger] search_of(c.issues.entries@, query)[i];
            &&& issue_matches(found@, query)
            &&& exists|j: int| 0 <= j < c.issues.entries@.len() && c.issues.entries@[j].1 == found
        },
        forall|j: int| 0 <= j < c.issues.entries@.len() && issue_matches((#[trigger] c.issues.entries@[j]).1@, query)
            ==> search_of(c.issues.entries@, query).contains(c.issues.entries@[j].1),
{
    lemma_search_sound(c.issues.entries@, query);
}

} // verus!

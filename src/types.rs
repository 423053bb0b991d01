//! The entities mirrored from the issue tracker, their models, and how they
//! are read from JSON.

use vstd::prelude::*;
use crate::json::{JsonValue, JsonModel, fields_model, models_of, lookup, find_field, str_eq};
use crate::json::{lemma_fields_model_len, lemma_fields_model_index, lemma_models_of_index, lemma_models_of_len};

verus! {

pub open spec fn opt_view(o: Option<String>) -> Option<Seq<char>> {
    match o {
        Some(s) => Some(s@),
        None => None,
    }
}

pub open spec fn texts_view(v: Seq<String>) -> Seq<Seq<char>> {
    v.map_values(|s: String| s@)
}

/// A work item.
#[derive(Debug)]
pub struct Issue {
    pub id: String,
    pub title: String,
    pub status: String,
    /// Priority as the tracker sent it (a number or a tagged value).
    pub priority: Option<JsonValue>,
    pub labels: Vec<String>,
    /// Dependency references: a bare identifier, or an object with an `id` field.
    pub dependencies: Vec<JsonValue>,
    pub assignee: Option<String>,
    pub owner: Option<String>,
    pub issue_type: Option<String>,
    /// Fields this library does not interpret, kept as they came.
    pub extra: Vec<(String, JsonValue)>,
}

pub struct IssueView {
    pub id: Seq<char>,
    pub title: Seq<char>,
    pub status: Seq<char>,
    pub priority: Option<JsonModel>,
    pub labels: Seq<Seq<char>>,
    pub dependencies: Seq<JsonModel>,
    pub assignee: Option<Seq<char>>,
    pub owner: Option<Seq<char>>,
    pub issue_type: Option<Seq<char>>,
    pub extra: Seq<(Seq<char>, JsonModel)>,
}

impl View for Issue {
    type V = IssueView;

    open spec fn view(&self) -> IssueView {
        IssueView {
            id: self.id@,
            title: self.title@,
            status: self.status@,
            priority: match self.priority {
                Some(p) => Some(p.model()),
                None => None,
            },
            labels: texts_view(self.labels@),
            dependencies: models_of(self.dependencies@),
            assignee: opt_view(self.assignee),
            owner: opt_view(self.owner),
            issue_type: opt_view(self.issue_type),
            extra: fields_model(self.extra@),
        }
    }
}

/// An approval gate on a work item.
#[derive(Debug)]
pub struct Gate {
    pub id: String,
    pub issue_id: String,
    pub gate_type: String,
    pub status: String,
    pub reason: Option<String>,
    pub extra: Vec<(String, JsonValue)>,
}

pub struct GateView {
    pub id: Seq<char>,
    pub issue_id: Seq<char>,
    pub gate_type: Seq<char>,
    pub status: Seq<char>,
    pub reason: Option<Seq<char>>,
    pub extra: Seq<(Seq<char>, JsonModel)>,
}

impl View for Gate {
    type V = GateView;

    open spec fn view(&self) -> GateView {
        GateView {
            id: self.id@,
            issue_id: self.issue_id@,
            gate_type: self.gate_type@,
            status: self.status@,
            reason: opt_view(self.reason),
            extra: fields_model(self.extra@),
        }
    }
}

/// Summary counts of one grouping (an epic).
#[derive(Debug)]
pub struct EpicStatus {
    pub id: String,
    pub title: String,
    pub total: u32,
    pub open: u32,
    pub closed: u32,
    pub in_progress: u32,
    pub blocked: u32,
    pub extra: Vec<(String, JsonValue)>,
}

pub struct EpicView {
    pub id: Seq<char>,
    pub title: Seq<char>,
    pub total: u32,
    pub open: u32,
    pub closed: u32,
    pub in_progress: u32,
    pub blocked: u32,
    pub extra: Seq<(Seq<char>, JsonModel)>,
}

impl View for EpicStatus {
    type V = EpicView;

    open spec fn view(&self) -> EpicView {
        EpicView {
            id: self.id@,
            title: self.title@,
            total: self.total,
            open: self.open,
            closed: self.closed,
            in_progress: self.in_progress,
            blocked: self.blocked,
            extra: fields_model(self.extra@),
        }
    }
}

/// What an agent reports of itself.
#[derive(Debug)]
pub struct AgentState {
    pub agent_id: String,
    pub status: String,
    pub current_issue: Option<String>,
    pub last_activity: Option<String>,
    pub extra: Vec<(String, JsonValue)>,
}

/// One record of the live event stream.
#[derive(Debug)]
pub struct ActivityEvent {
    pub event_type: String,
    pub issue_id: Option<String>,
    pub gate_id: Option<String>,
    pub timestamp: String,
    /// Kind-specific payloads, such as an embedded `issue` or `gate` object.
    pub extra: Vec<(String, JsonValue)>,
}

pub struct EventView {
    pub event_type: Seq<char>,
    pub issue_id: Option<Seq<char>>,
    pub gate_id: Option<Seq<char>>,
    pub timestamp: Seq<char>,
    pub extra: Seq<(Seq<char>, JsonModel)>,
}

impl View for ActivityEvent {
    type V = EventView;

    open spec fn view(&self) -> EventView {
        EventView {
            event_type: self.event_type@,
            issue_id: opt_view(self.issue_id),
            gate_id: opt_view(self.gate_id),
            timestamp: self.timestamp@,
            extra: fields_model(self.extra@),
        }
    }
}

// ---- Reading typed fields out of a JSON object ----

/// A required text field: present and a string.
pub open spec fn req_text(v: Option<JsonModel>) -> Option<Seq<char>> {
    match v {
        Some(JsonModel::Str(s)) => Some(s),
        _ => None,
    }
}

/// An optional text field: absent or null gives `Some(None)`, a string gives
/// `Some(Some(s))`, anything else is a type error (`None`).
pub open spec fn opt_text(v: Option<JsonModel>) -> Option<Option<Seq<char>>> {
    match v {
        None => Some(None),
        Some(JsonModel::Null) => Some(None),
        Some(JsonModel::Str(s)) => Some(Some(s)),
        _ => None,
    }
}

/// An optional loosely-typed field: absent or null is no value.
pub open spec fn opt_value(v: Option<JsonModel>) -> Option<JsonModel> {
    match v {
        None => None,
        Some(JsonModel::Null) => None,
        Some(m) => Some(m),
    }
}

/// A list of values that defaults to empty when absent.
pub open spec fn value_list(v: Option<JsonModel>) -> Option<Seq<JsonModel>> {
    match v {
        None => Some(Seq::empty()),
        Some(JsonModel::Array(items)) => Some(items),
        _ => None,
    }
}

pub open spec fn all_str(items: Seq<JsonModel>) -> bool {
    forall|i: int| 0 <= i < items.len() ==> (#[trigger] items[i]) is Str
}

pub open spec fn str_texts(items: Seq<JsonModel>) -> Seq<Seq<char>> {
    items.map_values(|m: JsonModel| m->Str_0)
}

/// A list of texts that defaults to empty when absent.
pub open spec fn text_list(v: Option<JsonModel>) -> Option<Seq<Seq<char>>> {
    match v {
        None => Some(Seq::empty()),
        Some(JsonModel::Array(items)) => if all_str(items) {
            Some(str_texts(items))
        } else {
            None
        },
        _ => None,
    }
}

/// The three record shapes read from JSON; each names its own fields.
#[derive(Clone, Copy, Debug)]
pub enum Schema {
    Issue,
    Gate,
    Event,
}

/// Whether `k` is a field that `schema` reads itself.
pub open spec fn schema_key(schema: Schema, k: Seq<char>) -> bool {
    match schema {
        Schema::Issue => k == "id"@ || k == "title"@ || k == "status"@ || k == "priority"@
            || k == "labels"@ || k == "dependencies"@ || k == "assignee"@ || k == "owner"@
            || k == "issue_type"@,
        Schema::Gate => k == "id"@ || k == "issue_id"@ || k == "gate_type"@ || k == "status"@
            || k == "reason"@,
        Schema::Event => k == "event_type"@ || k == "issue_id"@ || k == "gate_id"@
            || k == "timestamp"@,
    }
}

pub fn is_schema_key(schema: Schema, k: &str) -> (r: bool)
    ensures
        r == schema_key(schema, k@),
{
    match schema {
        Schema::Issue => str_eq(k, "id") || str_eq(k, "title") || str_eq(k, "status")
            || str_eq(k, "priority") || str_eq(k, "labels") || str_eq(k, "dependencies")
            || str_eq(k, "assignee") || str_eq(k, "owner") || str_eq(k, "issue_type"),
        Schema::Gate => str_eq(k, "id") || str_eq(k, "issue_id") || str_eq(k, "gate_type")
            || str_eq(k, "status") || str_eq(k, "reason"),
        Schema::Event => str_eq(k, "event_type") || str_eq(k, "issue_id")
            || str_eq(k, "gate_id") || str_eq(k, "timestamp"),
    }
}

/// The fields whose names `schema` does not read, in their order.
pub open spec fn unknown_fields(
    fs: Seq<(Seq<char>, JsonModel)>,
    schema: Schema,
) -> Seq<(Seq<char>, JsonModel)>
    decreases fs.len(),
{
    if fs.len() == 0 {
        Seq::empty()
    } else {
        let r = unknown_fields(fs.drop_last(), schema);
        if schema_key(schema, fs.last().0) {
            r
        } else {
            r.push(fs.last())
        }
    }
}

pub fn required_text(fields: &Vec<(String, JsonValue)>, key: &str) -> (r: Option<String>)
    ensures
        opt_view(r) == req_text(lookup(fields_model(fields@), key@)),
{
    match find_field(fields, key) {
        Some(i) => match &fields[i].1 {
            JsonValue::Str(s) => Some(s.clone()),
            _ => None,
        },
        None => None,
    }
}

pub fn optional_text(fields: &Vec<(String, JsonValue)>, key: &str) -> (r: Option<Option<String>>)
    ensures
        match r {
            Some(o) => opt_text(lookup(fields_model(fields@), key@)) == Some(opt_view(o)),
            None => opt_text(lookup(fields_model(fields@), key@)) is None,
        },
{
    match find_field(fields, key) {
        Some(i) => match &fields[i].1 {
            JsonValue::Null => Some(None),
            JsonValue::Str(s) => Some(Some(s.clone())),
            _ => None,
        },
        None => Some(None),
    }
}

pub fn optional_value(fields: &Vec<(String, JsonValue)>, key: &str) -> (r: Option<JsonValue>)
    ensures
        match r {
            Some(v) => opt_value(lookup(fields_model(fields@), key@)) == Some(v.model()),
            None => opt_value(lookup(fields_model(fields@), key@)) is None,
        },
{
    match find_field(fields, key) {
        Some(i) => match &fields[i].1 {
            JsonValue::Null => None,
            v => Some(v.deep_copy()),
        },
        None => None,
    }
}

pub fn values_of(fields: &Vec<(String, JsonValue)>, key: &str) -> (r: Option<Vec<JsonValue>>)
    ensures
        match r {
            Some(v) => value_list(lookup(fields_model(fields@), key@)) == Some(models_of(v@)),
            None => value_list(lookup(fields_model(fields@), key@)) is None,
        },
{
    match find_field(fields, key) {
        Some(i) => match &fields[i].1 {
            JsonValue::Array(items) => Some(crate::json::copy_values(items)),
            _ => None,
        },
        None => Some(Vec::new()),
    }
}



pub fn texts_of(fields: &Vec<(String, JsonValue)>, key: &str) -> (r: Option<Vec<String>>)
    ensures
        match r {
            Some(v) => text_list(lookup(fields_model(fields@), key@)) == Some(texts_view(v@)),
            None => text_list(lookup(fields_model(fields@), key@)) is None,
        },
{
    match find_field(fields, key) {
        Some(i) => match &fields[i].1 {
            JsonValue::Array(items) => {
                let ghost ms = models_of(items@);
                proof {
                    lemma_models_of_len(items@);
                }
                let mut out: Vec<String> = Vec::new();
                let mut j: usize = 0;
                while j < items.len()
                    invariant
                        j <= items@.len(),
                        ms == models_of(items@),
                        ms.len() == items@.len(),
                        lookup(fields_model(fields@), key@) == Some(JsonModel::Array(ms)),
                        all_str(ms.subrange(0, j as int)),
                        texts_view(out@) == str_texts(ms.subrange(0, j as int)),
                    decreases items@.len() - j,
                {
                    proof {
                        lemma_models_of_index(items@, j as int);
                        assert(ms.subrange(0, j + 1) == ms.subrange(0, j as int).push(ms[j as int]));
                    }
                    let ghost before = out@;
                    match &items[j] {
                        JsonValue::Str(s) => {
                            out.push(s.clone());
                            proof {
                                assert(texts_view(out@) =~= texts_view(before).push(s@));
                                assert(str_texts(ms.subrange(0, j + 1)) =~= str_texts(
                                    ms.subrange(0, j as int),
                                ).push(s@));
                            }
                        },
                        _ => {
                            proof {
                                assert(!(ms[j as int] is Str));
                                assert(!all_str(ms));
                            }
                            return None;
                        },
                    }
                    proof {
                        assert(texts_view(out@) == str_texts(ms.subrange(0, j + 1)));
                    }
                    j += 1;
                }
                proof {
                    assert(ms.subrange(0, j as int) == ms);
                }
                Some(out)
            },
            _ => None,
        },
        None => Some(Vec::new()),
    }
}

/// The fields of `fields` that `schema` does not read, copied.
pub fn other_fields(fields: &Vec<(String, JsonValue)>, schema: Schema) -> (r: Vec<(String, JsonValue)>)
    ensures
        fields_model(r@) == unknown_fields(fields_model(fields@), schema),
{
    let ghost fm = fields_model(fields@);
    proof {
        lemma_fields_model_len(fields@);
    }
    let mut out: Vec<(String, JsonValue)> = Vec::new();
    let mut i: usize = 0;
    while i < fields.len()
        invariant
            i <= fields@.len(),
            fm == fields_model(fields@),
            fm.len() == fields@.len(),
            fields_model(out@) == unknown_fields(fm.subrange(0, i as int), schema),
        decreases fields@.len() - i,
    {
        proof {
            lemma_fields_model_index(fields@, i as int);
            assert(fm.subrange(0, i + 1).drop_last() == fm.subrange(0, i as int));
        }
        if !is_schema_key(schema, fields[i].0.as_str()) {
            let v = fields[i].1.deep_copy();
            let k = fields[i].0.clone();
            let ghost before = out@;
            out.push((k, v));
            proof {
                assert(out@.drop_last() == before);
            }
        }
        i += 1;
    }
    proof {
        assert(fm.subrange(0, i as int) == fm);
    }
    out
}

} // verus!

verus! {

/// What an issue record decodes to, or `None` where a required field is
/// missing or a field has the wrong type.
pub open spec fn decode_issue(m: JsonModel) -> Option<IssueView> {
    match m {
        JsonModel::Object(fs) => {
            let id = req_text(lookup(fs, "id"@));
            let title = req_text(lookup(fs, "title"@));
            let status = req_text(lookup(fs, "status"@));
            let labels = text_list(lookup(fs, "labels"@));
            let deps = value_list(lookup(fs, "dependencies"@));
            let assignee = opt_text(lookup(fs, "assignee"@));
            let owner = opt_text(lookup(fs, "owner"@));
            let issue_type = opt_text(lookup(fs, "issue_type"@));
            if id is Some && title is Some && status is Some && labels is Some && deps is Some
                && assignee is Some && owner is Some && issue_type is Some {
                Some(IssueView {
                    id: id->0,
                    title: title->0,
                    status: status->0,
                    priority: opt_value(lookup(fs, "priority"@)),
                    labels: labels->0,
                    dependencies: deps->0,
                    assignee: assignee->0,
                    owner: owner->0,
                    issue_type: issue_type->0,
                    extra: unknown_fields(fs, Schema::Issue),
                })
            } else {
                None
            }
        },
        _ => None,
    }
}

/// What a gate record decodes to.
pub open spec fn decode_gate(m: JsonModel) -> Option<GateView> {
    match m {
        JsonModel::Object(fs) => {
            let id = req_text(lookup(fs, "id"@));
            let issue_id = req_text(lookup(fs, "issue_id"@));
            let gate_type = req_text(lookup(fs, "gate_type"@));
            let status = req_text(lookup(fs, "status"@));
            let reason = opt_text(lookup(fs, "reason"@));
            if id is Some && issue_id is Some && gate_type is Some && status is Some
                && reason is Some {
                Some(GateView {
                    id: id->0,
                    issue_id: issue_id->0,
                    gate_type: gate_type->0,
                    status: status->0,
                    reason: reason->0,
                    extra: unknown_fields(fs, Schema::Gate),
                })
            } else {
                None
            }
        },
        _ => None,
    }
}

/// What an event record decodes to.
pub open spec fn decode_event(m: JsonModel) -> Option<EventView> {
    match m {
        JsonModel::Object(fs) => {
            let event_type = req_text(lookup(fs, "event_type"@));
            let issue_id = opt_text(lookup(fs, "issue_id"@));
            let gate_id = opt_text(lookup(fs, "gate_id"@));
            let timestamp = req_text(lookup(fs, "timestamp"@));
            if event_type is Some && issue_id is Some && gate_id is Some && timestamp is Some {
                Some(EventView {
                    event_type: event_type->0,
                    issue_id: issue_id->0,
                    gate_id: gate_id->0,
                    timestamp: timestamp->0,
                    extra: unknown_fields(fs, Schema::Event),
                })
            } else {
                None
            }
        },
        _ => None,
    }
}

pub open spec fn text_or_null(o: Option<Seq<char>>) -> JsonModel {
    match o {
        Some(s) => JsonModel::Str(s),
        None => JsonModel::Null,
    }
}

/// The JSON record of an event: its own fields first, then the others.
pub open spec fn encode_event(e: EventView) -> JsonModel {
    JsonModel::Object(
        seq![
            ("event_type"@, JsonModel::Str(e.event_type)),
            ("issue_id"@, text_or_null(e.issue_id)),
            ("gate_id"@, text_or_null(e.gate_id)),
            ("timestamp"@, JsonModel::Str(e.timestamp)),
        ] + e.extra,
    )
}

/// The identifier a dependency reference names: a bare string, or the
/// string `id` field of an object.
pub open spec fn dependency_id(m: JsonModel) -> Option<Seq<char>> {
    match m {
        JsonModel::Str(s) => Some(s),
        JsonModel::Object(fs) => req_text(lookup(fs, "id"@)),
        _ => None,
    }
}

/// The identifiers of a list of dependency references, in order, skipping
/// references that name none.
pub open spec fn dependency_ids_of(deps: Seq<JsonModel>) -> Seq<Seq<char>>
    decreases deps.len(),
{
    if deps.len() == 0 {
        Seq::empty()
    } else {
        let r = dependency_ids_of(deps.drop_last());
        match dependency_id(deps.last()) {
            Some(id) => r.push(id),
            None => r,
        }
    }
}

pub open spec fn effective_assignee_of(i: IssueView) -> Option<Seq<char>> {
    match i.assignee {
        Some(a) => Some(a),
        None => i.owner,
    }
}


fn text_or_null_value(o: &Option<String>) -> (r: JsonValue)
    ensures
        r.model() == text_or_null(opt_view(*o)),
{
    match o {
        Some(s) => JsonValue::Str(s.clone()),
        None => JsonValue::Null,
    }
}

/// The identifier of one dependency reference.
pub fn dependency_id_exec(v: &JsonValue) -> (r: Option<String>)
    ensures
        opt_view(r) == dependency_id(v.model()),
{
    match v {
        JsonValue::Str(s) => Some(s.clone()),
        JsonValue::Object(fields) => required_text(fields, "id"),
        _ => None,
    }
}

impl Issue {
    /// The assignee if there is one, else the owner.
    pub fn effective_assignee(&self) -> (r: Option<&String>)
        ensures
            match r {
                Some(s) => effective_assignee_of(self@) == Some(s@),
                None => effective_assignee_of(self@) is None,
            },
    {
        match &self.assignee {
            Some(a) => Some(a),
            None => match &self.owner {
                Some(o) => Some(o),
                None => None,
            },
        }
    }

    /// The identifiers of the dependency references, in order.
    pub fn dependency_ids(&self) -> (r: Vec<String>)
        ensures
            texts_view(r@) == dependency_ids_of(self@.dependencies),
    {
        let deps = &self.dependencies;
        let mut out: Vec<String> = Vec::new();
        let mut i: usize = 0;
        proof {
            lemma_models_of_len(deps@);
        }
        while i < deps.len()
            invariant
                i <= deps@.len(),
                *deps == self.dependencies,
                models_of(deps@).len() == deps@.len(),
                texts_view(out@) == dependency_ids_of(models_of(deps@).subrange(0, i as int)),
            decreases deps@.len() - i,
        {
            proof {
                lemma_models_of_index(deps@, i as int);
                assert(models_of(deps@).subrange(0, i + 1).drop_last() == models_of(deps@).subrange(0, i as int));
            }
            let ghost before = out@;
            match dependency_id_exec(&deps[i]) {
                Some(id) => {
                    out.push(id);
                    proof {
                        assert(texts_view(out@) =~= texts_view(before).push(id@));
                    }
                },
                None => {},
            }
            i += 1;
        }
        proof {
            assert(models_of(deps@).subrange(0, i as int) == models_of(deps@));
        }
        out
    }

    /// Reads an issue record; `None` where a required field is missing or a
    /// field has the wrong type.
    pub fn from_json(v: &JsonValue) -> (r: Option<Issue>)
        ensures
            match r {
                Some(i) => decode_issue(v.model()) == Some(i@),
                None => decode_issue(v.model()) is None,
            },
    {
        match v {
            JsonValue::Object(fields) => {
                let id = required_text(fields, "id");
                let title = required_text(fields, "title");
                let status = required_text(fields, "status");
                let labels = texts_of(fields, "labels");
                let deps = values_of(fields, "dependencies");
                let assignee = optional_text(fields, "assignee");
                let owner = optional_text(fields, "owner");
                let issue_type = optional_text(fields, "issue_type");
                match (id, title, status, labels, deps, assignee, owner, issue_type) {
                    (
                        Some(id),
                        Some(title),
                        Some(status),
                        Some(labels),
                        Some(dependencies),
                        Some(assignee),
                        Some(owner),
                        Some(issue_type),
                    ) => {
                        let priority = optional_value(fields, "priority");
                        let extra = other_fields(fields, Schema::Issue);
                        let r = Issue {
                            id,
                            title,
                            status,
                            priority,
                            labels,
                            dependencies,
                            assignee,
                            owner,
                            issue_type,
                            extra,
                        };
                        Some(r)
                    },
                    _ => None,
                }
            },
            _ => None,
        }
    }
}

impl Gate {
    /// Reads a gate record; `None` where a required field is missing or a
    /// field has the wrong type.
    pub fn from_json(v: &JsonValue) -> (r: Option<Gate>)
        ensures
            match r {
                Some(g) => decode_gate(v.model()) == Some(g@),
                None => decode_gate(v.model()) is None,
            },
    {
        match v {
            JsonValue::Object(fields) => {
                let id = required_text(fields, "id");
                let issue_id = required_text(fields, "issue_id");
                let gate_type = required_text(fields, "gate_type");
                let status = required_text(fields, "status");
                let reason = optional_text(fields, "reason");
                match (id, issue_id, gate_type, status, reason) {
                    (Some(id), Some(issue_id), Some(gate_type), Some(status), Some(reason)) => {
                        let extra = other_fields(fields, Schema::Gate);
                        Some(Gate { id, issue_id, gate_type, status, reason, extra })
                    },
                    _ => None,
                }
            },
            _ => None,
        }
    }
}

impl ActivityEvent {
    /// Reads an event record; `None` where a required field is missing or a
    /// field has the wrong type.
    pub fn from_json(v: &JsonValue) -> (r: Option<ActivityEvent>)
        ensures
            match r {
                Some(e) => decode_event(v.model()) == Some(e@),
                None => decode_event(v.model()) is None,
            },
    {
        match v {
            JsonValue::Object(fields) => {
                let event_type = required_text(fields, "event_type");
                let issue_id = optional_text(fields, "issue_id");
                let gate_id = optional_text(fields, "gate_id");
                let timestamp = required_text(fields, "timestamp");
                match (event_type, issue_id, gate_id, timestamp) {
                    (Some(event_type), Some(issue_id), Some(gate_id), Some(timestamp)) => {
                        let extra = other_fields(fields, Schema::Event);
                        Some(ActivityEvent { event_type, issue_id, gate_id, timestamp, extra })
                    },
                    _ => None,
                }
            },
            _ => None,
        }
    }

    /// The JSON record of this event.
    pub fn to_json(&self) -> (r: JsonValue)
        ensures
            r.model() == encode_event(self@),
    {
        let mut fields: Vec<(String, JsonValue)> = Vec::new();
        fields.push((String::from_str("event_type"), JsonValue::Str(self.event_type.clone())));
        fields.push((String::from_str("issue_id"), text_or_null_value(&self.issue_id)));
        fields.push((String::from_str("gate_id"), text_or_null_value(&self.gate_id)));
        fields.push((String::from_str("timestamp"), JsonValue::Str(self.timestamp.clone())));
        let ghost head = fields@;
        proof {
            assert(fields_model(head) =~= seq![
                ("event_type"@, JsonModel::Str(self@.event_type)),
                ("issue_id"@, text_or_null(self@.issue_id)),
                ("gate_id"@, text_or_null(self@.gate_id)),
                ("timestamp"@, JsonModel::Str(self@.timestamp)),
            ]) by {
                reveal_with_fuel(fields_model, 5);
                assert(head.drop_last().drop_last().drop_last().drop_last() == Seq::<(String, JsonValue)>::empty());
            }
        }
        let mut i: usize = 0;
        while i < self.extra.len()
            invariant
                i <= self.extra@.len(),
                fields@.len() == 4 + i,
                fields@.subrange(0, 4) == head,
                fields_model(fields@) == fields_model(head) + fields_model(self.extra@.subrange(0, i as int)),
            decreases self.extra@.len() - i,
        {
            let v = self.extra[i].1.deep_copy();
            let k = self.extra[i].0.clone();
            proof {
                assert(self.extra@.subrange(0, i + 1).drop_last() == self.extra@.subrange(0, i as int));
            }
            let ghost before = fields@;
            fields.push((k, v));
            proof {
                assert(fields@.drop_last() == before);
                assert(fields@.subrange(0, 4) == head);
            }
            i += 1;
        }
        proof {
            assert(self.extra@.subrange(0, i as int) == self.extra@);
        }
        JsonValue::Object(fields)
    }
}

} // verus!

verus! {

proof fn lemma_unknown_after_known(
    head: Seq<(Seq<char>, JsonModel)>,
    extra: Seq<(Seq<char>, JsonModel)>,
    schema: Schema,
)
    requires
        unknown_fields(head, schema) == Seq::<(Seq<char>, JsonModel)>::empty(),
        forall|i: int| 0 <= i < extra.len() ==> !schema_key(schema, (#[trigger] extra[i]).0),
    ensures
        unknown_fields(head + extra, schema) == extra,
    decreases extra.len(),
{
    if extra.len() == 0 {
        assert(head + extra == head);
    } else {
        lemma_unknown_after_known(head, extra.drop_last(), schema);
        assert((head + extra).drop_last() == head + extra.drop_last());
        assert((head + extra).last() == extra.last());
        assert(extra.drop_last().push(extra.last()) == extra);
    }
}

/// An event written as JSON by `ActivityEvent::to_json` reads back, through
/// `ActivityEvent::from_json`, as the same event, provided that none of its
/// other fields reuses the name of one of its own fields.
pub proof fn lemma_event_round_trip(e: EventView)
    requires
        forall|i: int| 0 <= i < e.extra.len() ==> !schema_key(Schema::Event, (#[trigger] e.extra[i]).0),
    ensures
        decode_event(encode_event(e)) == Some(e),
{
    reveal_strlit("event_type");
    reveal_strlit("issue_id");
    reveal_strlit("gate_id");
    reveal_strlit("timestamp");
    let head = seq![
        ("event_type"@, JsonModel::Str(e.event_type)),
        ("issue_id"@, text_or_null(e.issue_id)),
        ("gate_id"@, text_or_null(e.gate_id)),
        ("timestamp"@, JsonModel::Str(e.timestamp)),
    ];
    let fs = head + e.extra;
    assert(fs[0] == head[0]);
    assert(fs.drop_first()[0] == head[1]);
    assert(fs.drop_first().drop_first()[0] == head[2]);
    assert(fs.drop_first().drop_first().drop_first()[0] == head[3]);
    assert("event_type"@ != "issue_id"@) by {
        assert("event_type"@[0] != "issue_id"@[0]);
    }
    assert("event_type"@ != "gate_id"@) by {
        assert("event_type"@[0] != "gate_id"@[0]);
    }
    assert("issue_id"@ != "gate_id"@) by {
        assert("issue_id"@[0] != "gate_id"@[0]);
    }
    assert("event_type"@ != "timestamp"@);
    assert("issue_id"@ != "timestamp"@);
    assert("gate_id"@ != "timestamp"@);
    assert(lookup(fs, "event_type"@) == Some(JsonModel::Str(e.event_type)));
    assert(lookup(fs, "issue_id"@) == Some(text_or_null(e.issue_id))) by {
        reveal_with_fuel(lookup, 2);
    }
    assert(lookup(fs, "gate_id"@) == Some(text_or_null(e.gate_id))) by {
        reveal_with_fuel(lookup, 3);
    }
    assert(lookup(fs, "timestamp"@) == Some(JsonModel::Str(e.timestamp))) by {
        reveal_with_fuel(lookup, 4);
    }
    assert(unknown_fields(head, Schema::Event) == Seq::<(Seq<char>, JsonModel)>::empty()) by {
        reveal_with_fuel(unknown_fields, 5);
        assert(head.drop_last().drop_last().drop_last().drop_last() == Seq::<(Seq<char>, JsonModel)>::empty());
    }
    lemma_unknown_after_known(head, e.extra, Schema::Event);
}

} // verus!

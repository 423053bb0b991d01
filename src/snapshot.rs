//! The persisted snapshot file: its JSON form, written and read.

use vstd::prelude::*;
use crate::json::{JsonValue, JsonModel, fields_model, models_of, lookup, find_field, copy_values, lemma_fields_model_len, lemma_fields_model_index};
use crate::types::{
    Issue, IssueView, Gate, GateView, EpicStatus, EpicView, Schema, decode_issue, decode_gate, text_or_null,
    unknown_fields, other_fields, required_text, texts_view, req_text,
};
use crate::decimal::{decimal_of, decimal_value, is_digits, u32_text, parse_u32};
use crate::cache::{BeadsCache, SerializedCache};

verus! {

/// The instant that an RFC 3339 text names, in milliseconds since the Unix
/// epoch, as chrono reads it.
pub uninterp spec fn rfc3339_millis(s: Seq<char>) -> Option<i64>;

/// The RFC 3339 text (UTC, `Z` suffix) of an instant in milliseconds since
/// the Unix epoch, as chrono writes it.
pub uninterp spec fn rfc3339_of(ms: i64) -> Option<Seq<char>>;

/// Relies on `chrono::DateTime::parse_from_rfc3339`, then `timestamp_millis`:
/// the result depends on the text alone.
#[verifier::external_body]
pub fn parse_rfc3339_millis(s: &str) -> (r: Option<i64>)
    ensures
        r == rfc3339_millis(s@),
{
    chrono::DateTime::parse_from_rfc3339(s).ok().map(|d| d.timestamp_millis())
}

/// Relies on `chrono::DateTime::<Utc>::from_timestamp_millis`, then
/// `to_rfc3339_opts(SecondsFormat::AutoSi, true)`: `None` out of chrono's
/// range; the result depends on the number alone.
#[verifier::external_body]
pub fn rfc3339_text(ms: i64) -> (r: Option<String>)
    ensures
        match r {
            Some(t) => rfc3339_of(ms) == Some(t@),
            None => rfc3339_of(ms) is None,
        },
{
    chrono::DateTime::<chrono::Utc>::from_timestamp_millis(ms).map(
        |d| d.to_rfc3339_opts(chrono::SecondsFormat::AutoSi, true),
    )
}

// ---- Entities as JSON ----

pub open spec fn value_or_null(o: Option<JsonModel>) -> JsonModel {
    match o {
        Some(m) => m,
        None => JsonModel::Null,
    }
}

pub open spec fn text_array(s: Seq<Seq<char>>) -> JsonModel {
    JsonModel::Array(s.map_values(|t: Seq<char>| JsonModel::Str(t)))
}

pub open spec fn number_of(n: u32) -> JsonModel {
    JsonModel::Number(decimal_of(n as nat))
}

/// The JSON record of an issue: its own fields first, then the others.
pub open spec fn encode_issue(i: IssueView) -> JsonModel {
    JsonModel::Object(
        seq![
            ("id"@, JsonModel::Str(i.id)),
            ("title"@, JsonModel::Str(i.title)),
            ("status"@, JsonModel::Str(i.status)),
            ("priority"@, value_or_null(i.priority)),
            ("labels"@, text_array(i.labels)),
            ("dependencies"@, JsonModel::Array(i.dependencies)),
            ("assignee"@, text_or_null(i.assignee)),
            ("owner"@, text_or_null(i.owner)),
            ("issue_type"@, text_or_null(i.issue_type)),
        ] + i.extra,
    )
}

/// The JSON record of a gate.
pub open spec fn encode_gate(g: GateView) -> JsonModel {
    JsonModel::Object(
        seq![
            ("id"@, JsonModel::Str(g.id)),
            ("issue_id"@, JsonModel::Str(g.issue_id)),
            ("gate_type"@, JsonModel::Str(g.gate_type)),
            ("status"@, JsonModel::Str(g.status)),
            ("reason"@, text_or_null(g.reason)),
        ] + g.extra,
    )
}

/// The JSON record of a grouping summary.
pub open spec fn encode_epic(e: EpicView) -> JsonModel {
    JsonModel::Object(
        seq![
            ("id"@, JsonModel::Str(e.id)),
            ("title"@, JsonModel::Str(e.title)),
            ("total"@, number_of(e.total)),
            ("open"@, number_of(e.open)),
            ("closed"@, number_of(e.closed)),
            ("in_progress"@, number_of(e.in_progress)),
            ("blocked"@, number_of(e.blocked)),
        ] + e.extra,
    )
}

/// A count field: a number written in decimal that fits in a `u32`.
pub open spec fn req_count(v: Option<JsonModel>) -> Option<u32> {
    match v {
        Some(JsonModel::Number(t)) => if is_digits(t) && decimal_value(t) <= u32::MAX {
            Some(decimal_value(t) as u32)
        } else {
            None
        },
        _ => None,
    }
}

pub open spec fn epic_key(k: Seq<char>) -> bool {
    k == "id"@ || k == "title"@ || k == "total"@ || k == "open"@ || k == "closed"@ || k == "in_progress"@
        || k == "blocked"@
}

/// The fields that a grouping summary does not read, in their order.
pub open spec fn epic_unknown_fields(fs: Seq<(Seq<char>, JsonModel)>) -> Seq<(Seq<char>, JsonModel)>
    decreases fs.len(),
{
    if fs.len() == 0 {
        Seq::empty()
    } else {
        let r = epic_unknown_fields(fs.drop_last());
        if epic_key(fs.last().0) {
            r
        } else {
            r.push(fs.last())
        }
    }
}

/// What a grouping summary record decodes to.
pub open spec fn decode_epic(m: JsonModel) -> Option<EpicView> {
    match m {
        JsonModel::Object(fs) => {
            let id = req_text(lookup(fs, "id"@));
            let title = req_text(lookup(fs, "title"@));
            let total = req_count(lookup(fs, "total"@));
            let open = req_count(lookup(fs, "open"@));
            let closed = req_count(lookup(fs, "closed"@));
            let in_progress = req_count(lookup(fs, "in_progress"@));
            let blocked = req_count(lookup(fs, "blocked"@));
            if id is Some && title is Some && total is Some && open is Some && closed is Some
                && in_progress is Some && blocked is Some {
                Some(EpicView {
                    id: id->0,
                    title: title->0,
                    total: total->0,
                    open: open->0,
                    closed: closed->0,
                    in_progress: in_progress->0,
                    blocked: blocked->0,
                    extra: epic_unknown_fields(fs),
                })
            } else {
                None
            }
        },
        _ => None,
    }
}

fn push_field(out: &mut Vec<(String, JsonValue)>, key: &str, value: JsonValue)
    ensures
        fields_model(final(out)@) == fields_model(old(out)@).push((key@, value.model())),
{
    let ghost before = out@;
    out.push((String::from_str(key), value));
    proof {
        assert(out@.drop_last() == before);
    }
}

fn append_fields(out: &mut Vec<(String, JsonValue)>, extra: &Vec<(String, JsonValue)>)
    ensures
        fields_model(final(out)@) == fields_model(old(out)@) + fields_model(extra@),
{
    let ghost start = fields_model(out@);
    let mut i: usize = 0;
    proof {
        assert(start + fields_model(extra@.subrange(0, 0)) == start) by {
            assert(extra@.subrange(0, 0) == Seq::<(String, JsonValue)>::empty());
        }
    }
    while i < extra.len()
        invariant
            i <= extra@.len(),
            fields_model(out@) == start + fields_model(extra@.subrange(0, i as int)),
        decreases extra@.len() - i,
    {
        let v = extra[i].1.deep_copy();
        let k = extra[i].0.clone();
        proof {
            assert(extra@.subrange(0, i + 1).drop_last() == extra@.subrange(0, i as int));
        }
        let ghost before = out@;
        out.push((k, v));
        proof {
            assert(out@.drop_last() == before);
        }
        i += 1;
    }
    proof {
        assert(extra@.subrange(0, i as int) == extra@);
    }
}

fn opt_text_value(o: &Option<String>) -> (r: JsonValue)
    ensures
        r.model() == text_or_null(crate::types::opt_view(*o)),
{
    match o {
        Some(s) => JsonValue::Str(s.clone()),
        None => JsonValue::Null,
    }
}

fn text_array_value(v: &Vec<String>) -> (r: JsonValue)
    ensures
        r.model() == text_array(texts_view(v@)),
{
    let mut out: Vec<JsonValue> = Vec::new();
    let mut i: usize = 0;
    while i < v.len()
        invariant
            i <= v@.len(),
            out@.len() == i,
            models_of(out@) == texts_view(v@).subrange(0, i as int).map_values(|t: Seq<char>| JsonModel::Str(t)),
        decreases v@.len() - i,
    {
        let ghost before = out@;
        let ghost tv = texts_view(v@);
        let item = JsonValue::Str(v[i].clone());
        assert(item.model() == JsonModel::Str(v@[i as int]@));
        out.push(item);
        proof {
            assert(out@.drop_last() == before);
            assert(out@.last() == item);
            assert(models_of(out@) == models_of(before).push(JsonModel::Str(v@[i as int]@)));
            assert(tv[i as int] == v@[i as int]@);
            assert(tv.subrange(0, i + 1) == tv.subrange(0, i as int).push(tv[i as int]));
            assert(tv.subrange(0, i + 1).map_values(|t: Seq<char>| JsonModel::Str(t)) =~= tv.subrange(
                0,
                i as int,
            ).map_values(|t: Seq<char>| JsonModel::Str(t)).push(JsonModel::Str(tv[i as int])));
        }
        i += 1;
    }
    proof {
        assert(texts_view(v@).subrange(0, i as int) == texts_view(v@));
    }
    JsonValue::Array(out)
}

impl Issue {
    /// The JSON record of this issue.
    pub fn to_json(&self) -> (r: JsonValue)
        ensures
            r.model() == encode_issue(self@),
    {
        let mut f: Vec<(String, JsonValue)> = Vec::new();
        push_field(&mut f, "id", JsonValue::Str(self.id.clone()));
        push_field(&mut f, "title", JsonValue::Str(self.title.clone()));
        push_field(&mut f, "status", JsonValue::Str(self.status.clone()));
        let priority = match &self.priority {
            Some(p) => p.deep_copy(),
            None => JsonValue::Null,
        };
        push_field(&mut f, "priority", priority);
        push_field(&mut f, "labels", text_array_value(&self.labels));
        push_field(&mut f, "dependencies", JsonValue::Array(copy_values(&self.dependencies)));
        push_field(&mut f, "assignee", opt_text_value(&self.assignee));
        push_field(&mut f, "owner", opt_text_value(&self.owner));
        push_field(&mut f, "issue_type", opt_text_value(&self.issue_type));
        append_fields(&mut f, &self.extra);
        proof {
            assert(fields_model(f@) =~= seq![
                ("id"@, JsonModel::Str(self@.id)),
                ("title"@, JsonModel::Str(self@.title)),
                ("status"@, JsonModel::Str(self@.status)),
                ("priority"@, value_or_null(self@.priority)),
                ("labels"@, text_array(self@.labels)),
                ("dependencies"@, JsonModel::Array(self@.dependencies)),
                ("assignee"@, text_or_null(self@.assignee)),
                ("owner"@, text_or_null(self@.owner)),
                ("issue_type"@, text_or_null(self@.issue_type)),
            ] + self@.extra);
        }
        JsonValue::Object(f)
    }
}

impl Gate {
    /// The JSON record of this gate.
    pub fn to_json(&self) -> (r: JsonValue)
        ensures
            r.model() == encode_gate(self@),
    {
        let mut f: Vec<(String, JsonValue)> = Vec::new();
        push_field(&mut f, "id", JsonValue::Str(self.id.clone()));
        push_field(&mut f, "issue_id", JsonValue::Str(self.issue_id.clone()));
        push_field(&mut f, "gate_type", JsonValue::Str(self.gate_type.clone()));
        push_field(&mut f, "status", JsonValue::Str(self.status.clone()));
        push_field(&mut f, "reason", opt_text_value(&self.reason));
        append_fields(&mut f, &self.extra);
        proof {
            assert(fields_model(f@) =~= seq![
                ("id"@, JsonModel::Str(self@.id)),
                ("issue_id"@, JsonModel::Str(self@.issue_id)),
                ("gate_type"@, JsonModel::Str(self@.gate_type)),
                ("status"@, JsonModel::Str(self@.status)),
                ("reason"@, text_or_null(self@.reason)),
            ] + self@.extra);
        }
        JsonValue::Object(f)
    }
}

fn count_of(fields: &Vec<(String, JsonValue)>, key: &str) -> (r: Option<u32>)
    ensures
        r == req_count(lookup(fields_model(fields@), key@)),
{
    match find_field(fields, key) {
        Some(i) => match &fields[i].1 {
            JsonValue::Number(t) => parse_u32(t.as_str()),
            _ => None,
        },
        None => None,
    }
}

fn is_epic_key(k: &str) -> (r: bool)
    ensures
        r == epic_key(k@),
{
    crate::json::str_eq(k, "id") || crate::json::str_eq(k, "title") || crate::json::str_eq(k, "total")
        || crate::json::str_eq(k, "open") || crate::json::str_eq(k, "closed") || crate::json::str_eq(
        k,
        "in_progress",
    ) || crate::json::str_eq(k, "blocked")
}

fn epic_other_fields(fields: &Vec<(String, JsonValue)>) -> (r: Vec<(String, JsonValue)>)
    ensures
        fields_model(r@) == epic_unknown_fields(fields_model(fields@)),
{
    let ghost fm = fields_model(fields@);
    proof {
        lemma_fields_model_len(fields@);
    }
    let mut out: Vec<(String, JsonValue)> = Vec::new();
    let mut i: usize = 0;
    while i < fields.len()
        invariant
            i <= fields@.len(),
            fm == fields_model(fields@),
            fm.len() == fields@.len(),
            fields_model(out@) == epic_unknown_fields(fm.subrange(0, i as int)),
        decreases fields@.len() - i,
    {
        proof {
            lemma_fields_model_index(fields@, i as int);
            assert(fm.subrange(0, i + 1).drop_last() == fm.subrange(0, i as int));
        }
        if !is_epic_key(fields[i].0.as_str()) {
            let v = fields[i].1.deep_copy();
            let k = fields[i].0.clone();
            let ghost before = out@;
            out.push((k, v));
            proof {
                assert(out@.drop_last() == before);
            }
        }
        i += 1;
    }
    proof {
        assert(fm.subrange(0, i as int) == fm);
    }
    out
}

impl EpicStatus {
    /// Reads a grouping summary record; `None` where a field is missing or
    /// has the wrong type.
    pub fn from_json(v: &JsonValue) -> (r: Option<EpicStatus>)
        ensures
            match r {
                Some(e) => decode_epic(v.model()) == Some(e@),
                None => decode_epic(v.model()) is None,
            },
    {
        match v {
            JsonValue::Object(fields) => {
                let id = required_text(fields, "id");
                let title = required_text(fields, "title");
                let total = count_of(fields, "total");
                let open = count_of(fields, "open");
                let closed = count_of(fields, "closed");
                let in_progress = count_of(fields, "in_progress");
                let blocked = count_of(fields, "blocked");
                match (id, title, total, open, closed, in_progress, blocked) {
                    (Some(id), Some(title), Some(total), Some(open), Some(closed), Some(in_progress), Some(blocked)) => {
                        let extra = epic_other_fields(fields);
                        Some(EpicStatus { id, title, total, open, closed, in_progress, blocked, extra })
                    },
                    _ => None,
                }
            },
            _ => None,
        }
    }

    /// The JSON record of this grouping summary.
    pub fn to_json(&self) -> (r: JsonValue)
        ensures
            r.model() == encode_epic(self@),
    {
        let mut f: Vec<(String, JsonValue)> = Vec::new();
        push_field(&mut f, "id", JsonValue::Str(self.id.clone()));
        push_field(&mut f, "title", JsonValue::Str(self.title.clone()));
        push_field(&mut f, "total", JsonValue::Number(u32_text(self.total)));
        push_field(&mut f, "open", JsonValue::Number(u32_text(self.open)));
        push_field(&mut f, "closed", JsonValue::Number(u32_text(self.closed)));
        push_field(&mut f, "in_progress", JsonValue::Number(u32_text(self.in_progress)));
        push_field(&mut f, "blocked", JsonValue::Number(u32_text(self.blocked)));
        append_fields(&mut f, &self.extra);
        proof {
            assert(fields_model(f@) =~= seq![
                ("id"@, JsonModel::Str(self@.id)),
                ("title"@, JsonModel::Str(self@.title)),
                ("total"@, number_of(self@.total)),
                ("open"@, number_of(self@.open)),
                ("closed"@, number_of(self@.closed)),
                ("in_progress"@, number_of(self@.in_progress)),
                ("blocked"@, number_of(self@.blocked)),
            ] + self@.extra);
        }
        JsonValue::Object(f)
    }
}

} // verus!

verus! {

/// An entity kind that the snapshot file holds, with its JSON form.
pub trait Record: View + Sized {
    spec fn encoded(v: Self::V) -> JsonModel;

    spec fn decoded(m: JsonModel) -> Option<Self::V>;

    fn record_json(&self) -> (r: JsonValue)
        ensures
            r.model() == Self::encoded(self@);

    fn record_from_json(v: &JsonValue) -> (r: Option<Self>)
        ensures
            match r {
                Some(x) => Self::decoded(v.model()) == Some(x@),
                None => Self::decoded(v.model()) is None,
            };
}

impl Record for Issue {
    open spec fn encoded(v: IssueView) -> JsonModel {
        encode_issue(v)
    }

    open spec fn decoded(m: JsonModel) -> Option<IssueView> {
        decode_issue(m)
    }

    fn record_json(&self) -> (r: JsonValue) {
        self.to_json()
    }

    fn record_from_json(v: &JsonValue) -> (r: Option<Issue>) {
        Issue::from_json(v)
    }
}

impl Record for Gate {
    open spec fn encoded(v: GateView) -> JsonModel {
        encode_gate(v)
    }

    open spec fn decoded(m: JsonModel) -> Option<GateView> {
        decode_gate(m)
    }

    fn record_json(&self) -> (r: JsonValue) {
        self.to_json()
    }

    fn record_from_json(v: &JsonValue) -> (r: Option<Gate>) {
        Gate::from_json(v)
    }
}

impl Record for EpicStatus {
    open spec fn encoded(v: EpicView) -> JsonModel {
        encode_epic(v)
    }

    open spec fn decoded(m: JsonModel) -> Option<EpicView> {
        decode_epic(m)
    }

    fn record_json(&self) -> (r: JsonValue) {
        self.to_json()
    }

    fn record_from_json(v: &JsonValue) -> (r: Option<EpicStatus>) {
        EpicStatus::from_json(v)
    }
}

/// Keyed entries as the fields of a JSON object.
pub open spec fn entries_json<T: Record>(s: Seq<(String, T)>) -> Seq<(Seq<char>, JsonModel)> {
    s.map_values(|e: (String, T)| (e.0@, T::encoded(e.1@)))
}

/// The fields of a JSON object as keyed entries; `None` if one does not decode.
pub open spec fn entries_decoded<T: Record>(fs: Seq<(Seq<char>, JsonModel)>) -> Option<Seq<(Seq<char>, T::V)>>
    decreases fs.len(),
{
    if fs.len() == 0 {
        Some(Seq::empty())
    } else {
        match (entries_decoded::<T>(fs.drop_last()), T::decoded(fs.last().1)) {
            (Some(r), Some(x)) => Some(r.push((fs.last().0, x))),
            _ => None,
        }
    }
}

pub open spec fn entries_view<T: View>(s: Seq<(String, T)>) -> Seq<(Seq<char>, T::V)> {
    s.map_values(|e: (String, T)| (e.0@, e.1@))
}

/// The snapshot file's JSON form.
pub open spec fn encode_snapshot(
    issues: Seq<(String, Issue)>,
    gates: Seq<(String, Gate)>,
    epics: Seq<(String, EpicStatus)>,
    stamp: Seq<char>,
) -> JsonModel {
    JsonModel::Object(
        seq![
            ("issues"@, JsonModel::Object(entries_json(issues))),
            ("gates"@, JsonModel::Object(entries_json(gates))),
            ("epics"@, JsonModel::Object(entries_json(epics))),
            ("last_full_sync"@, JsonModel::Str(stamp)),
        ],
    )
}

pub struct SnapshotView {
    pub issues: Seq<(Seq<char>, IssueView)>,
    pub gates: Seq<(Seq<char>, GateView)>,
    pub epics: Seq<(Seq<char>, EpicView)>,
    pub last_full_sync_ms: i64,
}

pub open spec fn object_fields(v: Option<JsonModel>) -> Option<Seq<(Seq<char>, JsonModel)>> {
    match v {
        Some(JsonModel::Object(fs)) => Some(fs),
        _ => None,
    }
}

/// What a snapshot file decodes to: every entity must decode, and the
/// refresh time must be an RFC 3339 instant.
pub open spec fn decode_snapshot(m: JsonModel) -> Option<SnapshotView> {
    match m {
        JsonModel::Object(fs) => {
            let i = object_fields(lookup(fs, "issues"@));
            let g = object_fields(lookup(fs, "gates"@));
            let e = object_fields(lookup(fs, "epics"@));
            let t = req_text(lookup(fs, "last_full_sync"@));
            if i is Some && g is Some && e is Some && t is Some {
                match (
                    entries_decoded::<Issue>(i->0),
                    entries_decoded::<Gate>(g->0),
                    entries_decoded::<EpicStatus>(e->0),
                    rfc3339_millis(t->0),
                ) {
                    (Some(iv), Some(gv), Some(ev), Some(ms)) => Some(
                        SnapshotView { issues: iv, gates: gv, epics: ev, last_full_sync_ms: ms },
                    ),
                    _ => None,
                }
            } else {
                None
            }
        },
        _ => None,
    }
}

fn entries_to_json<T: Record>(entries: &Vec<(String, T)>) -> (r: JsonValue)
    ensures
        r.model() == JsonModel::Object(entries_json(entries@)),
{
    let mut out: Vec<(String, JsonValue)> = Vec::new();
    let mut i: usize = 0;
    while i < entries.len()
        invariant
            i <= entries@.len(),
            out@.len() == i,
            fields_model(out@) == entries_json(entries@.subrange(0, i as int)),
        decreases entries@.len() - i,
    {
        let v = entries[i].1.record_json();
        let k = entries[i].0.clone();
        let ghost before = out@;
        out.push((k, v));
        proof {
            assert(out@.drop_last() == before);
            assert(entries_json(entries@.subrange(0, i + 1)) =~= entries_json(entries@.subrange(0, i as int)).push(
                (entries@[i as int].0@, T::encoded(entries@[i as int].1@)),
            ));
        }
        i += 1;
    }
    proof {
        assert(entries@.subrange(0, i as int) == entries@);
    }
    JsonValue::Object(out)
}

fn entries_from_json<T: Record>(fields: &Vec<(String, JsonValue)>) -> (r: Option<Vec<(String, T)>>)
    ensures
        match r {
            Some(es) => entries_decoded::<T>(fields_model(fields@)) == Some(entries_view(es@)),
            None => entries_decoded::<T>(fields_model(fields@)) is None,
        },
{
    let ghost fm = fields_model(fields@);
    proof {
        lemma_fields_model_len(fields@);
    }
    let mut out: Vec<(String, T)> = Vec::new();
    let mut i: usize = 0;
    while i < fields.len()
        invariant
            i <= fields@.len(),
            fm == fields_model(fields@),
            fm.len() == fields@.len(),
            entries_decoded::<T>(fm.subrange(0, i as int)) == Some(entries_view(out@)),
        decreases fields@.len() - i,
    {
        proof {
            lemma_fields_model_index(fields@, i as int);
            assert(fm.subrange(0, i + 1).drop_last() == fm.subrange(0, i as int));
        }
        match T::record_from_json(&fields[i].1) {
            Some(x) => {
                let k = fields[i].0.clone();
                let ghost before = out@;
                out.push((k, x));
                proof {
                    assert(entries_view(out@) =~= entries_view(before).push((out@.last().0@, out@.last().1@)));
                }
            },
            None => {
                proof {
                    lemma_entries_prefix::<T>(fm, i as int + 1);
                }
                return None;
            },
        }
        i += 1;
    }
    proof {
        assert(fm.subrange(0, i as int) == fm);
    }
    Some(out)
}

proof fn lemma_entries_prefix<T: Record>(fs: Seq<(Seq<char>, JsonModel)>, n: int)
    requires
        0 <= n <= fs.len(),
        entries_decoded::<T>(fs.subrange(0, n)) is None,
    ensures
        entries_decoded::<T>(fs) is None,
    decreases fs.len() - n,
{
    if n < fs.len() {
        assert(fs.subrange(0, n + 1).drop_last() == fs.subrange(0, n));
        lemma_entries_prefix::<T>(fs, n + 1);
    } else {
        assert(fs.subrange(0, n) == fs);
    }
}

fn object_of<'a>(fields: &'a Vec<(String, JsonValue)>, key: &str) -> (r: Option<&'a Vec<(String, JsonValue)>>)
    ensures
        match r {
            Some(fs) => object_fields(lookup(fields_model(fields@), key@)) == Some(fields_model(fs@)),
            None => object_fields(lookup(fields_model(fields@), key@)) is None,
        },
{
    match find_field(fields, key) {
        Some(i) => match &fields[i].1 {
            JsonValue::Object(fs) => Some(fs),
            _ => None,
        },
        None => None,
    }
}

impl SerializedCache {
    pub open spec fn view_of(&self) -> SnapshotView {
        SnapshotView {
            issues: entries_view(self.issues@),
            gates: entries_view(self.gates@),
            epics: entries_view(self.epics@),
            last_full_sync_ms: self.last_full_sync_ms,
        }
    }

    /// Reads a snapshot file's JSON form; `None` where it is not one.
    pub fn from_json(v: &JsonValue) -> (r: Option<SerializedCache>)
        ensures
            match r {
                Some(s) => decode_snapshot(v.model()) == Some(s.view_of()),
                None => decode_snapshot(v.model()) is None,
            },
    {
        let fields = match v {
            JsonValue::Object(fields) => fields,
            _ => return None,
        };
        let i = object_of(fields, "issues");
        let g = object_of(fields, "gates");
        let e = object_of(fields, "epics");
        let t = required_text(fields, "last_full_sync");
        match (i, g, e, t) {
            (Some(i), Some(g), Some(e), Some(t)) => {
                let issues = entries_from_json::<Issue>(i);
                let gates = entries_from_json::<Gate>(g);
                let epics = entries_from_json::<EpicStatus>(e);
                let ms = parse_rfc3339_millis(t.as_str());
                match (issues, gates, epics, ms) {
                    (Some(issues), Some(gates), Some(epics), Some(ms)) => Some(
                        SerializedCache { issues, gates, epics, last_full_sync_ms: ms },
                    ),
                    _ => None,
                }
            },
            _ => None,
        }
    }
}

impl BeadsCache {
    /// The snapshot file's JSON form of this store; `None` where its refresh
    /// time has no RFC 3339 form.
    pub fn snapshot_json(&self) -> (r: Option<JsonValue>)
        ensures
            match rfc3339_of(self.last_full_sync_ms) {
                Some(stamp) => r is Some && r->0.model() == encode_snapshot(
                    self.issues.entries@,
                    self.gates.entries@,
                    self.epics.entries@,
                    stamp,
                ),
                None => r is None,
            },
    {
        let stamp = match rfc3339_text(self.last_full_sync_ms) {
            Some(s) => s,
            None => return None,
        };
        let mut f: Vec<(String, JsonValue)> = Vec::new();
        push_field(&mut f, "issues", entries_to_json(&self.issues.entries));
        push_field(&mut f, "gates", entries_to_json(&self.gates.entries));
        push_field(&mut f, "epics", entries_to_json(&self.epics.entries));
        let ghost sv = stamp@;
        push_field(&mut f, "last_full_sync", JsonValue::Str(stamp));
        proof {
            assert(fields_model(f@) =~= seq![
                ("issues"@, JsonModel::Object(entries_json(self.issues.entries@))),
                ("gates"@, JsonModel::Object(entries_json(self.gates.entries@))),
                ("epics"@, JsonModel::Object(entries_json(self.epics.entries@))),
                ("last_full_sync"@, JsonModel::Str(sv)),
            ]);
        }
        Some(JsonValue::Object(f))
    }
}

} // verus!

//! The computing half of the tracker's command-line client: the arguments of
//! each command and how its JSON answers, in their several shapes, are read.

use vstd::prelude::*;
use crate::error::BdError;
use crate::json::{JsonValue, JsonModel, models_of, lookup, find_field};
use crate::types::{Issue, IssueView, Gate, GateView, decode_issue, decode_gate, texts_view};
use crate::text::join_text;

verus! {

/// The records of a list answer: a bare array, or an array under `key`.
pub open spec fn listed(m: JsonModel, key: Seq<char>) -> Option<Seq<JsonModel>> {
    match m {
        JsonModel::Array(items) => Some(items),
        JsonModel::Object(fs) => match lookup(fs, key) {
            Some(JsonModel::Array(items)) => Some(items),
            _ => None,
        },
        _ => None,
    }
}

/// The record of a single answer: the first of an array, or the object itself.
pub open spec fn single(m: JsonModel) -> Option<JsonModel> {
    match m {
        JsonModel::Array(items) => if items.len() > 0 {
            Some(items[0])
        } else {
            None
        },
        JsonModel::Object(_) => Some(m),
        _ => None,
    }
}

/// Every record decoded as an issue, or `None` if one does not decode.
pub open spec fn decode_issues(items: Seq<JsonModel>) -> Option<Seq<IssueView>>
    decreases items.len(),
{
    if items.len() == 0 {
        Some(Seq::empty())
    } else {
        match (decode_issues(items.drop_last()), decode_issue(items.last())) {
            (Some(r), Some(i)) => Some(r.push(i)),
            _ => None,
        }
    }
}

/// Every record decoded as a gate, or `None` if one does not decode.
pub open spec fn decode_gates(items: Seq<JsonModel>) -> Option<Seq<GateView>>
    decreases items.len(),
{
    if items.len() == 0 {
        Some(Seq::empty())
    } else {
        match (decode_gates(items.drop_last()), decode_gate(items.last())) {
            (Some(r), Some(g)) => Some(r.push(g)),
            _ => None,
        }
    }
}

pub open spec fn issues_view(s: Seq<Issue>) -> Seq<IssueView> {
    s.map_values(|i: Issue| i@)
}

pub open spec fn gates_view(s: Seq<Gate>) -> Seq<GateView> {
    s.map_values(|g: Gate| g@)
}

fn parse_error(text: &str) -> (r: BdError)
    ensures
        r is ParseError,
{
    BdError::ParseError(String::from_str(text))
}

/// The records of a list answer.
pub fn listed_records<'a>(v: &'a JsonValue, key: &str) -> (r: Option<&'a Vec<JsonValue>>)
    ensures
        match r {
            Some(items) => listed(v.model(), key@) == Some(models_of(items@)),
            None => listed(v.model(), key@) is None,
        },
{
    match v {
        JsonValue::Array(items) => Some(items),
        JsonValue::Object(fields) => match find_field(fields, key) {
            Some(i) => match &fields[i].1 {
                JsonValue::Array(items) => Some(items),
                _ => None,
            },
            None => None,
        },
        _ => None,
    }
}

/// The record of a single answer.
pub fn single_record(v: &JsonValue) -> (r: Option<&JsonValue>)
    ensures
        match r {
            Some(x) => single(v.model()) == Some(x.model()),
            None => single(v.model()) is None,
        },
{
    match v {
        JsonValue::Array(items) => {
            if items.len() > 0 {
                proof {
                    crate::json::lemma_models_of_index(items@, 0);
                }
                Some(&items[0])
            } else {
                None
            }
        },
        JsonValue::Object(_) => Some(v),
        _ => None,
    }
}

/// Reads the issues of a list answer; a parse error where the shape is
/// unknown or a record does not decode.
pub fn issues_of_response(v: &JsonValue) -> (r: Result<Vec<Issue>, BdError>)
    ensures
        match r {
            Ok(items) => exists|ms: Seq<JsonModel>| listed(v.model(), "issues"@) == Some(ms)
                && decode_issues(ms) == Some(issues_view(items@)),
            Err(e) => e is ParseError && match listed(v.model(), "issues"@) {
                Some(ms) => decode_issues(ms) is None,
                None => true,
            },
        },
{
    let items = match listed_records(v, "issues") {
        Some(items) => items,
        None => return Err(parse_error("Unexpected response format for an issue list")),
    };
    let ghost ms = models_of(items@);
    proof {
        crate::json::lemma_models_of_len(items@);
    }
    let mut out: Vec<Issue> = Vec::new();
    let mut i: usize = 0;
    while i < items.len()
        invariant
            i <= items@.len(),
            ms == models_of(items@),
            ms.len() == items@.len(),
            listed(v.model(), "issues"@) == Some(ms),
            decode_issues(ms.subrange(0, i as int)) == Some(issues_view(out@)),
        decreases items@.len() - i,
    {
        proof {
            crate::json::lemma_models_of_index(items@, i as int);
            assert(ms.subrange(0, i + 1).drop_last() == ms.subrange(0, i as int));
        }
        match Issue::from_json(&items[i]) {
            Some(issue) => {
                let ghost before = out@;
                out.push(issue);
                proof {
                    assert(issues_view(out@) =~= issues_view(before).push(out@.last()@));
                }
            },
            None => {
                proof {
                    lemma_decode_issues_prefix(ms, i as int + 1);
                }
                return Err(parse_error("Failed to parse an issue of the list"));
            },
        }
        i += 1;
    }
    proof {
        assert(ms.subrange(0, i as int) == ms);
    }
    Ok(out)
}

proof fn lemma_decode_issues_prefix(ms: Seq<JsonModel>, n: int)
    requires
        0 <= n <= ms.len(),
        decode_issues(ms.subrange(0, n)) is None,
    ensures
        decode_issues(ms) is None,
    decreases ms.len() - n,
{
    if n < ms.len() {
        assert(ms.subrange(0, n + 1).drop_last() == ms.subrange(0, n));
        lemma_decode_issues_prefix(ms, n + 1);
    } else {
        assert(ms.subrange(0, n) == ms);
    }
}

proof fn lemma_decode_gates_prefix(ms: Seq<JsonModel>, n: int)
    requires
        0 <= n <= ms.len(),
        decode_gates(ms.subrange(0, n)) is None,
    ensures
        decode_gates(ms) is None,
    decreases ms.len() - n,
{
    if n < ms.len() {
        assert(ms.subrange(0, n + 1).drop_last() == ms.subrange(0, n));
        lemma_decode_gates_prefix(ms, n + 1);
    } else {
        assert(ms.subrange(0, n) == ms);
    }
}

/// Reads the gates of a list answer; a parse error where the shape is
/// unknown or a record does not decode.
pub fn gates_of_response(v: &JsonValue) -> (r: Result<Vec<Gate>, BdError>)
    ensures
        match r {
            Ok(items) => exists|ms: Seq<JsonModel>| listed(v.model(), "gates"@) == Some(ms)
                && decode_gates(ms) == Some(gates_view(items@)),
            Err(e) => e is ParseError && match listed(v.model(), "gates"@) {
                Some(ms) => decode_gates(ms) is None,
                None => true,
            },
        },
{
    let items = match listed_records(v, "gates") {
        Some(items) => items,
        None => return Err(parse_error("Unexpected response format for a gate list")),
    };
    let ghost ms = models_of(items@);
    proof {
        crate::json::lemma_models_of_len(items@);
    }
    let mut out: Vec<Gate> = Vec::new();
    let mut i: usize = 0;
    while i < items.len()
        invariant
            i <= items@.len(),
            ms == models_of(items@),
            ms.len() == items@.len(),
            listed(v.model(), "gates"@) == Some(ms),
            decode_gates(ms.subrange(0, i as int)) == Some(gates_view(out@)),
        decreases items@.len() - i,
    {
        proof {
            crate::json::lemma_models_of_index(items@, i as int);
            assert(ms.subrange(0, i + 1).drop_last() == ms.subrange(0, i as int));
        }
        match Gate::from_json(&items[i]) {
            Some(gate) => {
                let ghost before = out@;
                out.push(gate);
                proof {
                    assert(gates_view(out@) =~= gates_view(before).push(out@.last()@));
                }
            },
            None => {
                proof {
                    lemma_decode_gates_prefix(ms, i as int + 1);
                }
                return Err(parse_error("Failed to parse a gate of the list"));
            },
        }
        i += 1;
    }
    proof {
        assert(ms.subrange(0, i as int) == ms);
    }
    Ok(out)
}

/// Reads the issue of a single answer (`show`, `update`, `create`).
pub fn issue_of_response(v: &JsonValue) -> (r: Result<Issue, BdError>)
    ensures
        match r {
            Ok(i) => exists|m: JsonModel| single(v.model()) == Some(m) && decode_issue(m) == Some(i@),
            Err(e) => e is ParseError && match single(v.model()) {
                Some(m) => decode_issue(m) is None,
                None => true,
            },
        },
{
    match single_record(v) {
        Some(x) => match Issue::from_json(x) {
            Some(i) => Ok(i),
            None => Err(parse_error("Failed to parse issue")),
        },
        None => Err(parse_error("Unexpected response format for an issue")),
    }
}

/// A gate read from an answer that is an object.
pub fn gate_of_response(v: &JsonValue) -> (r: Result<Gate, BdError>)
    ensures
        match r {
            Ok(g) => v.model() is Object && decode_gate(v.model()) == Some(g@),
            Err(e) => e is ParseError && (v.model() is Object ==> decode_gate(v.model()) is None),
        },
{
    match v {
        JsonValue::Object(_) => match Gate::from_json(v) {
            Some(g) => Ok(g),
            None => Err(parse_error("Failed to parse resolved gate")),
        },
        _ => Err(parse_error("Unexpected response format for resolve_gate")),
    }
}

/// Whether the daemon runs: its own flag, or else a `status` of "running".
pub open spec fn daemon_running_of(flag: bool, status: Option<Seq<char>>) -> bool {
    flag || status == Some("running"@)
}

pub fn daemon_running(flag: bool, status: Option<&str>) -> (r: bool)
    ensures
        r == daemon_running_of(flag, match status {
            Some(s) => Some(s@),
            None => None,
        }),
{
    if flag {
        return true;
    }
    match status {
        Some(s) => crate::json::str_eq(s, "running"),
        None => false,
    }
}

/// `items` joined by commas.
pub open spec fn comma_joined(items: Seq<Seq<char>>) -> Seq<char>
    decreases items.len(),
{
    if items.len() == 0 {
        Seq::empty()
    } else if items.len() == 1 {
        items[0]
    } else {
        comma_joined(items.drop_last()) + ","@ + items.last()
    }
}

pub fn join_commas(items: &Vec<String>) -> (r: String)
    ensures
        r@ == comma_joined(texts_view(items@)),
{
    if items.len() == 0 {
        return String::new();
    }
    let mut out = items[0].clone();
    let mut i: usize = 1;
    proof {
        assert(texts_view(items@).subrange(0, 1) =~= seq![items@[0]@]);
    }
    while i < items.len()
        invariant
            1 <= i <= items@.len(),
            out@ == comma_joined(texts_view(items@).subrange(0, i as int)),
        decreases items@.len() - i,
    {
        let with_comma = join_text(out.as_str(), ",");
        out = join_text(with_comma.as_str(), items[i].as_str());
        proof {
            let t = texts_view(items@);
            assert(t.subrange(0, i + 1).drop_last() == t.subrange(0, i as int));
            assert(t.subrange(0, i + 1).last() == items@[i as int]@);
        }
        i += 1;
    }
    proof {
        assert(texts_view(items@).subrange(0, i as int) == texts_view(items@));
    }
    out
}

/// The flags of `create` after the title, in order.
pub open spec fn create_flags(
    description: Option<Seq<char>>,
    labels: Seq<Seq<char>>,
    parent: Option<Seq<char>>,
    deps: Seq<Seq<char>>,
) -> Seq<Seq<char>> {
    (match description {
        Some(d) => seq!["--description"@, d],
        None => Seq::empty(),
    }) + (if labels.len() > 0 {
        seq!["--labels"@, comma_joined(labels)]
    } else {
        Seq::empty()
    }) + (match parent {
        Some(p) => seq!["--parent"@, p],
        None => Seq::empty(),
    }) + (if deps.len() > 0 {
        seq!["--deps"@, comma_joined(deps)]
    } else {
        Seq::empty()
    })
}

fn push_pair(out: &mut Vec<String>, flag: &str, value: String)
    ensures
        texts_view(final(out)@) == texts_view(old(out)@) + seq![flag@, value@],
{
    let ghost before = out@;
    out.push(String::from_str(flag));
    out.push(value);
    proof {
        assert(texts_view(out@) =~= texts_view(before) + seq![flag@, value@]);
    }
}

/// The flags of `create`: a description, comma-joined labels, a parent, and
/// comma-joined dependencies, each only where given and not empty.
pub fn create_issue_flags(
    description: Option<&str>,
    labels: &Vec<String>,
    parent_id: Option<&str>,
    deps: &Vec<String>,
) -> (r: Vec<String>)
    ensures
        texts_view(r@) == create_flags(
            match description {
                Some(d) => Some(d@),
                None => None,
            },
            texts_view(labels@),
            match parent_id {
                Some(p) => Some(p@),
                None => None,
            },
            texts_view(deps@),
        ),
{
    let mut out: Vec<String> = Vec::new();
    proof {
        assert(texts_view(out@) =~= Seq::<Seq<char>>::empty());
    }
    match description {
        Some(d) => push_pair(&mut out, "--description", String::from_str(d)),
        None => {},
    }
    let ghost a = texts_view(out@);
    if labels.len() > 0 {
        push_pair(&mut out, "--labels", join_commas(labels));
    }
    let ghost b = texts_view(out@);
    match parent_id {
        Some(p) => push_pair(&mut out, "--parent", String::from_str(p)),
        None => {},
    }
    let ghost c = texts_view(out@);
    if deps.len() > 0 {
        push_pair(&mut out, "--deps", join_commas(deps));
    }
    proof {
        let dv = match description {
            Some(d) => Some(d@),
            None => None::<Seq<char>>,
        };
        let pv = match parent_id {
            Some(p) => Some(p@),
            None => None::<Seq<char>>,
        };
        assert(texts_view(out@) =~= create_flags(dv, texts_view(labels@), pv, texts_view(deps@)));
    }
    out
}

} // verus!

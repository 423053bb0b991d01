//! The dependency graph of one grouping: its work items and gates as nodes,
//! blocking relationships as edges.

use vstd::prelude::*;
use crate::store::{KeyedStore, lemma_map_of};
use crate::types::{Issue, IssueView, Gate, GateView, EpicStatus, dependency_ids_of, dependency_id, effective_assignee_of, texts_view, opt_view, req_text};
use crate::json::{JsonModel, JsonValue, lookup, find_field, str_eq};
use crate::text::{has_infix, lower_of, lowercase, contains_text, join_text};

verus! {

#[derive(Clone, Copy, Debug, PartialEq, Eq, Structural)]
pub enum NodeType {
    Epic,
    Task,
    Review,
    Gate,
    PmValidation,
}

#[derive(Clone, Copy, Debug, PartialEq, Eq, Structural)]
pub enum EdgeType {
    Blocks,
    RelatesTo,
}

#[derive(Debug)]
pub struct DagNode {
    pub id: String,
    pub title: String,
    pub node_type: NodeType,
    pub status: String,
    pub assignee: Option<String>,
    /// The live session working on this item, if any.
    pub session_id: Option<String>,
    /// The live execution status of this item, if any.
    pub task_status: Option<String>,
}

pub struct NodeView {
    pub id: Seq<char>,
    pub title: Seq<char>,
    pub node_type: NodeType,
    pub status: Seq<char>,
    pub assignee: Option<Seq<char>>,
    pub session_id: Option<Seq<char>>,
    pub task_status: Option<Seq<char>>,
}

impl View for DagNode {
    type V = NodeView;

    open spec fn view(&self) -> NodeView {
        NodeView {
            id: self.id@,
            title: self.title@,
            node_type: self.node_type,
            status: self.status@,
            assignee: opt_view(self.assignee),
            session_id: opt_view(self.session_id),
            task_status: opt_view(self.task_status),
        }
    }
}

#[derive(Debug)]
pub struct DagEdge {
    pub source: String,
    pub target: String,
    pub edge_type: EdgeType,
}

pub struct EdgeView {
    pub source: Seq<char>,
    pub target: Seq<char>,
    pub edge_type: EdgeType,
}

impl View for DagEdge {
    type V = EdgeView;

    open spec fn view(&self) -> EdgeView {
        EdgeView { source: self.source@, target: self.target@, edge_type: self.edge_type }
    }
}

#[derive(Debug)]
pub struct DagGraph {
    pub nodes: Vec<DagNode>,
    pub edges: Vec<DagEdge>,
}

pub struct GraphView {
    pub nodes: Seq<NodeView>,
    pub edges: Seq<EdgeView>,
}

pub open spec fn nodes_view(s: Seq<DagNode>) -> Seq<NodeView> {
    s.map_values(|n: DagNode| n@)
}

pub open spec fn edges_view(s: Seq<DagEdge>) -> Seq<EdgeView> {
    s.map_values(|e: DagEdge| e@)
}

impl View for DagGraph {
    type V = GraphView;

    open spec fn view(&self) -> GraphView {
        GraphView { nodes: nodes_view(self.nodes@), edges: edges_view(self.edges@) }
    }
}

/// The live state of one work item, as an orchestration layer reports it.
#[derive(Debug)]
pub struct SessionStatus {
    pub session_id: Option<String>,
    pub task_status: String,
}

pub struct SessionView {
    pub session_id: Option<Seq<char>>,
    pub task_status: Seq<char>,
}

impl View for SessionStatus {
    type V = SessionView;

    open spec fn view(&self) -> SessionView {
        SessionView { session_id: opt_view(self.session_id), task_status: self.task_status@ }
    }
}

// ---- The graph, stated over models ----

/// Whether an item's field bag names `epic` as its grouping, under `epic_id`
/// or, failing a string there, under `parent`.
pub open spec fn in_epic(i: IssueView, epic: Seq<char>) -> bool {
    match req_text(lookup(i.extra, "epic_id"@)) {
        Some(s) => s == epic,
        None => match req_text(lookup(i.extra, "parent"@)) {
            Some(s) => s == epic,
            None => false,
        },
    }
}

/// Whether an item belongs to the graph of `epic`.
pub open spec fn is_member(i: IssueView, epic: Seq<char>) -> bool {
    in_epic(i, epic) || (i.issue_type == Some("Epic"@) && i.id == epic)
}

/// The kind a single label marks, if any.
pub open spec fn label_kind(label: Seq<char>) -> Option<NodeType> {
    lowered_label_kind(lower_of(label))
}

/// The kind an already lower-cased label marks, if any.
pub open spec fn lowered_label_kind(lo: Seq<char>) -> Option<NodeType> {
    if has_infix(lo, "review"@) {
        Some(NodeType::Review)
    } else if has_infix(lo, "gate"@) {
        Some(NodeType::Gate)
    } else if has_infix(lo, "pm-validation"@) || has_infix(lo, "pm validation"@) {
        Some(NodeType::PmValidation)
    } else {
        None
    }
}

/// The kind that the first marking label gives.
pub open spec fn labels_kind(labels: Seq<Seq<char>>) -> Option<NodeType>
    decreases labels.len(),
{
    if labels.len() == 0 {
        None
    } else {
        match label_kind(labels[0]) {
            Some(t) => Some(t),
            None => labels_kind(labels.drop_first()),
        }
    }
}

/// The node kind of an item: from its labels, else from its type tag.
pub open spec fn node_type_of(i: IssueView) -> NodeType {
    match labels_kind(i.labels) {
        Some(t) => t,
        None => if i.issue_type == Some("Epic"@) {
            NodeType::Epic
        } else if i.issue_type == Some("Gate"@) {
            NodeType::Gate
        } else {
            NodeType::Task
        },
    }
}

pub open spec fn node_of(i: IssueView, t: NodeType) -> NodeView {
    NodeView {
        id: i.id,
        title: i.title,
        node_type: t,
        status: i.status,
        assignee: effective_assignee_of(i),
        session_id: None,
        task_status: None,
    }
}

/// Whether a member's node is the grouping's own node, already listed first.
pub open spec fn is_grouping_node(i: IssueView, known: Map<Seq<char>, IssueView>, epic: Seq<char>) -> bool {
    i.id == epic && known.contains_key(epic)
}

/// The nodes of the member items among `entries`, in order, but for the
/// grouping's own item, which has its node already.
pub open spec fn member_nodes(
    entries: Seq<(String, Issue)>,
    known: Map<Seq<char>, IssueView>,
    epic: Seq<char>,
) -> Seq<NodeView>
    decreases entries.len(),
{
    if entries.len() == 0 {
        Seq::empty()
    } else {
        let r = member_nodes(entries.drop_last(), known, epic);
        let i = entries.last().1@;
        if is_member(i, epic) && !is_grouping_node(i, known, epic) {
            r.push(node_of(i, node_type_of(i)))
        } else {
            r
        }
    }
}

/// Edges into `target` from each dependency that is a known item.
pub open spec fn dependency_edges(
    deps: Seq<Seq<char>>,
    known: Map<Seq<char>, IssueView>,
    target: Seq<char>,
) -> Seq<EdgeView>
    decreases deps.len(),
{
    if deps.len() == 0 {
        Seq::empty()
    } else {
        let r = dependency_edges(deps.drop_last(), known, target);
        if known.contains_key(deps.last()) {
            r.push(EdgeView { source: deps.last(), target, edge_type: EdgeType::Blocks })
        } else {
            r
        }
    }
}

/// The dependency edges of the member items among `entries`, in order.
pub open spec fn member_edges(
    entries: Seq<(String, Issue)>,
    known: Map<Seq<char>, IssueView>,
    epic: Seq<char>,
) -> Seq<EdgeView>
    decreases entries.len(),
{
    if entries.len() == 0 {
        Seq::empty()
    } else {
        let r = member_edges(entries.drop_last(), known, epic);
        let i = entries.last().1@;
        if is_member(i, epic) {
            r + dependency_edges(dependency_ids_of(i.dependencies), known, i.id)
        } else {
            r
        }
    }
}

/// Whether a gate belongs to the graph: its item is known and a member.
pub open spec fn gate_in_scope(g: GateView, known: Map<Seq<char>, IssueView>, epic: Seq<char>) -> bool {
    known.contains_key(g.issue_id) && is_member(known[g.issue_id], epic)
}

pub open spec fn gate_node(g: GateView) -> NodeView {
    NodeView {
        id: g.id,
        title: "Gate: "@ + g.gate_type,
        node_type: NodeType::Gate,
        status: g.status,
        assignee: None,
        session_id: None,
        task_status: None,
    }
}

/// The nodes of the gates in scope, in order.
pub open spec fn gate_nodes(
    gates: Seq<(String, Gate)>,
    known: Map<Seq<char>, IssueView>,
    epic: Seq<char>,
) -> Seq<NodeView>
    decreases gates.len(),
{
    if gates.len() == 0 {
        Seq::empty()
    } else {
        let r = gate_nodes(gates.drop_last(), known, epic);
        let g = gates.last().1@;
        if gate_in_scope(g, known, epic) {
            r.push(gate_node(g))
        } else {
            r
        }
    }
}

/// An edge from its item to each gate in scope, in order.
pub open spec fn gate_edges(
    gates: Seq<(String, Gate)>,
    known: Map<Seq<char>, IssueView>,
    epic: Seq<char>,
) -> Seq<EdgeView>
    decreases gates.len(),
{
    if gates.len() == 0 {
        Seq::empty()
    } else {
        let r = gate_edges(gates.drop_last(), known, epic);
        let g = gates.last().1@;
        if gate_in_scope(g, known, epic) {
            r.push(EdgeView { source: g.issue_id, target: g.id, edge_type: EdgeType::Blocks })
        } else {
            r
        }
    }
}

/// The grouping's own node, where the grouping is itself a known item.
pub open spec fn epic_nodes(known: Map<Seq<char>, IssueView>, epic: Seq<char>) -> Seq<NodeView> {
    if known.contains_key(epic) {
        seq![node_of(known[epic], NodeType::Epic)]
    } else {
        Seq::empty()
    }
}

/// The graph of grouping `epic`.
pub open spec fn graph_of(
    issues: Seq<(String, Issue)>,
    known: Map<Seq<char>, IssueView>,
    gates: Seq<(String, Gate)>,
    epic: Seq<char>,
) -> GraphView {
    GraphView {
        nodes: epic_nodes(known, epic) + member_nodes(issues, known, epic) + gate_nodes(gates, known, epic),
        edges: member_edges(issues, known, epic) + gate_edges(gates, known, epic),
    }
}

// ---- Building it ----

/// Whether an item's field bag names `epic_id` as its grouping.
pub fn is_in_epic(issue: &Issue, epic_id: &str) -> (r: bool)
    ensures
        r == in_epic(issue@, epic_id@),
{
    match find_field(&issue.extra, "epic_id") {
        Some(i) => match &issue.extra[i].1 {
            JsonValue::Str(s) => {
                return str_eq(s.as_str(), epic_id);
            },
            _ => {},
        },
        None => {},
    }
    match find_field(&issue.extra, "parent") {
        Some(i) => match &issue.extra[i].1 {
            JsonValue::Str(s) => str_eq(s.as_str(), epic_id),
            _ => false,
        },
        None => false,
    }
}

/// The kind an already lower-cased label marks: a review, a gate or a PM
/// validation, checked in that order.
pub fn label_kind_lowered(lo: &str) -> (r: Option<NodeType>)
    ensures
        r == lowered_label_kind(lo@),
{
    if contains_text(lo, "review") {
        Some(NodeType::Review)
    } else if contains_text(lo, "gate") {
        Some(NodeType::Gate)
    } else if contains_text(lo, "pm-validation") || contains_text(lo, "pm validation") {
        Some(NodeType::PmValidation)
    } else {
        None
    }
}

/// Whether an item belongs to the graph of `epic_id`.
pub fn is_member_of(issue: &Issue, epic_id: &str) -> (r: bool)
    ensures
        r == is_member(issue@, epic_id@),
{
    is_in_epic(issue, epic_id) || (opt_str_is(&issue.issue_type, "Epic") && str_eq(issue.id.as_str(), epic_id))
}

fn opt_str_is(o: &Option<String>, s: &str) -> (r: bool)
    ensures
        r == (opt_view(*o) == Some(s@)),
{
    match o {
        Some(t) => str_eq(t.as_str(), s),
        None => false,
    }
}

/// The kind of node an item becomes.
pub fn node_type_for(issue: &Issue) -> (r: NodeType)
    ensures
        r == node_type_of(issue@),
{
    let labels = &issue.labels;
    let mut i: usize = 0;
    proof {
        assert(texts_view(labels@).subrange(0, labels@.len() as int) == texts_view(labels@));
    }
    while i < labels.len()
        invariant
            i <= labels@.len(),
            *labels == issue.labels,
            labels_kind(texts_view(labels@)) == labels_kind(texts_view(labels@).subrange(i as int, labels@.len() as int)),
        decreases labels@.len() - i,
    {
        let ghost rest = texts_view(labels@).subrange(i as int, labels@.len() as int);
        proof {
            assert(rest[0] == labels@[i as int]@);
            assert(rest.drop_first() == texts_view(labels@).subrange(i + 1, labels@.len() as int));
        }
        let lo = lowercase(labels[i].as_str());
        match label_kind_lowered(lo.as_str()) {
            Some(t) => {
                return t;
            },
            None => {},
        }
        i += 1;
    }
    proof {
        assert(texts_view(labels@).subrange(i as int, labels@.len() as int).len() == 0);
    }
    if opt_str_is(&issue.issue_type, "Epic") {
        NodeType::Epic
    } else if opt_str_is(&issue.issue_type, "Gate") {
        NodeType::Gate
    } else {
        NodeType::Task
    }
}

fn opt_copy(o: Option<&String>) -> (r: Option<String>)
    ensures
        match o {
            Some(s) => r == Some(*s),
            None => r is None,
        },
{
    match o {
        Some(s) => Some(s.clone()),
        None => None,
    }
}

fn make_node(issue: &Issue, t: NodeType) -> (r: DagNode)
    ensures
        r@ == node_of(issue@, t),
{
    let assignee = opt_copy(issue.effective_assignee());
    DagNode {
        id: issue.id.clone(),
        title: issue.title.clone(),
        node_type: t,
        status: issue.status.clone(),
        assignee,
        session_id: None,
        task_status: None,
    }
}

/// Pushes an edge into `target` for each dependency of `issue` that is a
/// known item.
fn push_dependency_edges(edges: &mut Vec<DagEdge>, issue: &Issue, known: &KeyedStore<Issue>)
    requires
        known.wf(),
    ensures
        edges_view(final(edges)@) == edges_view(old(edges)@) + dependency_edges(
            dependency_ids_of(issue@.dependencies),
            known@,
            issue@.id,
        ),
{
    let ids = issue.dependency_ids();
    let ghost start = edges_view(edges@);
    let ghost idv = texts_view(ids@);
    let mut k: usize = 0;
    while k < ids.len()
        invariant
            k <= ids@.len(),
            known.wf(),
            idv == texts_view(ids@),
            idv == dependency_ids_of(issue@.dependencies),
            edges_view(edges@) == start + dependency_edges(idv.subrange(0, k as int), known@, issue@.id),
        decreases ids@.len() - k,
    {
        proof {
            assert(idv.subrange(0, k + 1).drop_last() == idv.subrange(0, k as int));
            assert(idv.subrange(0, k + 1).last() == ids@[k as int]@);
        }
        if known.contains_key(ids[k].as_str()) {
            let ghost before = edges@;
            edges.push(DagEdge { source: ids[k].clone(), target: issue.id.clone(), edge_type: EdgeType::Blocks });
            proof {
                assert(edges_view(edges@) =~= edges_view(before).push(edges@.last()@));
            }
        }
        k += 1;
    }
    proof {
        assert(idv.subrange(0, k as int) == idv);
    }
}

/// Builds the graph of grouping `epic_id` from the items and gates of a snapshot.
pub fn build_graph(issues: &KeyedStore<Issue>, gates: &KeyedStore<Gate>, epic_id: &str) -> (r: DagGraph)
    requires
        issues.wf(),
        gates.wf(),
    ensures
        r@ == graph_of(issues.entries@, issues@, gates.entries@, epic_id@),
{
    let mut nodes: Vec<DagNode> = Vec::new();
    let mut edges: Vec<DagEdge> = Vec::new();
    match issues.get(epic_id) {
        Some(epic_issue) => {
            nodes.push(make_node(epic_issue, NodeType::Epic));
            proof {
                assert(nodes_view(nodes@) =~= epic_nodes(issues@, epic_id@));
            }
        },
        None => {
            proof {
                assert(nodes_view(nodes@) =~= epic_nodes(issues@, epic_id@));
            }
        },
    }
    let ghost head = epic_nodes(issues@, epic_id@);
    let has_epic = issues.contains_key(epic_id);
    proof {
        assert(edges_view(edges@) =~= Seq::<EdgeView>::empty());
    }
    let entries = &issues.entries;
    let mut i: usize = 0;
    while i < entries.len()
        invariant
            i <= entries@.len(),
            *entries == issues.entries,
            issues.wf(),
            has_epic == issues@.contains_key(epic_id@),
            nodes_view(nodes@) == head + member_nodes(entries@.subrange(0, i as int), issues@, epic_id@),
            edges_view(edges@) == member_edges(entries@.subrange(0, i as int), issues@, epic_id@),
        decreases entries@.len() - i,
    {
        proof {
            assert(entries@.subrange(0, i + 1).drop_last() == entries@.subrange(0, i as int));
        }
        let issue = &entries[i].1;
        if is_member_of(issue, epic_id) {
            if !(has_epic && str_eq(issue.id.as_str(), epic_id)) {
                let t = node_type_for(issue);
                let ghost before = nodes@;
                nodes.push(make_node(issue, t));
                proof {
                    assert(nodes_view(nodes@) =~= nodes_view(before).push(nodes@.last()@));
                }
            }
            push_dependency_edges(&mut edges, issue, issues);
        }
        i += 1;
    }
    proof {
        assert(entries@.subrange(0, i as int) == entries@);
    }
    let ghost mid_nodes = nodes_view(nodes@);
    let ghost mid_edges = edges_view(edges@);
    let gentries = &gates.entries;
    let mut j: usize = 0;
    proof {
        lemma_map_of(issues.entries@);
        assert(nodes_view(nodes@) == mid_nodes + gate_nodes(gentries@.subrange(0, 0), issues@, epic_id@));
        assert(edges_view(edges@) =~= mid_edges + gate_edges(gentries@.subrange(0, 0), issues@, epic_id@));
    }
    while j < gentries.len()
        invariant
            j <= gentries@.len(),
            *gentries == gates.entries,
            issues.wf(),
            nodes_view(nodes@) == mid_nodes + gate_nodes(gentries@.subrange(0, j as int), issues@, epic_id@),
            edges_view(edges@) == mid_edges + gate_edges(gentries@.subrange(0, j as int), issues@, epic_id@),
        decreases gentries@.len() - j,
    {
        proof {
            assert(gentries@.subrange(0, j + 1).drop_last() == gentries@.subrange(0, j as int));
        }
        let gate = &gentries[j].1;
        match issues.get(gate.issue_id.as_str()) {
            Some(owner) => {
                if is_member_of(owner, epic_id) {
                    let title = join_text("Gate: ", gate.gate_type.as_str());
                    let ghost nb = nodes@;
                    let ghost eb = edges@;
                    nodes.push(DagNode {
                        id: gate.id.clone(),
                        title,
                        node_type: NodeType::Gate,
                        status: gate.status.clone(),
                        assignee: None,
                        session_id: None,
                        task_status: None,
                    });
                    edges.push(DagEdge {
                        source: gate.issue_id.clone(),
                        target: gate.id.clone(),
                        edge_type: EdgeType::Blocks,
                    });
                    proof {
                        assert(nodes_view(nodes@) =~= nodes_view(nb).push(nodes@.last()@));
                        assert(edges_view(edges@) =~= edges_view(eb).push(edges@.last()@));
                    }
                }
            },
            None => {},
        }
        j += 1;
    }
    proof {
        assert(gentries@.subrange(0, j as int) == gentries@);
    }
    DagGraph { nodes, edges }
}

} // verus!

verus! {

/// A node with the live state of `sessions` merged in, where it has one.
pub open spec fn enriched(n: NodeView, sessions: Map<Seq<char>, SessionView>) -> NodeView {
    if sessions.contains_key(n.id) {
        NodeView {
            session_id: sessions[n.id].session_id,
            task_status: Some(sessions[n.id].task_status),
            ..n
        }
    } else {
        n
    }
}

/// Builds graphs from a copy of a snapshot's contents.
pub struct DagBuilder {
    pub issues: KeyedStore<Issue>,
    pub gates: KeyedStore<Gate>,
    pub epics: KeyedStore<EpicStatus>,
}

impl DagBuilder {
    pub open spec fn wf(&self) -> bool {
        self.issues.wf() && self.gates.wf() && self.epics.wf()
    }

    pub fn new(issues: KeyedStore<Issue>, gates: KeyedStore<Gate>, epics: KeyedStore<EpicStatus>) -> (r: DagBuilder)
        ensures
            r.issues == issues,
            r.gates == gates,
            r.epics == epics,
    {
        DagBuilder { issues, gates, epics }
    }

    /// The graph of grouping `epic_id`. Dependencies on unknown items are
    /// left out; building never fails.
    pub fn build_dag(&self, epic_id: &str) -> (r: Result<DagGraph, String>)
        requires
            self.wf(),
        ensures
            r is Ok,
            r->Ok_0@ == graph_of(self.issues.entries@, self.issues@, self.gates.entries@, epic_id@),
    {
        Ok(build_graph(&self.issues, &self.gates, epic_id))
    }

    /// The node kind of an item: the first label that mentions a review, a
    /// gate or a PM validation, else its type tag.
    pub fn infer_node_type(&self, issue: &Issue) -> (r: NodeType)
        ensures
            r == node_type_of(issue@),
    {
        node_type_for(issue)
    }

    /// Whether an item's field bag names `epic_id` as its grouping.
    pub fn is_issue_in_epic(&self, issue: &Issue, epic_id: &str) -> (r: bool)
        ensures
            r == in_epic(issue@, epic_id@),
    {
        is_in_epic(issue, epic_id)
    }

    /// Merges the live session id and execution status of each item that
    /// `task_sessions` knows into its node; nothing else changes.
    pub fn enrich_with_sessions(&self, graph: DagGraph, task_sessions: &KeyedStore<SessionStatus>) -> (r: DagGraph)
        requires
            task_sessions.wf(),
        ensures
            r@.edges == graph@.edges,
            r@.nodes.len() == graph@.nodes.len(),
            forall|i: int| 0 <= i < r@.nodes.len() ==> #[trigger] r@.nodes[i] == enriched(graph@.nodes[i], task_sessions@),
    {
        let ghost before = nodes_view(graph.nodes@);
        let DagGraph { nodes, edges } = graph;
        let mut rest = nodes;
        let mut out: Vec<DagNode> = Vec::new();
        let mut n: usize = 0;
        let ghost all = rest@;
        proof {
            assert(all.len() == rest.len());
        }
        while rest.len() > 0
            invariant
                task_sessions.wf(),
                n <= all.len(),
                all.len() <= usize::MAX,
                before == nodes_view(all),
                rest@ == all.subrange(n as int, all.len() as int),
                out@.len() == n,
                forall|i: int| 0 <= i < n ==> #[trigger] out@[i]@ == enriched(before[i], task_sessions@),
            decreases rest@.len(),
        {
            let node = rest.remove(0);
            proof {
                assert(node == all[n as int]);
            }
            let updated = match task_sessions.get(node.id.as_str()) {
                Some(s) => DagNode {
                    session_id: match &s.session_id {
                        Some(x) => Some(x.clone()),
                        None => None,
                    },
                    task_status: Some(s.task_status.clone()),
                    ..node
                },
                None => node,
            };
            out.push(updated);
            n += 1;
            proof {
                assert(rest@ == all.subrange(n as int, all.len() as int));
            }
        }
        DagGraph { nodes: out, edges }
    }
}

proof fn lemma_dependency_edges_known(deps: Seq<Seq<char>>, known: Map<Seq<char>, IssueView>, target: Seq<char>)
    ensures
        forall|k: int| 0 <= k < dependency_edges(deps, known, target).len() ==>
            known.contains_key(#[trigger] dependency_edges(deps, known, target)[k].source),
    decreases deps.len(),
{
    if deps.len() > 0 {
        lemma_dependency_edges_known(deps.drop_last(), known, target);
    }
}

proof fn lemma_member_edges_known(entries: Seq<(String, Issue)>, known: Map<Seq<char>, IssueView>, epic: Seq<char>)
    ensures
        forall|k: int| 0 <= k < member_edges(entries, known, epic).len() ==>
            known.contains_key(#[trigger] member_edges(entries, known, epic)[k].source),
    decreases entries.len(),
{
    if entries.len() > 0 {
        let p = entries.drop_last();
        let i = entries.last().1@;
        lemma_member_edges_known(p, known, epic);
        let d = dependency_edges(dependency_ids_of(i.dependencies), known, i.id);
        lemma_dependency_edges_known(dependency_ids_of(i.dependencies), known, i.id);
        if is_member(i, epic) {
            let r = member_edges(p, known, epic);
            assert forall|k: int| 0 <= k < (r + d).len() implies known.contains_key(#[trigger] (r + d)[k].source) by {
                if k >= r.len() {
                    assert((r + d)[k] == d[k - r.len()]);
                }
            }
        }
    }
}

proof fn lemma_gate_edges_known(gates: Seq<(String, Gate)>, known: Map<Seq<char>, IssueView>, epic: Seq<char>)
    ensures
        forall|k: int| 0 <= k < gate_edges(gates, known, epic).len() ==>
            known.contains_key(#[trigger] gate_edges(gates, known, epic)[k].source),
    decreases gates.len(),
{
    if gates.len() > 0 {
        lemma_gate_edges_known(gates.drop_last(), known, epic);
    }
}

/// Every edge of a grouping's graph starts at a work item that the snapshot
/// knows: a dependency on an identifier the snapshot lacks yields no edge.
pub proof fn lemma_edges_start_at_known_items(
    issues: Seq<(String, Issue)>,
    known: Map<Seq<char>, IssueView>,
    gates: Seq<(String, Gate)>,
    epic: Seq<char>,
)
    ensures
        forall|k: int| 0 <= k < graph_of(issues, known, gates, epic).edges.len() ==>
            known.contains_key(#[trigger] graph_of(issues, known, gates, epic).edges[k].source),
{
    let m = member_edges(issues, known, epic);
    let g = gate_edges(gates, known, epic);
    lemma_member_edges_known(issues, known, epic);
    lemma_gate_edges_known(gates, known, epic);
    assert forall|k: int| 0 <= k < (m + g).len() implies known.contains_key(#[trigger] (m + g)[k].source) by {
        if k < m.len() {
            assert((m + g)[k] == m[k]);
        } else {
            assert((m + g)[k] == g[k - m.len()]);
        }
    }
}

} // verus!

verus! {

/// Two items that differ at most in their dependency references.
pub open spec fn same_but_dependencies(a: IssueView, b: IssueView) -> bool {
    a == IssueView { dependencies: a.dependencies, ..b }
}

/// Two snapshots with the same keys whose items differ at most in their
/// dependency references.
pub open spec fn same_but_dependencies_map(k1: Map<Seq<char>, IssueView>, k2: Map<Seq<char>, IssueView>) -> bool {
    &&& k1.dom() == k2.dom()
    &&& forall|k: Seq<char>| #[trigger] k1.contains_key(k) ==> same_but_dependencies(k1[k], k2[k])
}

pub open spec fn item_edges(i: IssueView, known: Map<Seq<char>, IssueView>) -> Seq<EdgeView> {
    dependency_edges(dependency_ids_of(i.dependencies), known, i.id)
}

proof fn lemma_dependency_edges_same_keys(
    ids: Seq<Seq<char>>,
    k1: Map<Seq<char>, IssueView>,
    k2: Map<Seq<char>, IssueView>,
    t: Seq<char>,
)
    requires
        k1.dom() == k2.dom(),
    ensures
        dependency_edges(ids, k1, t) == dependency_edges(ids, k2, t),
    decreases ids.len(),
{
    if ids.len() > 0 {
        lemma_dependency_edges_same_keys(ids.drop_last(), k1, k2, t);
        assert(k1.contains_key(ids.last()) == k2.contains_key(ids.last()));
    }
}

pub open spec fn pair_alike(
    a: (String, Issue),
    b: (String, Issue),
    k1: Map<Seq<char>, IssueView>,
    k2: Map<Seq<char>, IssueView>,
) -> bool {
    same_but_dependencies(a.1@, b.1@) && item_edges(a.1@, k1) == item_edges(b.1@, k2)
}

proof fn lemma_members_same(
    a: Seq<(String, Issue)>,
    b: Seq<(String, Issue)>,
    k1: Map<Seq<char>, IssueView>,
    k2: Map<Seq<char>, IssueView>,
    epic: Seq<char>,
)
    requires
        a.len() == b.len(),
        k1.dom() == k2.dom(),
        forall|i: int| 0 <= i < a.len() ==> #[trigger] pair_alike(a[i], b[i], k1, k2),
    ensures
        member_nodes(a, k1, epic) == member_nodes(b, k2, epic),
        member_edges(a, k1, epic) == member_edges(b, k2, epic),
    decreases a.len(),
{
    if a.len() > 0 {
        let n = a.len() - 1;
        assert forall|i: int| 0 <= i < a.drop_last().len() implies #[trigger] pair_alike(
            a.drop_last()[i],
            b.drop_last()[i],
            k1,
            k2,
        ) by {
            assert(a.drop_last()[i] == a[i] && b.drop_last()[i] == b[i]);
            assert(pair_alike(a[i], b[i], k1, k2));
        }
        lemma_members_same(a.drop_last(), b.drop_last(), k1, k2, epic);
        assert(pair_alike(a[n], b[n], k1, k2));
        assert(k1.contains_key(epic) == k2.contains_key(epic));
    }
}

proof fn lemma_gates_same(
    gates: Seq<(String, Gate)>,
    k1: Map<Seq<char>, IssueView>,
    k2: Map<Seq<char>, IssueView>,
    epic: Seq<char>,
)
    requires
        same_but_dependencies_map(k1, k2),
    ensures
        gate_nodes(gates, k1, epic) == gate_nodes(gates, k2, epic),
        gate_edges(gates, k1, epic) == gate_edges(gates, k2, epic),
    decreases gates.len(),
{
    if gates.len() > 0 {
        lemma_gates_same(gates.drop_last(), k1, k2, epic);
        let g = gates.last().1@;
        assert(k1.contains_key(g.issue_id) == k2.contains_key(g.issue_id));
        if k1.contains_key(g.issue_id) {
            assert(same_but_dependencies(k1[g.issue_id], k2[g.issue_id]));
        }
    }
}

/// Adding to one item a dependency reference to an identifier that the
/// snapshot lacks changes no node and no edge of any grouping's graph.
pub proof fn lemma_unknown_dependency_changes_nothing(
    issues: Seq<(String, Issue)>,
    known: Map<Seq<char>, IssueView>,
    issues2: Seq<(String, Issue)>,
    known2: Map<Seq<char>, IssueView>,
    gates: Seq<(String, Gate)>,
    epic: Seq<char>,
    j: int,
    reference: JsonModel,
)
    requires
        0 <= j < issues.len(),
        issues2.len() == issues.len(),
        forall|i: int| 0 <= i < issues.len() && i != j ==> (#[trigger] issues2[i]) == issues[i],
        issues2[j].1@ == (IssueView { dependencies: issues[j].1@.dependencies.push(reference), ..issues[j].1@ }),
        (dependency_id(reference) is Some),
        !known.contains_key(dependency_id(reference)->0),
        same_but_dependencies_map(known, known2),
    ensures
        graph_of(issues2, known2, gates, epic) == graph_of(issues, known, gates, epic),
{
    let d = dependency_id(reference)->0;
    assert forall|i: int| 0 <= i < issues.len() implies #[trigger] pair_alike(issues[i], issues2[i], known, known2) by {
        if i == j {
            let deps = issues[j].1@.dependencies;
            assert(deps.push(reference).drop_last() == deps);
            assert(dependency_ids_of(deps.push(reference)) == dependency_ids_of(deps).push(d));
            lemma_dependency_edges_same_keys(dependency_ids_of(deps), known, known2, issues[j].1@.id);
            assert(dependency_ids_of(deps).push(d).drop_last() == dependency_ids_of(deps));
        } else {
            lemma_dependency_edges_same_keys(
                dependency_ids_of(issues[i].1@.dependencies),
                known,
                known2,
                issues[i].1@.id,
            );
        }
    }
    lemma_members_same(issues, issues2, known, known2, epic);
    lemma_gates_same(gates, known, known2, epic);
    assert(known.contains_key(epic) == known2.contains_key(epic));
    if known.contains_key(epic) {
        assert(same_but_dependencies(known[epic], known2[epic]));
    }
    assert(epic_nodes(known, epic) == epic_nodes(known2, epic));
}

} // verus!

verus! {

/// Where the grouping is itself a known item, its identifier names only the
/// grouping's own node: no member node repeats it.
pub proof fn lemma_grouping_node_listed_once(
    issues: Seq<(String, Issue)>,
    known: Map<Seq<char>, IssueView>,
    epic: Seq<char>,
)
    requires
        known.contains_key(epic),
    ensures
        forall|k: int| 0 <= k < member_nodes(issues, known, epic).len() ==> (#[trigger] member_nodes(
            issues,
            known,
            epic,
        )[k]).id != epic,
        epic_nodes(known, epic).len() == 1,
        epic_nodes(known, epic)[0].node_type == NodeType::Epic,
    decreases issues.len(),
{
    if issues.len() > 0 {
        lemma_grouping_node_listed_once(issues.drop_last(), known, epic);
    }
}

} // verus!

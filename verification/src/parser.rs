//! Reading an impact map from a KDL document.
//!
//! Top-level `goal` nodes become goals; inside a goal, `metric` and `actor`
//! nodes; inside an actor, `impact` nodes; inside an impact, `deliverable`
//! nodes. Nodes of any other name are skipped, at every level.

use crate::kdl_doc::{
    entry_model, first_argument, kdl_document, lemma_nodes_model, nodes_model, parse_document,
    property, Entry, EntryView, Node, NodeView,
};
use crate::models::{
    goals_view, opt_text, Actor, ActorView, Deliverable, DeliverableView, Goal, GoalView, Impact,
    ImpactView, Metric, MetricView,
};
use crate::text::same_text;
use vstd::prelude::*;

verus! {

/// Why an impact map could not be read.
#[derive(Debug)]
pub enum ImpactMapError {
    /// The text is not a KDL document; the message of the KDL parser.
    InvalidKdl(String),
    /// A goal, metric, actor, impact or deliverable node lacks an attribute it
    /// must have, or has a string attribute of another type.
    MalformedNode,
}

/// The text an error shows: for a text that is not KDL, the notice that the
/// KDL file could not be parsed (the parser's message stays in the variant);
/// for a malformed node, that a node lacks a required attribute.
pub open spec fn error_text(e: ImpactMapError) -> Seq<char> {
    match e {
        ImpactMapError::InvalidKdl(_) => "Fehler beim Parsen der KDL-Datei"@,
        ImpactMapError::MalformedNode => "Ein Knoten der Impact Map hat ein Pflichtattribut nicht"@,
    }
}

impl ImpactMapError {
    /// The text the error shows, as `Display` would.
    pub fn to_string(&self) -> (r: String)
        ensures
            r@ == error_text(*self),
    {
        match self {
            ImpactMapError::InvalidKdl(_) => String::from_str("Fehler beim Parsen der KDL-Datei"),
            ImpactMapError::MalformedNode => String::from_str(
                "Ein Knoten der Impact Map hat ein Pflichtattribut nicht",
            ),
        }
    }
}

// ----------------------------------------------------------------------
// What an entry gives

/// The string value of an entry, if the entry exists and holds a string.
pub open spec fn text_value(e: Option<EntryView>) -> Option<Seq<char>> {
    match e {
        Some(x) => x.text,
        None => None,
    }
}

/// The integer value of an entry, `0` when it holds no integer.
pub open spec fn integer_or_zero(e: Option<EntryView>) -> int {
    match e {
        Some(x) => match x.integer {
            Some(i) => i,
            None => 0,
        },
        None => 0,
    }
}

/// The child nodes of a node; none without a child block.
pub open spec fn child_nodes(n: NodeView) -> Seq<NodeView> {
    match n.children {
        Some(c) => c,
        None => Seq::empty(),
    }
}

/// The nodes named `kind`, in order.
pub open spec fn of_kind(ns: Seq<NodeView>, kind: Seq<char>) -> Seq<NodeView>
    decreases ns.len(),
{
    if ns.len() == 0 {
        Seq::empty()
    } else if ns.last().name == kind {
        of_kind(ns.drop_last(), kind).push(ns.last())
    } else {
        of_kind(ns.drop_last(), kind)
    }
}

// ----------------------------------------------------------------------
// When a node can be read

/// A string argument is present.
pub open spec fn has_name_argument(n: NodeView) -> bool {
    text_value(first_argument(n.entries)) is Some
}

/// The property is present and holds a string.
pub open spec fn has_text_property(n: NodeView, key: Seq<char>) -> bool {
    text_value(property(n.entries, key)) is Some
}

/// The property is present (of any type).
pub open spec fn has_property(n: NodeView, key: Seq<char>) -> bool {
    property(n.entries, key) is Some
}

/// The optional `id` property, where present, holds a string.
pub open spec fn optional_id_ok(n: NodeView) -> bool {
    has_property(n, "id"@) ==> has_text_property(n, "id"@)
}

/// A `deliverable` node has a name argument, a string `id`, and `prio` and `sp`.
pub open spec fn deliverable_ok(n: NodeView) -> bool {
    &&& has_name_argument(n)
    &&& has_text_property(n, "id"@)
    &&& has_property(n, "prio"@)
    &&& has_property(n, "sp"@)
}

/// An `impact` node has a name argument, a string `id` if any, a string
/// `targets`, `prio` and `sp`, and its `deliverable` children can be read.
pub open spec fn impact_ok(n: NodeView) -> bool {
    &&& has_name_argument(n)
    &&& optional_id_ok(n)
    &&& has_text_property(n, "targets"@)
    &&& has_property(n, "prio"@)
    &&& has_property(n, "sp"@)
    &&& forall|k: int|
        0 <= k < child_nodes(n).len() && (#[trigger] child_nodes(n)[k]).name == "deliverable"@
            ==> deliverable_ok(child_nodes(n)[k])
}

/// An `actor` node has a name argument, a string `id` if any, and `prio`,
/// and its `impact` children can be read.
pub open spec fn actor_ok(n: NodeView) -> bool {
    &&& has_name_argument(n)
    &&& optional_id_ok(n)
    &&& has_property(n, "prio"@)
    &&& forall|k: int|
        0 <= k < child_nodes(n).len() && (#[trigger] child_nodes(n)[k]).name == "impact"@
            ==> impact_ok(child_nodes(n)[k])
}

/// A `metric` node has a name argument and string `target` and `desc`.
pub open spec fn metric_ok(n: NodeView) -> bool {
    &&& has_name_argument(n)
    &&& has_text_property(n, "target"@)
    &&& has_text_property(n, "desc"@)
}

/// A `goal` node has a name argument and a string `id`, and its `metric` and
/// `actor` children can be read.
pub open spec fn goal_ok(n: NodeView) -> bool {
    &&& has_name_argument(n)
    &&& has_text_property(n, "id"@)
    &&& forall|k: int|
        0 <= k < child_nodes(n).len() ==> {
            &&& (#[trigger] child_nodes(n)[k]).name == "metric"@ ==> metric_ok(child_nodes(n)[k])
            &&& child_nodes(n)[k].name == "actor"@ ==> actor_ok(child_nodes(n)[k])
        }
}

/// Every top-level `goal` node can be read.
pub open spec fn document_ok(ns: Seq<NodeView>) -> bool {
    forall|k: int| 0 <= k < ns.len() && (#[trigger] ns[k]).name == "goal"@ ==> goal_ok(ns[k])
}

// ----------------------------------------------------------------------
// What a node is read as

/// A deliverable: name, `id`, and the integers of `prio` and `sp` (0 if not integers).
pub open spec fn deliverable_of(n: NodeView) -> DeliverableView {
    DeliverableView {
        name: text_value(first_argument(n.entries))->0,
        id: text_value(property(n.entries, "id"@))->0,
        prio: integer_or_zero(property(n.entries, "prio"@)),
        sp: integer_or_zero(property(n.entries, "sp"@)),
    }
}

/// An impact with its deliverables.
pub open spec fn impact_of(n: NodeView) -> ImpactView {
    ImpactView {
        name: text_value(first_argument(n.entries))->0,
        id: text_value(property(n.entries, "id"@)),
        targets: text_value(property(n.entries, "targets"@))->0,
        prio: integer_or_zero(property(n.entries, "prio"@)),
        sp: integer_or_zero(property(n.entries, "sp"@)),
        deliverables: of_kind(child_nodes(n), "deliverable"@).map_values(
            |d: NodeView| deliverable_of(d),
        ),
    }
}

/// An actor with its impacts.
pub open spec fn actor_of(n: NodeView) -> ActorView {
    ActorView {
        name: text_value(first_argument(n.entries))->0,
        id: text_value(property(n.entries, "id"@)),
        prio: integer_or_zero(property(n.entries, "prio"@)),
        impacts: of_kind(child_nodes(n), "impact"@).map_values(|i: NodeView| impact_of(i)),
    }
}

/// A metric.
pub open spec fn metric_of(n: NodeView) -> MetricView {
    MetricView {
        name: text_value(first_argument(n.entries))->0,
        target: text_value(property(n.entries, "target"@))->0,
        desc: text_value(property(n.entries, "desc"@))->0,
    }
}

/// A goal with its metrics and actors.
pub open spec fn goal_of(n: NodeView) -> GoalView {
    GoalView {
        name: text_value(first_argument(n.entries))->0,
        id: text_value(property(n.entries, "id"@))->0,
        metrics: of_kind(child_nodes(n), "metric"@).map_values(|m: NodeView| metric_of(m)),
        actors: of_kind(child_nodes(n), "actor"@).map_values(|a: NodeView| actor_of(a)),
    }
}

/// The goals of a document, in document order.
pub open spec fn goals_of(ns: Seq<NodeView>) -> Seq<GoalView> {
    of_kind(ns, "goal"@).map_values(|g: NodeView| goal_of(g))
}

// ----------------------------------------------------------------------
// Reading entries

fn has_text(e: Option<&Entry>) -> (r: bool)
    ensures
        r == (text_value(entry_model(e)) is Some),
{
    match e {
        Some(x) => x.text.is_some(),
        None => false,
    }
}

fn required_text(e: Option<&Entry>) -> (s: String)
    requires
        text_value(entry_model(e)) is Some,
    ensures
        s@ == text_value(entry_model(e))->0,
{
    match e {
        Some(x) => match &x.text {
            Some(t) => t.clone(),
            None => String::new(),
        },
        None => String::new(),
    }
}

fn optional_text(e: Option<&Entry>) -> (s: Option<String>)
    ensures
        opt_text(s) == text_value(entry_model(e)),
{
    match e {
        Some(x) => match &x.text {
            Some(t) => Some(t.clone()),
            None => None,
        },
        None => None,
    }
}

fn integer_or_zero_of(e: Option<&Entry>) -> (r: i64)
    ensures
        r as int == integer_or_zero(entry_model(e)),
{
    match e {
        Some(x) => match x.integer {
            Some(i) => i,
            None => 0,
        },
        None => 0,
    }
}

/// The child nodes of `n` and their models.
proof fn lemma_children(n: &Node)
    ensures
        match n.children {
            Some(c) => child_nodes(n@) == nodes_model(c@) && c@.len() == child_nodes(n@).len()
                && forall|k: int| 0 <= k < c@.len() ==> #[trigger] c@[k]@ == child_nodes(n@)[k],
            None => child_nodes(n@) == Seq::<NodeView>::empty(),
        },
{
    if let Some(c) = n.children {
        lemma_nodes_model(c@);
    }
}

// ----------------------------------------------------------------------
// Checking that nodes can be read

fn deliverable_is_well_formed(n: &Node) -> (r: bool)
    ensures
        r == deliverable_ok(n@),
{
    proof {
        reveal_strlit("id");
    }
    has_text(n.first_argument()) && has_text(n.property("id")) && n.property("prio").is_some()
        && n.property("sp").is_some()
}

fn impact_is_well_formed(n: &Node) -> (r: bool)
    ensures
        r == impact_ok(n@),
{
    let id = n.property("id");
    if !(has_text(n.first_argument()) && (id.is_none() || has_text(id)) && has_text(
        n.property("targets"),
    ) && n.property("prio").is_some() && n.property("sp").is_some()) {
        return false;
    }
    proof {
        lemma_children(n);
    }
    match &n.children {
        Some(c) => {
            let mut k: usize = 0;
            while k < c.len()
                invariant
                    k <= c@.len(),
                    n.children == Some(*c),
                    c@.len() == child_nodes(n@).len(),
                    forall|j: int| 0 <= j < c@.len() ==> #[trigger] c@[j]@ == child_nodes(n@)[j],
                    forall|j: int|
                        0 <= j < k && (#[trigger] child_nodes(n@)[j]).name == "deliverable"@
                            ==> deliverable_ok(child_nodes(n@)[j]),
                decreases c@.len() - k,
            {
                assert(c@[k as int]@ == child_nodes(n@)[k as int]);
                if same_text(c[k].name.as_str(), "deliverable") && !deliverable_is_well_formed(
                    &c[k],
                ) {
                    return false;
                }
                k = k + 1;
            }
            true
        },
        None => true,
    }
}

fn actor_is_well_formed(n: &Node) -> (r: bool)
    ensures
        r == actor_ok(n@),
{
    let id = n.property("id");
    if !(has_text(n.first_argument()) && (id.is_none() || has_text(id)) && n.property(
        "prio",
    ).is_some()) {
        return false;
    }
    proof {
        lemma_children(n);
    }
    match &n.children {
        Some(c) => {
            let mut k: usize = 0;
            while k < c.len()
                invariant
                    k <= c@.len(),
                    n.children == Some(*c),
                    c@.len() == child_nodes(n@).len(),
                    forall|j: int| 0 <= j < c@.len() ==> #[trigger] c@[j]@ == child_nodes(n@)[j],
                    forall|j: int|
                        0 <= j < k && (#[trigger] child_nodes(n@)[j]).name == "impact"@
                            ==> impact_ok(child_nodes(n@)[j]),
                decreases c@.len() - k,
            {
                assert(c@[k as int]@ == child_nodes(n@)[k as int]);
                if same_text(c[k].name.as_str(), "impact") && !impact_is_well_formed(&c[k]) {
                    return false;
                }
                k = k + 1;
            }
            true
        },
        None => true,
    }
}

fn metric_is_well_formed(n: &Node) -> (r: bool)
    ensures
        r == metric_ok(n@),
{
    has_text(n.first_argument()) && has_text(n.property("target")) && has_text(
        n.property("desc"),
    )
}

fn goal_is_well_formed(n: &Node) -> (r: bool)
    ensures
        r == goal_ok(n@),
{
    if !(has_text(n.first_argument()) && has_text(n.property("id"))) {
        return false;
    }
    proof {
        lemma_children(n);
    }
    match &n.children {
        Some(c) => {
            let mut k: usize = 0;
            while k < c.len()
                invariant
                    k <= c@.len(),
                    n.children == Some(*c),
                    c@.len() == child_nodes(n@).len(),
                    forall|j: int| 0 <= j < c@.len() ==> #[trigger] c@[j]@ == child_nodes(n@)[j],
                    forall|j: int|
                        0 <= j < k ==> {
                            &&& (#[trigger] child_nodes(n@)[j]).name == "metric"@ ==> metric_ok(
                                child_nodes(n@)[j],
                            )
                            &&& child_nodes(n@)[j].name == "actor"@ ==> actor_ok(
                                child_nodes(n@)[j],
                            )
                        },
                decreases c@.len() - k,
            {
                assert(c@[k as int]@ == child_nodes(n@)[k as int]);
                if same_text(c[k].name.as_str(), "metric") && !metric_is_well_formed(&c[k]) {
                    return false;
                }
                if same_text(c[k].name.as_str(), "actor") && !actor_is_well_formed(&c[k]) {
                    return false;
                }
                k = k + 1;
            }
            true
        },
        None => true,
    }
}

/// Whether every `goal` node of the document, with all that it holds, can be read.
pub fn document_is_well_formed(nodes: &Vec<Node>) -> (r: bool)
    ensures
        r == document_ok(nodes_model(nodes@)),
{
    proof {
        lemma_nodes_model(nodes@);
    }
    let ghost ns = nodes_model(nodes@);
    let mut k: usize = 0;
    while k < nodes.len()
        invariant
            k <= nodes@.len(),
            ns == nodes_model(nodes@),
            ns.len() == nodes@.len(),
            forall|j: int| 0 <= j < nodes@.len() ==> #[trigger] nodes@[j]@ == ns[j],
            forall|j: int| 0 <= j < k && (#[trigger] ns[j]).name == "goal"@ ==> goal_ok(ns[j]),
        decreases nodes@.len() - k,
    {
        assert(nodes@[k as int]@ == ns[k as int]);
        if same_text(nodes[k].name.as_str(), "goal") && !goal_is_well_formed(&nodes[k]) {
            return false;
        }
        k = k + 1;
    }
    true
}

// ----------------------------------------------------------------------
// Reading nodes that can be read

fn deliverable_from(n: &Node) -> (d: Deliverable)
    requires
        deliverable_ok(n@),
    ensures
        d@ == deliverable_of(n@),
{
    Deliverable {
        name: required_text(n.first_argument()),
        id: required_text(n.property("id")),
        prio: integer_or_zero_of(n.property("prio")),
        sp: integer_or_zero_of(n.property("sp")),
    }
}

fn impact_from(n: &Node) -> (i: Impact)
    requires
        impact_ok(n@),
    ensures
        i@ == impact_of(n@),
{
    let name = required_text(n.first_argument());
    let id = optional_text(n.property("id"));
    let targets = required_text(n.property("targets"));
    let prio = integer_or_zero_of(n.property("prio"));
    let sp = integer_or_zero_of(n.property("sp"));
    let mut deliverables: Vec<Deliverable> = Vec::new();
    proof {
        lemma_children(n);
    }
    match &n.children {
        Some(c) => {
            let mut k: usize = 0;
            assert(child_nodes(n@).take(0) =~= Seq::<NodeView>::empty());
            while k < c.len()
                invariant
                    k <= c@.len(),
                    n.children == Some(*c),
                    c@.len() == child_nodes(n@).len(),
                    forall|j: int| 0 <= j < c@.len() ==> #[trigger] c@[j]@ == child_nodes(n@)[j],
                    forall|j: int|
                        0 <= j < c@.len() && (#[trigger] child_nodes(n@)[j]).name == "deliverable"@
                            ==> deliverable_ok(child_nodes(n@)[j]),
                    deliverables@.map_values(|x: Deliverable| x@) == of_kind(child_nodes(n@).take(k as int), "deliverable"@).map_values(
                        |m: NodeView| deliverable_of(m),
                    ),
                decreases c@.len() - k,
            {
                assert(c@[k as int]@ == child_nodes(n@)[k as int]);
                proof {
                    lemma_of_kind_step(
                        child_nodes(n@),
                        k as int,
                        "deliverable"@,
                        |m: NodeView| deliverable_of(m),
                    );
                }
                if same_text(c[k].name.as_str(), "deliverable") {
                    let x = deliverable_from(&c[k]);
                    let ghost before = deliverables@;
                    deliverables.push(x);
                    proof {
                        lemma_push_map(before, x, |x: Deliverable| x@);
                    }
                }
                k = k + 1;
            }
            assert(child_nodes(n@).take(k as int) =~= child_nodes(n@));
        },
        None => {
            assert(deliverables@.map_values(|x: Deliverable| x@) =~= of_kind(child_nodes(n@), "deliverable"@).map_values(
                |m: NodeView| deliverable_of(m),
            ));
        },
    }
    Impact { name, id, targets, prio, sp, deliverables }
}

fn actor_from(n: &Node) -> (a: Actor)
    requires
        actor_ok(n@),
    ensures
        a@ == actor_of(n@),
{
    let name = required_text(n.first_argument());
    let id = optional_text(n.property("id"));
    let prio = integer_or_zero_of(n.property("prio"));
    let mut impacts: Vec<Impact> = Vec::new();
    proof {
        lemma_children(n);
    }
    match &n.children {
        Some(c) => {
            let mut k: usize = 0;
            assert(child_nodes(n@).take(0) =~= Seq::<NodeView>::empty());
            while k < c.len()
                invariant
                    k <= c@.len(),
                    n.children == Some(*c),
                    c@.len() == child_nodes(n@).len(),
                    forall|j: int| 0 <= j < c@.len() ==> #[trigger] c@[j]@ == child_nodes(n@)[j],
                    forall|j: int|
                        0 <= j < c@.len() && (#[trigger] child_nodes(n@)[j]).name == "impact"@
                            ==> impact_ok(child_nodes(n@)[j]),
                    impacts@.map_values(|x: Impact| x@) == of_kind(child_nodes(n@).take(k as int), "impact"@).map_values(
                        |m: NodeView| impact_of(m),
                    ),
                decreases c@.len() - k,
            {
                assert(c@[k as int]@ == child_nodes(n@)[k as int]);
                proof {
                    lemma_of_kind_step(
                        child_nodes(n@),
                        k as int,
                        "impact"@,
                        |m: NodeView| impact_of(m),
                    );
                }
                if same_text(c[k].name.as_str(), "impact") {
                    let x = impact_from(&c[k]);
                    let ghost before = impacts@;
                    impacts.push(x);
                    proof {
                        lemma_push_map(before, x, |x: Impact| x@);
                    }
                }
                k = k + 1;
            }
            assert(child_nodes(n@).take(k as int) =~= child_nodes(n@));
        },
        None => {
            assert(impacts@.map_values(|x: Impact| x@) =~= of_kind(child_nodes(n@), "impact"@).map_values(
                |m: NodeView| impact_of(m),
            ));
        },
    }
    Actor { name, id, prio, impacts }
}

fn metric_from(n: &Node) -> (m: Metric)
    requires
        metric_ok(n@),
    ensures
        m@ == metric_of(n@),
{
    Metric {
        name: required_text(n.first_argument()),
        target: required_text(n.property("target")),
        desc: required_text(n.property("desc")),
    }
}

fn goal_from(n: &Node) -> (g: Goal)
    requires
        goal_ok(n@),
    ensures
        g@ == goal_of(n@),
{
    let name = required_text(n.first_argument());
    let id = required_text(n.property("id"));
    let mut metrics: Vec<Metric> = Vec::new();
    let mut actors: Vec<Actor> = Vec::new();
    proof {
        lemma_children(n);
    }
    match &n.children {
        Some(c) => {
            let mut k: usize = 0;
            assert(child_nodes(n@).take(0) =~= Seq::<NodeView>::empty());
            while k < c.len()
                invariant
                    k <= c@.len(),
                    n.children == Some(*c),
                    c@.len() == child_nodes(n@).len(),
                    forall|j: int| 0 <= j < c@.len() ==> #[trigger] c@[j]@ == child_nodes(n@)[j],
                    goal_ok(n@),
                    metrics@.map_values(|x: Metric| x@) == of_kind(child_nodes(n@).take(k as int), "metric"@).map_values(
                        |m: NodeView| metric_of(m),
                    ),
                    actors@.map_values(|x: Actor| x@) == of_kind(child_nodes(n@).take(k as int), "actor"@).map_values(
                        |m: NodeView| actor_of(m),
                    ),
                decreases c@.len() - k,
            {
                assert(c@[k as int]@ == child_nodes(n@)[k as int]);
                proof {
                    lemma_of_kind_step(
                        child_nodes(n@),
                        k as int,
                        "metric"@,
                        |m: NodeView| metric_of(m),
                    );
                }
                if same_text(c[k].name.as_str(), "metric") {
                    let x = metric_from(&c[k]);
                    let ghost before = metrics@;
                    metrics.push(x);
                    proof {
                        lemma_push_map(before, x, |x: Metric| x@);
                    }
                }
                proof {
                    lemma_of_kind_step(
                        child_nodes(n@),
                        k as int,
                        "actor"@,
                        |m: NodeView| actor_of(m),
                    );
                }
                if same_text(c[k].name.as_str(), "actor") {
                    let x = actor_from(&c[k]);
                    let ghost before = actors@;
                    actors.push(x);
                    proof {
                        lemma_push_map(before, x, |x: Actor| x@);
                    }
                }
                k = k + 1;
            }
            assert(child_nodes(n@).take(k as int) =~= child_nodes(n@));
        },
        None => {
            assert(metrics@.map_values(|x: Metric| x@) =~= of_kind(child_nodes(n@), "metric"@).map_values(
                |m: NodeView| metric_of(m),
            ));
            assert(actors@.map_values(|x: Actor| x@) =~= of_kind(child_nodes(n@), "actor"@).map_values(
                |m: NodeView| actor_of(m),
            ));
        },
    }
    Goal { name, id, metrics, actors }
}

/// The goals of a document whose `goal` nodes can all be read, in document order.
pub fn goals_from_tree(nodes: &Vec<Node>) -> (goals: Vec<Goal>)
    requires
        document_ok(nodes_model(nodes@)),
    ensures
        goals_view(goals@) == goals_of(nodes_model(nodes@)),
{
    proof {
        lemma_nodes_model(nodes@);
    }
    let ghost ns = nodes_model(nodes@);
    let mut goals: Vec<Goal> = Vec::new();
    let mut k: usize = 0;
    assert(ns.take(0) =~= Seq::<NodeView>::empty());
    while k < nodes.len()
        invariant
            k <= nodes@.len(),
            ns == nodes_model(nodes@),
            ns.len() == nodes@.len(),
            forall|j: int| 0 <= j < nodes@.len() ==> #[trigger] nodes@[j]@ == ns[j],
            document_ok(ns),
            goals@.map_values(|x: Goal| x@) == of_kind(ns.take(k as int), "goal"@).map_values(
                |m: NodeView| goal_of(m),
            ),
        decreases nodes@.len() - k,
    {
        assert(nodes@[k as int]@ == ns[k as int]);
        proof {
            lemma_of_kind_step(
                ns,
                k as int,
                "goal"@,
                |m: NodeView| goal_of(m),
            );
        }
        if same_text(nodes[k].name.as_str(), "goal") {
            let x = goal_from(&nodes[k]);
            let ghost before = goals@;
            goals.push(x);
            proof {
                lemma_push_map(before, x, |x: Goal| x@);
            }
        }
        k = k + 1;
    }
    assert(ns.take(k as int) =~= ns);
    goals
}

/// Reads the goals of an impact map from the text of a KDL document.
///
/// A text that is no KDL document is refused with the parser's message (the
/// error shows "Fehler beim Parsen der KDL-Datei"); a
/// document with a goal, metric, actor, impact or deliverable node that lacks
/// a required attribute is refused as malformed; otherwise the goals come in
/// document order.
pub fn parse_kdl(input: &str) -> (r: Result<Vec<Goal>, ImpactMapError>)
    ensures
        match kdl_document(input@) {
            Err(m) => r matches Err(ImpactMapError::InvalidKdl(e)) && e@ == m && error_text(
                r->Err_0,
            ) == "Fehler beim Parsen der KDL-Datei"@,
            Ok(ns) => if document_ok(ns) {
                r matches Ok(goals) && goals_view(goals@) == goals_of(ns)
            } else {
                r matches Err(ImpactMapError::MalformedNode)
            },
        },
{
    match parse_document(input) {
        Err(message) => Err(ImpactMapError::InvalidKdl(message)),
        Ok(nodes) => {
            if document_is_well_formed(&nodes) {
                Ok(goals_from_tree(&nodes))
            } else {
                Err(ImpactMapError::MalformedNode)
            }
        },
    }
}

/// One more node: the readings of the nodes of a kind among the first `k + 1`
/// nodes are those among the first `k`, followed by the reading of node `k`
/// when it is of that kind.
proof fn lemma_of_kind_step<T>(
    ns: Seq<NodeView>,
    k: int,
    kind: Seq<char>,
    f: spec_fn(NodeView) -> T,
)
    requires
        0 <= k < ns.len(),
    ensures
        of_kind(ns.take(k + 1), kind).map_values(f) == if ns[k].name == kind {
            of_kind(ns.take(k), kind).map_values(f).push(f(ns[k]))
        } else {
            of_kind(ns.take(k), kind).map_values(f)
        },
{
    assert(ns.take(k + 1).drop_last() =~= ns.take(k));
    assert(ns.take(k + 1).last() == ns[k]);
    let prev = of_kind(ns.take(k), kind);
    assert(prev.push(ns[k]).map_values(f) =~= prev.map_values(f).push(f(ns[k])));
}

/// Mapping a sequence with one more element adds the element's image.
proof fn lemma_push_map<A, B>(s: Seq<A>, x: A, f: spec_fn(A) -> B)
    ensures
        s.push(x).map_values(f) == s.map_values(f).push(f(x)),
{
    assert(s.push(x).map_values(f) =~= s.map_values(f).push(f(x)));
}

proof fn lemma_of_kind_concat(a: Seq<NodeView>, b: Seq<NodeView>, kind: Seq<char>)
    ensures
        of_kind(a + b, kind) == of_kind(a, kind) + of_kind(b, kind),
    decreases b.len(),
{
    if b.len() == 0 {
        assert(a + b =~= a);
        assert(of_kind(a, kind) + of_kind(b, kind) =~= of_kind(a, kind));
    } else {
        assert((a + b).drop_last() =~= a + b.drop_last());
        assert((a + b).last() == b.last());
        lemma_of_kind_concat(a, b.drop_last(), kind);
        if b.last().name == kind {
            assert(of_kind(a, kind) + of_kind(b.drop_last(), kind).push(b.last()) =~= (of_kind(
                a,
                kind,
            ) + of_kind(b.drop_last(), kind)).push(b.last()));
        }
    }
}

/// Goals come in document order: the goals of two documents one after the
/// other are the goals of the first followed by those of the second, and a
/// part of a document can be read if and only if each part can. In
/// particular, nodes of other names add no goal and make nothing unreadable.
pub proof fn law_goals_follow_document_order(a: Seq<NodeView>, b: Seq<NodeView>)
    ensures
        goals_of(a + b) == goals_of(a) + goals_of(b),
        document_ok(a + b) <==> document_ok(a) && document_ok(b),
{
    lemma_of_kind_concat(a, b, "goal"@);
    let f = |g: NodeView| goal_of(g);
    assert((of_kind(a, "goal"@) + of_kind(b, "goal"@)).map_values(f) =~= of_kind(
        a,
        "goal"@,
    ).map_values(f) + of_kind(b, "goal"@).map_values(f));
    if document_ok(a) && document_ok(b) {
        assert forall|k: int|
            0 <= k < (a + b).len() && (#[trigger] (a + b)[k]).name == "goal"@ implies goal_ok(
            (a + b)[k],
        ) by {
            if k >= a.len() {
                assert((a + b)[k] == b[k - a.len()]);
            }
        }
    }
    if document_ok(a + b) {
        assert forall|k: int| 0 <= k < a.len() && (#[trigger] a[k]).name == "goal"@ implies goal_ok(
            a[k],
        ) by {
            assert((a + b)[k] == a[k]);
        }
        assert forall|k: int| 0 <= k < b.len() && (#[trigger] b[k]).name == "goal"@ implies goal_ok(
            b[k],
        ) by {
            assert((a + b)[k + a.len()] == b[k]);
        }
    }
}

/// The test that a node has the name `kind`.
pub open spec fn named(kind: Seq<char>) -> spec_fn(NodeView) -> bool {
    |n: NodeView| n.name == kind
}

/// The nodes of a kind are the nodes filtered by their name.
proof fn lemma_of_kind_is_filter(ns: Seq<NodeView>, kind: Seq<char>)
    ensures
        of_kind(ns, kind) == ns.filter(named(kind)),
    decreases ns.len(),
{
    reveal(Seq::filter);
    if ns.len() > 0 {
        lemma_of_kind_is_filter(ns.drop_last(), kind);
    }
}

/// Reading a sequence of nodes of a kind, each by `f`.
proof fn lemma_read_all<T>(ns: Seq<NodeView>, kind: Seq<char>, f: spec_fn(NodeView) -> T)
    ensures
        of_kind(ns, kind).map_values(f) == ns.filter(named(kind)).map_values(f),
        of_kind(ns, kind).map_values(f).len() == ns.filter(named(kind)).len(),
{
    lemma_of_kind_is_filter(ns, kind);
}

/// Reading keeps every child: the deliverables of an impact are the readings
/// of all of its children named `deliverable`, in order and one for each; so
/// are the impacts of an actor for its `impact` children, the metrics and the
/// actors of a goal for its `metric` and `actor` children, and the goals of a
/// document for its `goal` nodes. No child of such a name is dropped or
/// read twice, whatever its attributes say.
pub proof fn law_reading_keeps_every_child(n: NodeView, ns: Seq<NodeView>)
    ensures
        impact_of(n).deliverables == child_nodes(n).filter(named("deliverable"@)).map_values(
            |d: NodeView| deliverable_of(d),
        ),
        impact_of(n).deliverables.len() == child_nodes(n).filter(named("deliverable"@)).len(),
        actor_of(n).impacts == child_nodes(n).filter(named("impact"@)).map_values(
            |i: NodeView| impact_of(i),
        ),
        actor_of(n).impacts.len() == child_nodes(n).filter(named("impact"@)).len(),
        goal_of(n).metrics == child_nodes(n).filter(named("metric"@)).map_values(
            |m: NodeView| metric_of(m),
        ),
        goal_of(n).metrics.len() == child_nodes(n).filter(named("metric"@)).len(),
        goal_of(n).actors == child_nodes(n).filter(named("actor"@)).map_values(
            |a: NodeView| actor_of(a),
        ),
        goal_of(n).actors.len() == child_nodes(n).filter(named("actor"@)).len(),
        goals_of(ns) == ns.filter(named("goal"@)).map_values(|g: NodeView| goal_of(g)),
        goals_of(ns).len() == ns.filter(named("goal"@)).len(),
{
    let c = child_nodes(n);
    lemma_read_all(c, "deliverable"@, |d: NodeView| deliverable_of(d));
    lemma_read_all(c, "impact"@, |i: NodeView| impact_of(i));
    lemma_read_all(c, "metric"@, |m: NodeView| metric_of(m));
    lemma_read_all(c, "actor"@, |a: NodeView| actor_of(a));
    lemma_read_all(ns, "goal"@, |g: NodeView| goal_of(g));
}

} // verus!

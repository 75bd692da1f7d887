//! The store as a graph: every entity is a node, labelled with its text
//! label where it has one and with its name where it has none, and every
//! reference from one entity to another is a link.

use crate::db::query::binding::{bound_in, set_views, Variable, VariableSet, VariableSetExt, VariableSetView};
use crate::db::query::laws::lemma_constant_attributes_supported;
use crate::db::query::rule::{rule_views, Rule, RuleValView, RuleView};
use crate::db::query::{lemma_solve_one, solve};
use crate::db::{Attribute, Entity, Value, ValueView};
use crate::handle::Handle;
use vstd::prelude::*;

verus! {

/// A node of the graph.
#[derive(Debug)]
pub struct Node {
    pub id: String,
    pub label: String,
}

/// A directed link of the graph.
#[derive(Debug)]
pub struct Link {
    pub source: String,
    pub target: String,
}

/// The graph: every node once by its id, every link once.
#[derive(Debug)]
pub struct GraphData {
    pub nodes: Vec<Node>,
    pub links: Vec<Link>,
}

/// The mathematical content of a graph: (id, label) nodes and (source,
/// target) links, in the order in which they first appeared.
pub struct GraphView {
    pub nodes: Seq<(Seq<char>, Seq<char>)>,
    pub links: Seq<(Seq<char>, Seq<char>)>,
}

pub open spec fn node_views(nodes: Seq<Node>) -> Seq<(Seq<char>, Seq<char>)> {
    Seq::new(nodes.len(), |i: int| (nodes[i].id@, nodes[i].label@))
}

pub open spec fn link_views(links: Seq<Link>) -> Seq<(Seq<char>, Seq<char>)> {
    Seq::new(links.len(), |i: int| (links[i].source@, links[i].target@))
}

impl View for GraphData {
    type V = GraphView;

    open spec fn view(&self) -> GraphView {
        GraphView { nodes: node_views(self.nodes@), links: link_views(self.links@) }
    }
}

/// The index of the first node of the id, or the number of nodes where there
/// is none.
pub open spec fn node_position(nodes: Seq<(Seq<char>, Seq<char>)>, id: Seq<char>) -> int
    decreases nodes.len(),
{
    if nodes.len() == 0 {
        0
    } else if nodes[0].0 == id {
        0
    } else {
        1 + node_position(nodes.drop_first(), id)
    }
}

/// The index of the first occurrence of the link, or the number of links.
pub open spec fn link_position(links: Seq<(Seq<char>, Seq<char>)>, link: (Seq<char>, Seq<char>)) -> int
    decreases links.len(),
{
    if links.len() == 0 {
        0
    } else if links[0] == link {
        0
    } else {
        1 + link_position(links.drop_first(), link)
    }
}

/// The nodes with the label for the id: in the place of the node of that id,
/// or as a new last node.
pub open spec fn put_node(nodes: Seq<(Seq<char>, Seq<char>)>, id: Seq<char>, label: Seq<char>) -> Seq<
    (Seq<char>, Seq<char>),
> {
    let i = node_position(nodes, id);
    if i < nodes.len() {
        nodes.update(i, (id, label))
    } else {
        nodes.push((id, label))
    }
}

/// The links with the link, which is added at the end unless it is there.
pub open spec fn put_link(links: Seq<(Seq<char>, Seq<char>)>, source: Seq<char>, target: Seq<char>) -> Seq<
    (Seq<char>, Seq<char>),
> {
    if link_position(links, (source, target)) < links.len() {
        links
    } else {
        links.push((source, target))
    }
}

/// The graph after one solution of the query for all triplets: the entity
/// `a` is a node under its own name; where the solution binds the entity `b`,
/// the value was a reference: there is a link from `a` to `b`, and `b` is a
/// node under its own name.
pub open spec fn with_triplet(graph: GraphView, solution: VariableSetView) -> GraphView {
    match bound_in(solution.entity, "a"@) {
        Some(a) => {
            let nodes = put_node(graph.nodes, a, a);
            match bound_in(solution.entity, "b"@) {
                Some(b) => GraphView { nodes: put_node(nodes, b, b), links: put_link(graph.links, a, b) },
                None => GraphView { nodes, links: graph.links },
            }
        },
        None => graph,
    }
}

/// The graph after one solution of the query for labels: the entity `a` is a
/// node under the label, where the label is data.
pub open spec fn with_label(graph: GraphView, solution: VariableSetView) -> GraphView {
    match (bound_in(solution.entity, "a"@), bound_in(solution.value, "label"@)) {
        (Some(a), Some(ValueView::Data(label))) => GraphView {
            nodes: put_node(graph.nodes, a, label),
            links: graph.links,
        },
        _ => graph,
    }
}

pub open spec fn with_triplets(graph: GraphView, solutions: Seq<VariableSetView>) -> GraphView
    decreases solutions.len(),
{
    if solutions.len() == 0 {
        graph
    } else {
        with_triplet(with_triplets(graph, solutions.drop_last()), solutions.last())
    }
}

pub open spec fn with_labels(graph: GraphView, solutions: Seq<VariableSetView>) -> GraphView
    decreases solutions.len(),
{
    if solutions.len() == 0 {
        graph
    } else {
        with_label(with_labels(graph, solutions.drop_last()), solutions.last())
    }
}

/// The graph of the solutions of the two queries: first every triplet in
/// turn, then every label in turn.
pub open spec fn graph_of(all: Seq<VariableSetView>, labelled: Seq<VariableSetView>) -> GraphView {
    with_labels(
        with_triplets(GraphView { nodes: Seq::empty(), links: Seq::empty() }, all),
        labelled,
    )
}

proof fn lemma_node_position(nodes: Seq<(Seq<char>, Seq<char>)>, id: Seq<char>, i: int)
    requires
        0 <= i <= nodes.len(),
        forall|j: int| 0 <= j < i ==> (#[trigger] nodes[j]).0 != id,
        i < nodes.len() ==> nodes[i].0 == id,
    ensures
        node_position(nodes, id) == i,
    decreases nodes.len(),
{
    if nodes.len() > 0 && i > 0 {
        assert(nodes[0].0 != id);
        let rest = nodes.drop_first();
        assert forall|j: int| 0 <= j < i - 1 implies (#[trigger] rest[j]).0 != id by {
            assert(rest[j] == nodes[j + 1]);
        }
        lemma_node_position(rest, id, i - 1);
    }
}

proof fn lemma_link_position(links: Seq<(Seq<char>, Seq<char>)>, link: (Seq<char>, Seq<char>), i: int)
    requires
        0 <= i <= links.len(),
        forall|j: int| 0 <= j < i ==> #[trigger] links[j] != link,
        i < links.len() ==> links[i] == link,
    ensures
        link_position(links, link) == i,
    decreases links.len(),
{
    if links.len() > 0 && i > 0 {
        assert(links[0] != link);
        let rest = links.drop_first();
        assert forall|j: int| 0 <= j < i - 1 implies #[trigger] rest[j] != link by {
            assert(rest[j] == links[j + 1]);
        }
        lemma_link_position(rest, link, i - 1);
    }
}

/// Whether a node of the id is among the nodes.
pub open spec fn has_node(nodes: Seq<(Seq<char>, Seq<char>)>, id: Seq<char>) -> bool {
    exists|i: int| 0 <= i < nodes.len() && (#[trigger] nodes[i]).0 == id
}

impl GraphView {
    /// Every node has an id of its own, every link stands once, and every
    /// link leads from a node to a node.
    pub open spec fn well_formed(self) -> bool {
        &&& forall|i: int, j: int|
            0 <= i < j < self.nodes.len() ==> (#[trigger] self.nodes[i]).0 != (
            #[trigger] self.nodes[j]).0
        &&& forall|i: int, j: int|
            0 <= i < j < self.links.len() ==> #[trigger] self.links[i] != #[trigger] self.links[j]
        &&& forall|i: int|
            0 <= i < self.links.len() ==> has_node(self.nodes, (#[trigger] self.links[i]).0)
                && has_node(self.nodes, self.links[i].1)
    }
}

proof fn lemma_node_position_bounds(nodes: Seq<(Seq<char>, Seq<char>)>, id: Seq<char>)
    ensures
        0 <= node_position(nodes, id) <= nodes.len(),
        node_position(nodes, id) < nodes.len() ==> nodes[node_position(nodes, id)].0 == id,
        forall|j: int| 0 <= j < node_position(nodes, id) ==> (#[trigger] nodes[j]).0 != id,
    decreases nodes.len(),
{
    if nodes.len() > 0 && nodes[0].0 != id {
        let rest = nodes.drop_first();
        lemma_node_position_bounds(rest, id);
        assert forall|j: int| 0 <= j < node_position(nodes, id) implies (#[trigger] nodes[j]).0
            != id by {
            if j > 0 {
                assert(nodes[j] == rest[j - 1]);
            }
        }
    }
}

proof fn lemma_link_position_bounds(links: Seq<(Seq<char>, Seq<char>)>, link: (Seq<char>, Seq<char>))
    ensures
        0 <= link_position(links, link) <= links.len(),
        link_position(links, link) < links.len() ==> links[link_position(links, link)] == link,
        forall|j: int| 0 <= j < link_position(links, link) ==> #[trigger] links[j] != link,
    decreases links.len(),
{
    if links.len() > 0 && links[0] != link {
        let rest = links.drop_first();
        lemma_link_position_bounds(rest, link);
        assert forall|j: int| 0 <= j < link_position(links, link) implies #[trigger] links[j]
            != link by {
            if j > 0 {
                assert(links[j] == rest[j - 1]);
            }
        }
    }
}

/// Putting a node keeps the ids of the nodes apart, keeps every node that
/// was there, and leaves a node of the id.
pub proof fn lemma_put_node(graph: GraphView, id: Seq<char>, label: Seq<char>)
    requires
        graph.well_formed(),
    ensures
        (GraphView { nodes: put_node(graph.nodes, id, label), links: graph.links }).well_formed(),
        has_node(put_node(graph.nodes, id, label), id),
        forall|other: Seq<char>|
            has_node(graph.nodes, other) ==> has_node(put_node(graph.nodes, id, label), other),
{
    lemma_node_position_bounds(graph.nodes, id);
    let p = node_position(graph.nodes, id);
    let after = put_node(graph.nodes, id, label);
    assert forall|i: int| 0 <= i < graph.nodes.len() implies (#[trigger] after[i]).0
        == graph.nodes[i].0 by {}
    assert forall|other: Seq<char>| has_node(graph.nodes, other) implies has_node(after, other) by {
        let i = choose|i: int| 0 <= i < graph.nodes.len() && (#[trigger] graph.nodes[i]).0 == other;
        assert(after[i].0 == other);
    }
    if p < graph.nodes.len() {
        assert(after[p].0 == id);
    } else {
        assert(after[graph.nodes.len() as int].0 == id);
    }
    assert forall|i: int, j: int| 0 <= i < j < after.len() implies (#[trigger] after[i]).0 != (
    #[trigger] after[j]).0 by {
        if j < graph.nodes.len() {
            assert(graph.nodes[i].0 != graph.nodes[j].0);
        } else {
            assert(graph.nodes[i].0 != id);
        }
    }
    assert forall|i: int| 0 <= i < graph.links.len() implies has_node(
        after,
        (#[trigger] graph.links[i]).0,
    ) && has_node(after, graph.links[i].1) by {
        assert(has_node(graph.nodes, graph.links[i].0));
        assert(has_node(graph.nodes, graph.links[i].1));
    }
}

/// Putting a link between two nodes keeps every link once.
pub proof fn lemma_put_link(graph: GraphView, source: Seq<char>, target: Seq<char>)
    requires
        graph.well_formed(),
        has_node(graph.nodes, source),
        has_node(graph.nodes, target),
    ensures
        (GraphView { nodes: graph.nodes, links: put_link(graph.links, source, target) }).well_formed(),
{
    lemma_link_position_bounds(graph.links, (source, target));
    let after = put_link(graph.links, source, target);
    assert forall|i: int, j: int| 0 <= i < j < after.len() implies #[trigger] after[i]
        != #[trigger] after[j] by {
        if j < graph.links.len() {
            assert(graph.links[i] != graph.links[j]);
        } else {
            assert(graph.links[i] != (source, target));
        }
    }
    assert forall|i: int| 0 <= i < after.len() implies has_node(graph.nodes, (#[trigger] after[i]).0)
        && has_node(graph.nodes, after[i].1) by {
        if i < graph.links.len() {
            assert(has_node(graph.nodes, graph.links[i].0));
            assert(has_node(graph.nodes, graph.links[i].1));
        }
    }
}

/// The graph of any solutions holds every node once by its id and every link
/// once, and every link of it leads from a node to a node.
pub proof fn lemma_graph_well_formed(all: Seq<VariableSetView>, labelled: Seq<VariableSetView>)
    ensures
        graph_of(all, labelled).well_formed(),
{
    let start = GraphView { nodes: Seq::empty(), links: Seq::empty() };
    lemma_triplets_well_formed(start, all);
    lemma_labels_well_formed(with_triplets(start, all), labelled);
}

proof fn lemma_triplets_well_formed(graph: GraphView, solutions: Seq<VariableSetView>)
    requires
        graph.well_formed(),
    ensures
        with_triplets(graph, solutions).well_formed(),
    decreases solutions.len(),
{
    if solutions.len() > 0 {
        lemma_triplets_well_formed(graph, solutions.drop_last());
        let before = with_triplets(graph, solutions.drop_last());
        let solution = solutions.last();
        match bound_in(solution.entity, "a"@) {
            Some(a) => {
                lemma_put_node(before, a, a);
                let named = GraphView { nodes: put_node(before.nodes, a, a), links: before.links };
                match bound_in(solution.entity, "b"@) {
                    Some(b) => {
                        lemma_put_node(named, b, b);
                        let both = GraphView {
                            nodes: put_node(named.nodes, b, b),
                            links: named.links,
                        };
                        lemma_put_link(both, a, b);
                    },
                    None => {},
                }
            },
            None => {},
        }
    }
}

proof fn lemma_labels_well_formed(graph: GraphView, solutions: Seq<VariableSetView>)
    requires
        graph.well_formed(),
    ensures
        with_labels(graph, solutions).well_formed(),
    decreases solutions.len(),
{
    if solutions.len() > 0 {
        lemma_labels_well_formed(graph, solutions.drop_last());
        let before = with_labels(graph, solutions.drop_last());
        let solution = solutions.last();
        match (bound_in(solution.entity, "a"@), bound_in(solution.value, "label"@)) {
            (Some(a), Some(ValueView::Data(label))) => {
                lemma_put_node(before, a, label);
            },
            _ => {},
        }
    }
}

impl GraphData {
    /// The graph without nodes and links.
    pub fn new() -> (graph: Self)
        ensures
            graph@ == (GraphView { nodes: Seq::empty(), links: Seq::empty() }),
    {
        let graph = GraphData { nodes: Vec::new(), links: Vec::new() };
        assert(graph@.nodes =~= Seq::empty());
        assert(graph@.links =~= Seq::empty());
        graph
    }

    /// Sets the label of the node of the id, which is added where it is new.
    pub fn put_node(&mut self, id: &String, label: &String)
        ensures
            final(self)@.nodes == put_node(old(self)@.nodes, id@, label@),
            final(self)@.links == old(self)@.links,
    {
        let n = self.nodes.len();
        let mut i: usize = 0;
        while i < n
            invariant
                i <= n,
                n == self.nodes.len(),
                *self == *old(self),
                forall|j: int| 0 <= j < i ==> (#[trigger] self@.nodes[j]).0 != id@,
            decreases n - i,
        {
            if self.nodes[i].id == *id {
                proof {
                    lemma_node_position(self@.nodes, id@, i as int);
                }
                self.nodes[i].label = label.clone();
                assert(self@.nodes =~= put_node(old(self)@.nodes, id@, label@));
                return ;
            }
            i += 1;
        }
        proof {
            lemma_node_position(self@.nodes, id@, n as int);
        }
        self.nodes.push(Node { id: id.clone(), label: label.clone() });
        assert(self@.nodes =~= put_node(old(self)@.nodes, id@, label@));
    }

    /// Adds the link, unless it is there.
    pub fn put_link(&mut self, source: &String, target: &String)
        ensures
            final(self)@.links == put_link(old(self)@.links, source@, target@),
            final(self)@.nodes == old(self)@.nodes,
    {
        let n = self.links.len();
        let mut i: usize = 0;
        while i < n
            invariant
                i <= n,
                n == self.links.len(),
                *self == *old(self),
                forall|j: int| 0 <= j < i ==> #[trigger] self@.links[j] != (source@, target@),
            decreases n - i,
        {
            if self.links[i].source == *source && self.links[i].target == *target {
                proof {
                    lemma_link_position(self@.links, (source@, target@), i as int);
                }
                return ;
            }
            i += 1;
        }
        proof {
            lemma_link_position(self@.links, (source@, target@), n as int);
        }
        self.links.push(Link { source: source.clone(), target: target.clone() });
        assert(self@.links =~= put_link(old(self)@.links, source@, target@));
    }
}

/// The graph of the solutions of the query for all triplets and of the
/// query for labels: see [`graph_of`].
pub fn assemble(all: &Vec<VariableSet>, labelled: &Vec<VariableSet>) -> (graph: GraphData)
    ensures
        graph@ == graph_of(set_views(all@), set_views(labelled@)),
        graph@.well_formed(),
{
    proof {
        lemma_graph_well_formed(set_views(all@), set_views(labelled@));
    }
    let a = Variable::<Entity>::new("a");
    let b = Variable::<Entity>::new("b");
    let label = Variable::<Value>::new("label");
    let mut graph = GraphData::new();
    let ghost start = graph@;
    let mut i: usize = 0;
    proof {
        assert(set_views(all@).take(0) =~= Seq::empty());
    }
    while i < all.len()
        invariant
            i <= all.len(),
            a@ == "a"@,
            b@ == "b"@,
            graph@ == with_triplets(start, set_views(all@).take(i as int)),
        decreases all.len() - i,
    {
        proof {
            assert(set_views(all@).take(i + 1).drop_last() =~= set_views(all@).take(i as int));
            assert(set_views(all@).take(i + 1).last() == all[i as int]@);
        }
        if let Some(from) = all[i].get(&a) {
            graph.put_node(&from.0, &from.0);
            if let Some(to) = all[i].get(&b) {
                graph.put_link(&from.0, &to.0);
                graph.put_node(&to.0, &to.0);
            }
        }
        i += 1;
    }
    assert(set_views(all@).take(all.len() as int) =~= set_views(all@));
    let ghost linked = graph@;
    let mut k: usize = 0;
    proof {
        assert(set_views(labelled@).take(0) =~= Seq::empty());
    }
    while k < labelled.len()
        invariant
            k <= labelled.len(),
            a@ == "a"@,
            label@ == "label"@,
            graph@ == with_labels(linked, set_views(labelled@).take(k as int)),
        decreases labelled.len() - k,
    {
        proof {
            assert(set_views(labelled@).take(k + 1).drop_last() =~= set_views(labelled@).take(k as int));
            assert(set_views(labelled@).take(k + 1).last() == labelled[k as int]@);
        }
        if let Some(from) = labelled[k].get(&a) {
            if let Some(Value::Data(text)) = labelled[k].get(&label) {
                graph.put_node(&from.0, text);
            }
        }
        k += 1;
    }
    assert(set_views(labelled@).take(labelled.len() as int) =~= set_views(labelled@));
    graph
}

/// The query for every triplet: its entity as `a`, its attribute as `attr`,
/// and its value as `b`, which binds the entity `b` where the value is a
/// reference.
pub open spec fn triplet_rules() -> Seq<RuleView> {
    seq![
        RuleView {
            entity: RuleValView::Variable("a"@),
            attribute: RuleValView::Variable("attr"@),
            value: RuleValView::Variable("b"@),
        },
    ]
}

/// The query for every triplet of an entity that has a text label, with the
/// label as `label`.
pub open spec fn label_rules() -> Seq<RuleView> {
    triplet_rules().push(
        RuleView {
            entity: RuleValView::Variable("a"@),
            attribute: RuleValView::Constant("text/label"@),
            value: RuleValView::Variable("label"@),
        },
    )
}

/// The store as a graph: the graph of the solutions of [`triplet_rules`] and
/// of [`label_rules`].
pub fn export_graph(handle: &Handle) -> (graph: GraphData)
    ensures
        graph@ == graph_of(
            solve(handle@, triplet_rules(), seq![VariableSetView::empty()]),
            solve(handle@, label_rules(), seq![VariableSetView::empty()]),
        ),
        graph@.well_formed(),
{
    let a = Variable::<Entity>::new("a");
    let b = Variable::<Entity>::new("b");
    let attr = Variable::<Attribute>::new("attr");
    let label = Variable::<Value>::new("label");
    let mut labelled_rules: Vec<Rule> = Vec::new();
    labelled_rules.push(Rule::new((&a).into(), (&attr).into(), (&b).into()));
    labelled_rules.push(Rule::new((&a).into(), "text/label".into(), (&label).into()));
    let mut all_rules: Vec<Rule> = Vec::new();
    all_rules.push(Rule::new((&a).into(), (&attr).into(), (&b).into()));
    proof {
        let start = VariableSetView::empty();
        assert(rule_views(all_rules@) =~= triplet_rules());
        assert(rule_views(labelled_rules@) =~= label_rules());
        assert(triplet_rules()[0].load(start) == triplet_rules()[0]);
        lemma_solve_one(handle@, triplet_rules(), start);
        lemma_solve_one(handle@, label_rules(), start);
        lemma_constant_attributes_supported(
            handle@,
            triplet_rules().drop_first(),
            triplet_rules()[0].completions(handle@, start),
        );
        lemma_constant_attributes_supported(
            handle@,
            label_rules().drop_first(),
            label_rules()[0].completions(handle@, start),
        );
    }
    let labelled = handle.query(&labelled_rules);
    let all = handle.query(&all_rules);
    assemble(&all, &labelled)
}

} // verus!

use crate::bucket::{
    add_member, bucket_views, distinct_keys, divisor, has_key, with_member, Bucket, BucketView,
};
use crate::category::{analyzed_names, is_analyzed};
use crate::degree::{
    category_views, distinct_names, has_name, set_degree, with_degree, CategoryDegree,
    CategoryDegreeView,
};
use crate::graph::{
    degree_in, graph_degree, graph_edges, graph_node_count, graph_node_weight, graph_nodes,
};
use crate::record::{Individual, IndividualView, NodeType, NodeView};
use petgraph::graph::DiGraph;
use vstd::prelude::*;

verus! {

/// The demographic attributes by which individuals are grouped.
#[derive(Clone, Copy, Debug, PartialEq, Eq)]
pub enum Dimension {
    Gender,
    Race,
    Ethnicity,
    Payer,
    Cohort,
}

/// The key under which a cohort flag is counted.
pub open spec fn cohort_name(flag: bool) -> Seq<char> {
    if flag {
        "true"@
    } else {
        "false"@
    }
}

/// The value that an individual has in dimension `d`.
pub open spec fn dimension_key(individual: IndividualView, d: Dimension) -> Seq<char> {
    match d {
        Dimension::Gender => individual.gender,
        Dimension::Race => individual.race,
        Dimension::Ethnicity => individual.ethnicity,
        Dimension::Payer => individual.payer_factor,
        Dimension::Cohort => cohort_name(individual.atopic_march_cohort),
    }
}

/// Whether `node` is an individual whose value in dimension `d` is `key`.
pub open spec fn belongs(node: NodeView, d: Dimension, key: Seq<char>) -> bool {
    match node {
        NodeView::Individual(individual) => dimension_key(individual, d) == key,
        NodeView::NutAllergyStatus(_) => false,
    }
}

/// How many of `nodes` are individuals with value `key` in dimension `d`.
pub open spec fn members(nodes: Seq<NodeView>, d: Dimension, key: Seq<char>) -> nat
    decreases nodes.len(),
{
    if nodes.len() == 0 {
        0
    } else {
        members(nodes.drop_last(), d, key) + if belongs(nodes.last(), d, key) {
            1nat
        } else {
            0nat
        }
    }
}

/// The sum of the degrees of the individuals among `nodes` with value `key`
/// in dimension `d`. A node's index is its place in `nodes`.
pub open spec fn total_degree(
    nodes: Seq<NodeView>,
    edges: Seq<(int, int)>,
    d: Dimension,
    key: Seq<char>,
) -> nat
    decreases nodes.len(),
{
    if nodes.len() == 0 {
        0
    } else {
        total_degree(nodes.drop_last(), edges, d, key) + if belongs(nodes.last(), d, key) {
            degree_in(edges, nodes.len() - 1)
        } else {
            0nat
        }
    }
}

/// The values that the individuals among `nodes` have in dimension `d`, each
/// once, in the order in which they first occur.
pub open spec fn keys_seen(nodes: Seq<NodeView>, d: Dimension) -> Seq<Seq<char>>
    decreases nodes.len(),
{
    if nodes.len() == 0 {
        Seq::empty()
    } else {
        let before = keys_seen(nodes.drop_last(), d);
        match nodes.last() {
            NodeView::Individual(individual) => if before.contains(dimension_key(individual, d)) {
                before
            } else {
                before.push(dimension_key(individual, d))
            },
            NodeView::NutAllergyStatus(_) => before,
        }
    }
}

/// The bucket of `key` in dimension `d`: its members among `nodes` and the sum
/// of their degrees.
pub open spec fn bucket_of(
    nodes: Seq<NodeView>,
    edges: Seq<(int, int)>,
    d: Dimension,
    key: Seq<char>,
) -> BucketView {
    BucketView {
        key,
        total_degree: total_degree(nodes, edges, d, key),
        members: members(nodes, d, key),
    }
}

/// The buckets of dimension `d`: one for each value that occurs, in the order
/// of first occurrence.
pub open spec fn dimension_buckets(
    nodes: Seq<NodeView>,
    edges: Seq<(int, int)>,
    d: Dimension,
) -> Seq<BucketView> {
    keys_seen(nodes, d).map_values(|key: Seq<char>| bucket_of(nodes, edges, d, key))
}

/// A value that was not seen has no member.
pub proof fn lemma_unseen_key(
    nodes: Seq<NodeView>,
    edges: Seq<(int, int)>,
    d: Dimension,
    key: Seq<char>,
)
    requires
        !keys_seen(nodes, d).contains(key),
    ensures
        members(nodes, d, key) == 0,
        total_degree(nodes, edges, d, key) == 0,
    decreases nodes.len(),
{
    if nodes.len() > 0 {
        let before = keys_seen(nodes.drop_last(), d);
        if before.contains(key) {
            let j = choose|j: int| 0 <= j < before.len() && before[j] == key;
            assert(keys_seen(nodes, d)[j] == key);
        }
        if belongs(nodes.last(), d, key) && !before.contains(key) {
            assert(keys_seen(nodes, d)[before.len() as int] == key);
        }
        lemma_unseen_key(nodes.drop_last(), edges, d, key);
    }
}

/// A value that was seen has a member.
pub proof fn lemma_seen_key(nodes: Seq<NodeView>, d: Dimension, j: int)
    requires
        0 <= j < keys_seen(nodes, d).len(),
    ensures
        members(nodes, d, keys_seen(nodes, d)[j]) >= 1,
    decreases nodes.len(),
{
    if nodes.len() > 0 {
        let before = keys_seen(nodes.drop_last(), d);
        if j < before.len() {
            lemma_seen_key(nodes.drop_last(), d, j);
        }
    }
}

/// Every bucket of a dimension has a member, so its average is its sum divided
/// by the number of its members.
pub proof fn lemma_bucket_has_member(
    nodes: Seq<NodeView>,
    edges: Seq<(int, int)>,
    d: Dimension,
    j: int,
)
    requires
        0 <= j < dimension_buckets(nodes, edges, d).len(),
    ensures
        dimension_buckets(nodes, edges, d)[j].members >= 1,
        divisor(dimension_buckets(nodes, edges, d)[j].members) == dimension_buckets(
            nodes,
            edges,
            d,
        )[j].members,
{
    lemma_seen_key(nodes, d, j);
}

/// No value is seen twice.
pub proof fn lemma_keys_seen_distinct(nodes: Seq<NodeView>, d: Dimension)
    ensures
        forall|i: int, j: int|
            0 <= i < j < keys_seen(nodes, d).len() ==> keys_seen(nodes, d)[i] != keys_seen(
                nodes,
                d,
            )[j],
    decreases nodes.len(),
{
    if nodes.len() > 0 {
        lemma_keys_seen_distinct(nodes.drop_last(), d);
        let before = keys_seen(nodes.drop_last(), d);
        let seen = keys_seen(nodes, d);
        assert forall|i: int, j: int| 0 <= i < j < seen.len() implies seen[i] != seen[j] by {
            if j < before.len() {
                assert(before[i] != before[j]);
            } else {
                assert(!before.contains(seen[j]));
                assert(before[i] == seen[i]);
            }
        }
    }
}

/// The buckets of a dimension have distinct keys.
pub proof fn lemma_dimension_buckets_distinct(
    nodes: Seq<NodeView>,
    edges: Seq<(int, int)>,
    d: Dimension,
)
    ensures
        distinct_keys(dimension_buckets(nodes, edges, d)),
{
    lemma_keys_seen_distinct(nodes, d);
}

/// Counting one more node: an individual joins the bucket of its value, a
/// category changes nothing.
pub proof fn lemma_dimension_buckets_step(
    nodes: Seq<NodeView>,
    edges: Seq<(int, int)>,
    d: Dimension,
)
    requires
        nodes.len() > 0,
    ensures
        dimension_buckets(nodes, edges, d) == match nodes.last() {
            NodeView::Individual(individual) => with_member(
                dimension_buckets(nodes.drop_last(), edges, d),
                dimension_key(individual, d),
                degree_in(edges, nodes.len() - 1),
            ),
            NodeView::NutAllergyStatus(_) => dimension_buckets(nodes.drop_last(), edges, d),
        },
{
    let earlier = nodes.drop_last();
    let seen = keys_seen(earlier, d);
    match nodes.last() {
        NodeView::Individual(individual) => {
            let key = dimension_key(individual, d);
            if seen.contains(key) {
                let j = choose|j: int| 0 <= j < seen.len() && seen[j] == key;
                assert(dimension_buckets(earlier, edges, d)[j].key == key);
            } else {
                lemma_unseen_key(earlier, edges, d, key);
            }
        },
        NodeView::NutAllergyStatus(_) => {},
    }
}

/// The names of the reported categories among `nodes`, each once, in the
/// order in which they first occur.
pub open spec fn names_seen(nodes: Seq<NodeView>) -> Seq<Seq<char>>
    decreases nodes.len(),
{
    if nodes.len() == 0 {
        Seq::empty()
    } else {
        let before = names_seen(nodes.drop_last());
        match nodes.last() {
            NodeView::NutAllergyStatus(name) => if analyzed_names().contains(name)
                && !before.contains(name) {
                before.push(name)
            } else {
                before
            },
            NodeView::Individual(_) => before,
        }
    }
}

/// The degree of the category called `name`: that of the last of `nodes` with
/// this name. A node's index is its place in `nodes`.
pub open spec fn named_degree(nodes: Seq<NodeView>, edges: Seq<(int, int)>, name: Seq<char>) -> nat
    decreases nodes.len(),
{
    if nodes.len() == 0 {
        0
    } else if nodes.last() == NodeView::NutAllergyStatus(name) {
        degree_in(edges, nodes.len() - 1)
    } else {
        named_degree(nodes.drop_last(), edges, name)
    }
}

/// The degrees of the reported categories, in the order of first occurrence.
pub open spec fn category_degrees(nodes: Seq<NodeView>, edges: Seq<(int, int)>) -> Seq<
    CategoryDegreeView,
> {
    names_seen(nodes).map_values(
        |name: Seq<char>| CategoryDegreeView { name, degree: named_degree(nodes, edges, name) },
    )
}

/// Only reported categories are seen, and none twice.
pub proof fn lemma_names_seen(nodes: Seq<NodeView>)
    ensures
        forall|j: int|
            0 <= j < names_seen(nodes).len() ==> analyzed_names().contains(
                #[trigger] names_seen(nodes)[j],
            ),
        forall|i: int, j: int|
            0 <= i < j < names_seen(nodes).len() ==> names_seen(nodes)[i] != names_seen(nodes)[j],
    decreases nodes.len(),
{
    if nodes.len() > 0 {
        lemma_names_seen(nodes.drop_last());
        let before = names_seen(nodes.drop_last());
        let seen = names_seen(nodes);
        assert forall|i: int, j: int| 0 <= i < j < seen.len() implies seen[i] != seen[j] by {
            if j < before.len() {
                assert(before[i] != before[j]);
            } else {
                assert(!before.contains(seen[j]));
                assert(before[i] == seen[i]);
            }
        }
    }
}

/// The category degrees have distinct names.
pub proof fn lemma_category_degrees_distinct(nodes: Seq<NodeView>, edges: Seq<(int, int)>)
    ensures
        distinct_names(category_degrees(nodes, edges)),
{
    lemma_names_seen(nodes);
}

/// Counting one more node: a reported category sets its degree, any other
/// node changes nothing.
pub proof fn lemma_category_degrees_step(nodes: Seq<NodeView>, edges: Seq<(int, int)>)
    requires
        nodes.len() > 0,
    ensures
        category_degrees(nodes, edges) == match nodes.last() {
            NodeView::NutAllergyStatus(name) => if analyzed_names().contains(name) {
                with_degree(
                    category_degrees(nodes.drop_last(), edges),
                    name,
                    degree_in(edges, nodes.len() - 1),
                )
            } else {
                category_degrees(nodes.drop_last(), edges)
            },
            NodeView::Individual(_) => category_degrees(nodes.drop_last(), edges),
        },
{
    let earlier = nodes.drop_last();
    let seen = names_seen(earlier);
    lemma_names_seen(earlier);
    match nodes.last() {
        NodeView::NutAllergyStatus(name) => {
            if seen.contains(name) {
                let j = choose|j: int| 0 <= j < seen.len() && seen[j] == name;
                assert(category_degrees(earlier, edges)[j].name == name);
            }
        },
        NodeView::Individual(_) => {},
    }
}

/// What an analysis finds: the buckets of each demographic dimension, and the
/// degree of each reported allergy category.
#[derive(Debug, PartialEq, Eq)]
pub struct Report {
    pub gender: Vec<Bucket>,
    pub race: Vec<Bucket>,
    pub ethnicity: Vec<Bucket>,
    pub payer: Vec<Bucket>,
    pub cohort: Vec<Bucket>,
    pub allergy: Vec<CategoryDegree>,
}

/// A `Report` with each list as the views of what it holds.
pub struct ReportView {
    pub gender: Seq<BucketView>,
    pub race: Seq<BucketView>,
    pub ethnicity: Seq<BucketView>,
    pub payer: Seq<BucketView>,
    pub cohort: Seq<BucketView>,
    pub allergy: Seq<CategoryDegreeView>,
}

impl View for Report {
    type V = ReportView;

    open spec fn view(&self) -> ReportView {
        ReportView {
            gender: bucket_views(self.gender@),
            race: bucket_views(self.race@),
            ethnicity: bucket_views(self.ethnicity@),
            payer: bucket_views(self.payer@),
            cohort: bucket_views(self.cohort@),
            allergy: category_views(self.allergy@),
        }
    }
}

/// The report on a graph with these nodes and edges.
pub open spec fn analysis(nodes: Seq<NodeView>, edges: Seq<(int, int)>) -> ReportView {
    ReportView {
        gender: dimension_buckets(nodes, edges, Dimension::Gender),
        race: dimension_buckets(nodes, edges, Dimension::Race),
        ethnicity: dimension_buckets(nodes, edges, Dimension::Ethnicity),
        payer: dimension_buckets(nodes, edges, Dimension::Payer),
        cohort: dimension_buckets(nodes, edges, Dimension::Cohort),
        allergy: category_degrees(nodes, edges),
    }
}

/// The key under which a cohort flag is counted.
pub fn cohort_key(flag: bool) -> (key: String)
    ensures
        key@ == cohort_name(flag),
{
    if flag {
        "true".to_owned()
    } else {
        "false".to_owned()
    }
}

/// The value that `individual` has in dimension `d`.
pub fn dimension_value(individual: &Individual, d: Dimension) -> (key: String)
    ensures
        key@ == dimension_key(individual@, d),
{
    match d {
        Dimension::Gender => individual.gender.clone(),
        Dimension::Race => individual.race.clone(),
        Dimension::Ethnicity => individual.ethnicity.clone(),
        Dimension::Payer => individual.payer_factor.clone(),
        Dimension::Cohort => cohort_key(individual.atopic_march_cohort),
    }
}

/// Whether the numbers of `buckets` are those of at most `count` members, each
/// of a degree that fits 64 bits.
spec fn within(buckets: Seq<BucketView>, count: nat) -> bool {
    forall|j: int|
        0 <= j < buckets.len() ==> (#[trigger] buckets[j]).members <= count
            && buckets[j].total_degree <= count * 0xffff_ffff_ffff_ffff
}

/// Counts the individual that is the last of `nodes` in the buckets of
/// dimension `d`.
fn count_individual(
    buckets: &mut Vec<Bucket>,
    individual: &Individual,
    d: Dimension,
    degree: usize,
    Ghost(nodes): Ghost<Seq<NodeView>>,
    Ghost(edges): Ghost<Seq<(int, int)>>,
)
    requires
        0 < nodes.len() <= usize::MAX,
        nodes.last() == NodeView::Individual(individual@),
        degree == degree_in(edges, nodes.len() - 1),
        bucket_views(old(buckets)@) == dimension_buckets(nodes.drop_last(), edges, d),
        within(bucket_views(old(buckets)@), (nodes.len() - 1) as nat),
    ensures
        bucket_views(final(buckets)@) == dimension_buckets(nodes, edges, d),
        within(bucket_views(final(buckets)@), nodes.len()),
{
    let ghost before = bucket_views(buckets@);
    proof {
        lemma_dimension_buckets_distinct(nodes.drop_last(), edges, d);
        lemma_dimension_buckets_step(nodes, edges, d);
        assert forall|j: int| 0 <= j < buckets.len() implies buckets[j].total_degree + degree
            <= u128::MAX && buckets[j].members < usize::MAX by {
            assert(before[j] == buckets[j]@);
        }
    }
    add_member(buckets, dimension_value(individual, d), degree);
    proof {
        let after = bucket_views(buckets@);
        assert forall|j: int| 0 <= j < after.len() implies (#[trigger] after[j]).members
            <= nodes.len() && after[j].total_degree <= nodes.len() * 0xffff_ffff_ffff_ffff by {
            if j < before.len() {
                assert(before[j].members <= nodes.len() - 1);
            }
        }
    }
}

/// Analyses `graph`: every individual is counted, with its degree, in the
/// bucket of its value in each of the five dimensions, and every reported
/// category gets its degree. The degree of a node is the number of edges that
/// have it at either end.
pub fn calculate_centrality(graph: &DiGraph<NodeType, ()>) -> (report: Report)
    ensures
        report@ == analysis(graph_nodes(*graph), graph_edges(*graph)),
{
    let mut gender: Vec<Bucket> = Vec::new();
    let mut race: Vec<Bucket> = Vec::new();
    let mut ethnicity: Vec<Bucket> = Vec::new();
    let mut payer: Vec<Bucket> = Vec::new();
    let mut cohort: Vec<Bucket> = Vec::new();
    let mut allergy: Vec<CategoryDegree> = Vec::new();
    let ghost nodes = graph_nodes(*graph);
    let ghost edges = graph_edges(*graph);
    let ghost mut seen = nodes.take(0);
    let count = graph_node_count(graph);
    let mut i: usize = 0;
    while i < count
        invariant
            i <= count,
            count == nodes.len(),
            nodes == graph_nodes(*graph),
            edges == graph_edges(*graph),
            seen == nodes.take(i as int),
            bucket_views(gender@) == dimension_buckets(seen, edges, Dimension::Gender),
            bucket_views(race@) == dimension_buckets(seen, edges, Dimension::Race),
            bucket_views(ethnicity@) == dimension_buckets(seen, edges, Dimension::Ethnicity),
            bucket_views(payer@) == dimension_buckets(seen, edges, Dimension::Payer),
            bucket_views(cohort@) == dimension_buckets(seen, edges, Dimension::Cohort),
            category_views(allergy@) == category_degrees(seen, edges),
            within(bucket_views(gender@), i as nat),
            within(bucket_views(race@), i as nat),
            within(bucket_views(ethnicity@), i as nat),
            within(bucket_views(payer@), i as nat),
            within(bucket_views(cohort@), i as nat),
        decreases count - i,
    {
        let upto = Ghost(nodes.take(i + 1));
        let all = Ghost(edges);
        proof {
            assert(upto@.drop_last() == seen);
            lemma_category_degrees_step(upto@, edges);
        }
        let degree = graph_degree(graph, i);
        match graph_node_weight(graph, i) {
            NodeType::Individual(who) => {
                count_individual(&mut gender, who, Dimension::Gender, degree, upto, all);
                count_individual(&mut race, who, Dimension::Race, degree, upto, all);
                count_individual(&mut ethnicity, who, Dimension::Ethnicity, degree, upto, all);
                count_individual(&mut payer, who, Dimension::Payer, degree, upto, all);
                count_individual(&mut cohort, who, Dimension::Cohort, degree, upto, all);
            },
            NodeType::NutAllergyStatus(name) => {
                proof {
                    lemma_dimension_buckets_step(upto@, edges, Dimension::Gender);
                    lemma_dimension_buckets_step(upto@, edges, Dimension::Race);
                    lemma_dimension_buckets_step(upto@, edges, Dimension::Ethnicity);
                    lemma_dimension_buckets_step(upto@, edges, Dimension::Payer);
                    lemma_dimension_buckets_step(upto@, edges, Dimension::Cohort);
                    lemma_category_degrees_distinct(seen, edges);
                }
                if is_analyzed(name.as_str()) {
                    set_degree(&mut allergy, name.clone(), degree);
                }
            },
        }
        i += 1;
        proof {
            seen = upto@;
        }
    }
    assert(seen == nodes);
    Report { gender, race, ethnicity, payer, cohort, allergy }
}

} // verus!

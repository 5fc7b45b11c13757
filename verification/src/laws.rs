use crate::builder::{
    built_edges, built_nodes, category_nodes, node_of_record, record_edges, record_edges_below,
};
use crate::category::{
    allergy_names, analyzed_names, analyzed_place, lemma_allergy_names_distinct,
    lemma_analyzed_names, ALLERGY_COUNT,
};
use crate::bucket::BucketView;
use crate::centrality::{
    analysis, category_degrees, dimension_buckets, dimension_key, keys_seen, members, named_degree,
    names_seen, total_degree, Dimension, Report, ReportView,
};
use crate::degree::CategoryDegreeView;
use crate::graph::{category_count, degree_in, graph_edges, graph_nodes};
use crate::record::{NodeType, NodeView, Record};
use petgraph::graph::DiGraph;
use vstd::prelude::*;

verus! {

/// How many of `records` hold an onset for category `k`.
pub open spec fn diagnosed_count(records: Seq<Record>, k: int) -> nat
    decreases records.len(),
{
    if records.len() == 0 {
        0
    } else {
        diagnosed_count(records.drop_last(), k) + if records.last().diagnosed(k) {
            1nat
        } else {
            0nat
        }
    }
}

/// The degree of a node in two lists of edges put together is the sum of its
/// degrees in each.
pub proof fn lemma_degree_concat(first: Seq<(int, int)>, second: Seq<(int, int)>, a: int)
    ensures
        degree_in(first + second, a) == degree_in(first, a) + degree_in(second, a),
    decreases second.len(),
{
    if second.len() == 0 {
        assert(first + second == first);
    } else {
        lemma_degree_concat(first, second.drop_last(), a);
        assert((first + second).drop_last() == first + second.drop_last());
    }
}

/// The edges of one record touch its own node once for each onset, each
/// category with an onset once, and no other node.
pub proof fn lemma_record_edges_degree(r: Record, node: int, k: int, a: int)
    requires
        0 <= k <= ALLERGY_COUNT <= node,
    ensures
        degree_in(record_edges_below(r, node, k), a) == if a == node {
            r.diagnoses_below(k)
        } else if 0 <= a < k && r.diagnosed(a) {
            1nat
        } else {
            0nat
        },
    decreases k,
{
    if k > 0 {
        lemma_record_edges_degree(r, node, k - 1, a);
        if r.diagnosed(k - 1) {
            let edges = record_edges_below(r, node, k);
            assert(edges.drop_last() == record_edges_below(r, node, k - 1));
            assert(edges.last() == (node, k - 1));
        }
    }
}

/// No edge touches a node that stands for none of the records.
pub proof fn lemma_later_node_untouched(records: Seq<Record>, a: int)
    requires
        a >= node_of_record(records.len() as int),
    ensures
        degree_in(built_edges(records), a) == 0,
    decreases records.len(),
{
    if records.len() > 0 {
        let node = node_of_record(records.len() - 1);
        lemma_later_node_untouched(records.drop_last(), a);
        lemma_record_edges_degree(records.last(), node, ALLERGY_COUNT as int, a);
        let earlier = built_edges(records.drop_last());
        lemma_degree_concat(earlier, record_edges(records.last(), node), a);
    }
}

/// A built graph has exactly nine category nodes, whatever the records are.
pub proof fn lemma_nine_categories(records: Seq<Record>)
    ensures
        category_count(built_nodes(records)) == ALLERGY_COUNT,
    decreases records.len(),
{
    if records.len() == 0 {
        assert(built_nodes(records) == category_nodes());
        reveal_with_fuel(category_count, 10);
    } else {
        lemma_nine_categories(records.drop_last());
        assert(built_nodes(records).drop_last() == built_nodes(records.drop_last()));
    }
}

/// In a built graph every edge leaves the node of a record and reaches the
/// node of a category.
pub proof fn lemma_edges_join_individual_to_category(records: Seq<Record>)
    ensures
        forall|e: int|
            0 <= e < built_edges(records).len() ==> {
                let (from, to) = #[trigger] built_edges(records)[e];
                &&& ALLERGY_COUNT <= from < built_nodes(records).len()
                &&& built_nodes(records)[from] is Individual
                &&& 0 <= to < ALLERGY_COUNT
                &&& built_nodes(records)[to] is NutAllergyStatus
            },
    decreases records.len(),
{
    if records.len() > 0 {
        let earlier = records.drop_last();
        let node = node_of_record(records.len() - 1);
        lemma_edges_join_individual_to_category(earlier);
        lemma_record_edges_ends(records.last(), node, ALLERGY_COUNT as int);
        assert forall|e: int| 0 <= e < built_edges(records).len() implies {
            let (from, to) = #[trigger] built_edges(records)[e];
            &&& ALLERGY_COUNT <= from < built_nodes(records).len()
            &&& built_nodes(records)[from] is Individual
            &&& 0 <= to < ALLERGY_COUNT
            &&& built_nodes(records)[to] is NutAllergyStatus
        } by {
            if e < built_edges(earlier).len() {
                assert(built_edges(records)[e] == built_edges(earlier)[e]);
            } else {
                assert(built_edges(records)[e] == record_edges(records.last(), node)[e
                    - built_edges(earlier).len()]);
            }
        }
    }
}

/// Each edge of a record leaves its node and reaches one of the first `k`
/// categories.
proof fn lemma_record_edges_ends(r: Record, node: int, k: int)
    requires
        0 <= k,
    ensures
        forall|e: int|
            0 <= e < record_edges_below(r, node, k).len() ==> {
                let (from, to) = #[trigger] record_edges_below(r, node, k)[e];
                from == node && 0 <= to < k
            },
    decreases k,
{
    if k > 0 {
        lemma_record_edges_ends(r, node, k - 1);
        let earlier = record_edges_below(r, node, k - 1);
        let edges = record_edges_below(r, node, k);
        assert forall|e: int| 0 <= e < edges.len() implies {
            let (from, to) = #[trigger] edges[e];
            from == node && 0 <= to < k
        } by {
            if e < earlier.len() {
                assert(edges[e] == earlier[e]);
            }
        }
    }
}

/// Which edges leave a record's node depends on which onsets the record
/// holds, not on what they hold.
pub proof fn lemma_onset_values_do_not_matter(first: Record, second: Record, node: int, k: int)
    requires
        0 <= k <= ALLERGY_COUNT,
        forall|c: int| 0 <= c < k ==> first.diagnosed(c) == second.diagnosed(c),
    ensures
        record_edges_below(first, node, k) == record_edges_below(second, node, k),
        first.diagnoses_below(k) == second.diagnoses_below(k),
    decreases k,
{
    if k > 0 {
        lemma_onset_values_do_not_matter(first, second, node, k - 1);
    }
}

/// The edges of a record reach their categories in rising order.
proof fn lemma_record_edges_rise(r: Record, node: int, k: int)
    requires
        0 <= k,
    ensures
        forall|e: int, f: int|
            0 <= e < f < record_edges_below(r, node, k).len() ==> (#[trigger] record_edges_below(
                r,
                node,
                k,
            )[e]).1 < (#[trigger] record_edges_below(r, node, k)[f]).1,
    decreases k,
{
    if k > 0 {
        lemma_record_edges_rise(r, node, k - 1);
        lemma_record_edges_ends(r, node, k - 1);
        let earlier = record_edges_below(r, node, k - 1);
        let edges = record_edges_below(r, node, k);
        assert forall|e: int, f: int| 0 <= e < f < edges.len() implies (#[trigger] edges[e]).1 < (
        #[trigger] edges[f]).1 by {
            assert(edges[e] == earlier[e]);
            if f < earlier.len() {
                assert(edges[f] == earlier[f]);
            }
        }
    }
}

/// In a built graph no two edges join the same individual to the same
/// category.
pub proof fn lemma_no_edge_twice(records: Seq<Record>)
    ensures
        forall|e: int, f: int|
            0 <= e < f < built_edges(records).len() ==> #[trigger] built_edges(records)[e]
                != #[trigger] built_edges(records)[f],
    decreases records.len(),
{
    if records.len() > 0 {
        let earlier = built_edges(records.drop_last());
        let node = node_of_record(records.len() - 1);
        let last = record_edges(records.last(), node);
        let edges = built_edges(records);
        lemma_no_edge_twice(records.drop_last());
        lemma_edges_join_individual_to_category(records.drop_last());
        lemma_record_edges_ends(records.last(), node, ALLERGY_COUNT as int);
        lemma_record_edges_rise(records.last(), node, ALLERGY_COUNT as int);
        assert forall|e: int, f: int| 0 <= e < f < edges.len() implies #[trigger] edges[e]
            != #[trigger] edges[f] by {
            if f < earlier.len() {
                assert(edges[e] == earlier[e] && edges[f] == earlier[f]);
            } else if e < earlier.len() {
                assert(edges[e] == earlier[e]);
                assert(edges[f] == last[f - earlier.len()]);
            } else {
                assert(edges[e] == last[e - earlier.len()]);
                assert(edges[f] == last[f - earlier.len()]);
            }
        }
    }
}

/// In a built graph the degree of a record's node is the number of onset
/// fields that the record has filled, whatever they hold.
pub proof fn lemma_individual_degree(records: Seq<Record>, j: int)
    requires
        0 <= j < records.len(),
    ensures
        degree_in(built_edges(records), node_of_record(j)) == records[j].diagnosis_count(),
    decreases records.len(),
{
    let earlier = records.drop_last();
    let node = node_of_record(records.len() - 1);
    let last = record_edges(records.last(), node);
    lemma_degree_concat(built_edges(earlier), last, node_of_record(j));
    lemma_record_edges_degree(records.last(), node, ALLERGY_COUNT as int, node_of_record(j));
    if j == records.len() - 1 {
        lemma_later_node_untouched(earlier, node);
    } else {
        lemma_individual_degree(earlier, j);
    }
}

/// In a built graph the degree of a category's node is the number of records
/// that hold an onset for it.
pub proof fn lemma_category_degree(records: Seq<Record>, k: int)
    requires
        0 <= k < ALLERGY_COUNT,
    ensures
        degree_in(built_edges(records), k) == diagnosed_count(records, k),
    decreases records.len(),
{
    if records.len() > 0 {
        let earlier = records.drop_last();
        let node = node_of_record(records.len() - 1);
        lemma_category_degree(earlier, k);
        lemma_degree_concat(built_edges(earlier), record_edges(records.last(), node), k);
        lemma_record_edges_degree(records.last(), node, ALLERGY_COUNT as int, k);
    }
}

/// Building and analysing the same records twice gives the same report: a
/// report depends on nothing but the records.
pub proof fn lemma_runs_agree(
    records: Seq<Record>,
    first_graph: DiGraph<NodeType, ()>,
    second_graph: DiGraph<NodeType, ()>,
    first: Report,
    second: Report,
)
    requires
        graph_nodes(first_graph) == built_nodes(records),
        graph_edges(first_graph) == built_edges(records),
        graph_nodes(second_graph) == built_nodes(records),
        graph_edges(second_graph) == built_edges(records),
        first@ == analysis(graph_nodes(first_graph), graph_edges(first_graph)),
        second@ == analysis(graph_nodes(second_graph), graph_edges(second_graph)),
    ensures
        first@ == second@,
        first@ == analysis(built_nodes(records), built_edges(records)),
{
}

/// How many of `records` have the value `key` in dimension `d`.
pub open spec fn records_with(records: Seq<Record>, d: Dimension, key: Seq<char>) -> nat
    decreases records.len(),
{
    if records.len() == 0 {
        0
    } else {
        records_with(records.drop_last(), d, key) + if dimension_key(
            records.last().individual(),
            d,
        ) == key {
            1nat
        } else {
            0nat
        }
    }
}

/// How many onset fields the records with value `key` in dimension `d` have
/// filled, all together.
pub open spec fn onsets_with(records: Seq<Record>, d: Dimension, key: Seq<char>) -> nat
    decreases records.len(),
{
    if records.len() == 0 {
        0
    } else {
        onsets_with(records.drop_last(), d, key) + if dimension_key(
            records.last().individual(),
            d,
        ) == key {
            records.last().diagnosis_count()
        } else {
            0nat
        }
    }
}

/// The values that `records` have in dimension `d`, each once, in the order
/// in which they first occur.
pub open spec fn values_seen(records: Seq<Record>, d: Dimension) -> Seq<Seq<char>>
    decreases records.len(),
{
    if records.len() == 0 {
        Seq::empty()
    } else {
        let before = values_seen(records.drop_last(), d);
        let value = dimension_key(records.last().individual(), d);
        if before.contains(value) {
            before
        } else {
            before.push(value)
        }
    }
}

/// The nodes of the first `i` records end with the node of the last of them.
proof fn lemma_built_nodes_prefix(records: Seq<Record>, i: int)
    requires
        0 < i <= records.len(),
    ensures
        built_nodes(records.take(i)).drop_last() == built_nodes(records.take(i - 1)),
        built_nodes(records.take(i)).last() == NodeView::Individual(records[i - 1].individual()),
{
}

/// Among category nodes alone no bucket has a member.
proof fn lemma_categories_have_no_member(
    nodes: Seq<NodeView>,
    edges: Seq<(int, int)>,
    d: Dimension,
    key: Seq<char>,
)
    requires
        forall|a: int| 0 <= a < nodes.len() ==> nodes[a] is NutAllergyStatus,
    ensures
        members(nodes, d, key) == 0,
        total_degree(nodes, edges, d, key) == 0,
        keys_seen(nodes, d) == Seq::<Seq<char>>::empty(),
    decreases nodes.len(),
{
    if nodes.len() > 0 {
        lemma_categories_have_no_member(nodes.drop_last(), edges, d, key);
    }
}

/// The members of a bucket, counted over the nodes of the first `i` records
/// in the graph of all of them.
proof fn lemma_bucket_prefix(records: Seq<Record>, d: Dimension, key: Seq<char>, i: int)
    requires
        0 <= i <= records.len(),
    ensures
        members(built_nodes(records.take(i)), d, key) == records_with(records.take(i), d, key),
        total_degree(built_nodes(records.take(i)), built_edges(records), d, key) == onsets_with(
            records.take(i),
            d,
            key,
        ),
    decreases i,
{
    let edges = built_edges(records);
    if i == 0 {
        lemma_categories_have_no_member(built_nodes(records.take(0)), edges, d, key);
    } else {
        lemma_bucket_prefix(records, d, key, i - 1);
        lemma_built_nodes_prefix(records, i);
        lemma_individual_degree(records, i - 1);
        assert(records.take(i).drop_last() == records.take(i - 1));
    }
}

/// In the report on a built graph, the bucket of a value counts the records
/// with that value, and sums the numbers of onset fields that they have
/// filled.
pub proof fn lemma_bucket_counts_records(records: Seq<Record>, d: Dimension, key: Seq<char>)
    ensures
        members(built_nodes(records), d, key) == records_with(records, d, key),
        total_degree(built_nodes(records), built_edges(records), d, key) == onsets_with(
            records,
            d,
            key,
        ),
{
    lemma_bucket_prefix(records, d, key, records.len() as int);
    assert(records.take(records.len() as int) == records);
}

/// The values that the first `i` records have are those that their nodes
/// show.
proof fn lemma_keys_prefix(records: Seq<Record>, d: Dimension, i: int)
    requires
        0 <= i <= records.len(),
    ensures
        keys_seen(built_nodes(records.take(i)), d) == values_seen(records.take(i), d),
    decreases i,
{
    if i == 0 {
        let none = Seq::<char>::empty();
        let nodes = built_nodes(records.take(0));
        lemma_categories_have_no_member(nodes, Seq::empty(), d, none);
    } else {
        lemma_keys_prefix(records, d, i - 1);
        lemma_built_nodes_prefix(records, i);
        assert(records.take(i).drop_last() == records.take(i - 1));
    }
}

/// The report on a built graph, said of the records alone: a dimension has a
/// bucket for each value that the records have in it, in the order of first
/// occurrence, with the number of the records of that value as its members and
/// the number of onset fields that they have filled as its sum of degrees.
pub proof fn lemma_buckets_of_records(records: Seq<Record>, d: Dimension)
    ensures
        dimension_buckets(built_nodes(records), built_edges(records), d) == values_seen(
            records,
            d,
        ).map_values(
            |key: Seq<char>|
                BucketView {
                    key,
                    total_degree: onsets_with(records, d, key),
                    members: records_with(records, d, key),
                },
        ),
{
    let nodes = built_nodes(records);
    let edges = built_edges(records);
    let keys = values_seen(records, d);
    lemma_keys_prefix(records, d, records.len() as int);
    assert(records.take(records.len() as int) == records);
    assert forall|j: int| 0 <= j < keys.len() implies dimension_buckets(nodes, edges, d)[j]
        == (BucketView {
        key: keys[j],
        total_degree: onsets_with(records, d, keys[j]),
        members: records_with(records, d, keys[j]),
    }) by {
        lemma_bucket_counts_records(records, d, keys[j]);
    }
}

/// The names of the reported categories among the first `k`.
spec fn reported_below(k: int) -> Seq<Seq<char>>
    decreases k,
{
    if k <= 0 {
        Seq::empty()
    } else if analyzed_names().contains(allergy_names()[k - 1]) {
        reported_below(k - 1).push(allergy_names()[k - 1])
    } else {
        reported_below(k - 1)
    }
}

/// The reported names among the first `k` categories are names of these.
proof fn lemma_reported_below(k: int, name: Seq<char>)
    requires
        0 <= k <= ALLERGY_COUNT,
        reported_below(k).contains(name),
    ensures
        exists|c: int| 0 <= c < k && allergy_names()[c] == name,
    decreases k,
{
    if k > 0 {
        let earlier = reported_below(k - 1);
        if earlier.contains(name) {
            lemma_reported_below(k - 1, name);
        } else {
            let j = choose|j: int| 0 <= j < reported_below(k).len() && reported_below(k)[j] == name;
            if j < earlier.len() {
                assert(earlier[j] == name);
            }
            assert(allergy_names()[k - 1] == name);
        }
    }
}

/// The first `k` category nodes show the reported names among them.
proof fn lemma_names_seen_categories(k: int)
    requires
        0 <= k <= ALLERGY_COUNT,
    ensures
        names_seen(category_nodes().take(k)) == reported_below(k),
    decreases k,
{
    if k > 0 {
        lemma_names_seen_categories(k - 1);
        let nodes = category_nodes().take(k);
        let name = allergy_names()[k - 1];
        assert(nodes.drop_last() == category_nodes().take(k - 1));
        if reported_below(k - 1).contains(name) {
            lemma_reported_below(k - 1, name);
            lemma_allergy_names_distinct();
        }
    }
}

/// A built graph shows the reported names as its category nodes do.
proof fn lemma_names_seen_built(records: Seq<Record>)
    ensures
        names_seen(built_nodes(records)) == analyzed_names(),
    decreases records.len(),
{
    if records.len() == 0 {
        assert(category_nodes().take(ALLERGY_COUNT as int) == category_nodes());
        lemma_names_seen_categories(ALLERGY_COUNT as int);
        lemma_analyzed_names();
        reveal_with_fuel(reported_below, 10);
    } else {
        lemma_names_seen_built(records.drop_last());
        assert(built_nodes(records).drop_last() == built_nodes(records.drop_last()));
    }
}

/// Among the first `m` category nodes, the one called like category `k` is
/// node `k`.
proof fn lemma_named_degree_categories(edges: Seq<(int, int)>, k: int, m: int)
    requires
        0 <= k < m <= ALLERGY_COUNT,
    ensures
        named_degree(category_nodes().take(m), edges, allergy_names()[k]) == degree_in(edges, k),
    decreases m,
{
    let nodes = category_nodes().take(m);
    assert(nodes.last() == NodeView::NutAllergyStatus(allergy_names()[m - 1]));
    if m - 1 > k {
        lemma_allergy_names_distinct();
        assert(nodes.drop_last() == category_nodes().take(m - 1));
        lemma_named_degree_categories(edges, k, m - 1);
    }
}

/// In a built graph, the node called like category `k` is node `k`.
proof fn lemma_named_degree_built(records: Seq<Record>, edges: Seq<(int, int)>, k: int)
    requires
        0 <= k < ALLERGY_COUNT,
    ensures
        named_degree(built_nodes(records), edges, allergy_names()[k]) == degree_in(edges, k),
    decreases records.len(),
{
    if records.len() == 0 {
        assert(category_nodes().take(ALLERGY_COUNT as int) == category_nodes());
        lemma_named_degree_categories(edges, k, ALLERGY_COUNT as int);
    } else {
        lemma_named_degree_built(records.drop_last(), edges, k);
        assert(built_nodes(records).drop_last() == built_nodes(records.drop_last()));
    }
}

/// The report on a built graph gives the seven reported categories in their
/// fixed order, each with the number of records that hold an onset for it.
pub proof fn lemma_category_degrees_count_records(records: Seq<Record>)
    ensures
        category_degrees(built_nodes(records), built_edges(records)) == Seq::new(
            7,
            |i: int|
                CategoryDegreeView {
                    name: analyzed_names()[i],
                    degree: diagnosed_count(records, analyzed_place(i)),
                },
        ),
{
    let nodes = built_nodes(records);
    let edges = built_edges(records);
    lemma_names_seen_built(records);
    lemma_analyzed_names();
    assert forall|i: int| 0 <= i < 7 implies category_degrees(nodes, edges)[i]
        == (CategoryDegreeView {
        name: analyzed_names()[i],
        degree: diagnosed_count(records, analyzed_place(i)),
    }) by {
        let k = analyzed_place(i);
        lemma_named_degree_built(records, edges, k);
        lemma_category_degree(records, k);
    }
}

/// Without records the graph is the nine category nodes without an edge, and
/// its report has no bucket and gives every reported category the degree 0.
pub proof fn lemma_no_records()
    ensures
        built_nodes(Seq::<Record>::empty()) == category_nodes(),
        built_edges(Seq::<Record>::empty()) == Seq::<(int, int)>::empty(),
        analysis(built_nodes(Seq::<Record>::empty()), built_edges(Seq::<Record>::empty()))
            == (ReportView {
            gender: Seq::empty(),
            race: Seq::empty(),
            ethnicity: Seq::empty(),
            payer: Seq::empty(),
            cohort: Seq::empty(),
            allergy: Seq::new(
                7,
                |i: int| CategoryDegreeView { name: analyzed_names()[i], degree: 0 },
            ),
        }),
{
    let records = Seq::<Record>::empty();
    let nodes = built_nodes(records);
    let edges = built_edges(records);
    let none = Seq::<char>::empty();
    lemma_categories_have_no_member(nodes, edges, Dimension::Gender, none);
    lemma_categories_have_no_member(nodes, edges, Dimension::Race, none);
    lemma_categories_have_no_member(nodes, edges, Dimension::Ethnicity, none);
    lemma_categories_have_no_member(nodes, edges, Dimension::Payer, none);
    lemma_categories_have_no_member(nodes, edges, Dimension::Cohort, none);
    lemma_category_degrees_count_records(records);
    assert(dimension_buckets(nodes, edges, Dimension::Gender) == Seq::<BucketView>::empty());
    assert(dimension_buckets(nodes, edges, Dimension::Race) == Seq::<BucketView>::empty());
    assert(dimension_buckets(nodes, edges, Dimension::Ethnicity) == Seq::<BucketView>::empty());
    assert(dimension_buckets(nodes, edges, Dimension::Payer) == Seq::<BucketView>::empty());
    assert(dimension_buckets(nodes, edges, Dimension::Cohort) == Seq::<BucketView>::empty());
    assert(category_degrees(nodes, edges) == Seq::new(
        7,
        |i: int| CategoryDegreeView { name: analyzed_names()[i], degree: 0 },
    ));
}

} // verus!

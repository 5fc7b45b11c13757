use crate::category::{allergy_name, allergy_names, ALLERGY_COUNT};
use crate::graph::{
    category_count, degree_in, graph_add_edge, graph_add_node, graph_edges, graph_new,
    graph_nodes, GRAPH_LIMIT,
};
use crate::laws::{lemma_individual_degree, lemma_nine_categories};
use crate::record::{Individual, NodeType, NodeView, Record};
use petgraph::graph::DiGraph;
use vstd::prelude::*;

verus! {

/// The category nodes, which every graph starts with: one for each name, in
/// the fixed order.
pub open spec fn category_nodes() -> Seq<NodeView> {
    Seq::new(ALLERGY_COUNT as nat, |k: int| NodeView::NutAllergyStatus(allergy_names()[k]))
}

/// The nodes of the graph built from `records`: the categories, then one
/// individual for each record, in the order of the records.
pub open spec fn built_nodes(records: Seq<Record>) -> Seq<NodeView> {
    category_nodes() + Seq::new(
        records.len(),
        |j: int| NodeView::Individual(records[j].individual()),
    )
}

/// The edges that leave the node `node` of record `r` for the first `k`
/// categories: one to each category that the record has an onset for, in
/// category order.
pub open spec fn record_edges_below(r: Record, node: int, k: int) -> Seq<(int, int)>
    decreases k,
{
    if k <= 0 {
        Seq::empty()
    } else if r.diagnosed(k - 1) {
        record_edges_below(r, node, k - 1).push((node, k - 1))
    } else {
        record_edges_below(r, node, k - 1)
    }
}

/// The edges that leave the node `node` of record `r`.
pub open spec fn record_edges(r: Record, node: int) -> Seq<(int, int)> {
    record_edges_below(r, node, ALLERGY_COUNT as int)
}

/// The index of the node that stands for record `j`.
pub open spec fn node_of_record(j: int) -> int {
    ALLERGY_COUNT + j
}

/// The edges of the graph built from `records`: those of the first record,
/// then those of the second, and so on.
pub open spec fn built_edges(records: Seq<Record>) -> Seq<(int, int)>
    decreases records.len(),
{
    if records.len() == 0 {
        Seq::empty()
    } else {
        built_edges(records.drop_last()) + record_edges(
            records.last(),
            node_of_record(records.len() - 1),
        )
    }
}

/// Whether a graph can hold what `records` ask for: a node for each category
/// and each record, and an edge for each onset.
pub open spec fn fits_graph(records: Seq<Record>) -> bool {
    &&& ALLERGY_COUNT + records.len() <= GRAPH_LIMIT
    &&& built_edges(records).len() <= GRAPH_LIMIT
}

/// A record has at most one edge for each category.
pub proof fn lemma_record_edges_len(r: Record, node: int, k: int)
    requires
        0 <= k,
    ensures
        record_edges_below(r, node, k).len() == r.diagnoses_below(k),
        r.diagnoses_below(k) <= k,
    decreases k,
{
    if k > 0 {
        lemma_record_edges_len(r, node, k - 1);
    }
}

/// The graph has at most nine edges for each record, so the records fit
/// whenever nine edges for each of them would.
pub proof fn lemma_built_edges_len(records: Seq<Record>)
    ensures
        built_edges(records).len() <= ALLERGY_COUNT * records.len(),
        ALLERGY_COUNT * records.len() <= GRAPH_LIMIT ==> fits_graph(records),
    decreases records.len(),
{
    if records.len() > 0 {
        lemma_built_edges_len(records.drop_last());
        lemma_record_edges_len(
            records.last(),
            node_of_record(records.len() - 1),
            ALLERGY_COUNT as int,
        );
    }
}

/// The records before the `i`-th have no more edges than all of them.
proof fn lemma_built_edges_prefix(records: Seq<Record>, i: int)
    requires
        0 <= i <= records.len(),
    ensures
        built_edges(records.take(i)).len() <= built_edges(records).len(),
    decreases records.len() - i,
{
    if i < records.len() {
        lemma_built_edges_prefix(records, i + 1);
        assert(records.take(i + 1).drop_last() == records.take(i));
    } else {
        assert(records.take(i) == records);
    }
}

/// Whether a graph can hold what `records` ask for.
pub fn fits(records: &Vec<Record>) -> (ok: bool)
    ensures
        ok == fits_graph(records@),
{
    if records.len() > GRAPH_LIMIT - ALLERGY_COUNT {
        return false;
    }
    let mut edges: usize = 0;
    let mut i: usize = 0;
    while i < records.len()
        invariant
            i <= records.len(),
            edges == built_edges(records@.take(i as int)).len(),
            edges <= GRAPH_LIMIT,
        decreases records.len() - i,
    {
        let onsets = records[i].count_onsets();
        proof {
            assert(records@.take(i + 1).drop_last() == records@.take(i as int));
            lemma_record_edges_len(
                records@[i as int],
                node_of_record(i as int),
                ALLERGY_COUNT as int,
            );
            lemma_built_edges_prefix(records@, i + 1);
        }
        if edges > GRAPH_LIMIT - onsets {
            return false;
        }
        edges += onsets;
        i += 1;
    }
    assert(records@.take(records.len() as int) == records@);
    true
}

/// What a node says of the subject of `record`.
pub fn individual_of(record: &Record) -> (individual: Individual)
    ensures
        individual@ == record.individual(),
{
    Individual {
        id: record.subject_id.clone(),
        gender: record.gender_factor.clone(),
        race: record.race_factor.clone(),
        ethnicity: record.ethnicity_factor.clone(),
        payer_factor: record.payer_factor.clone(),
        atopic_march_cohort: record.atopic_march_cohort,
    }
}

/// Builds the graph of `records`: a node for each of the nine categories,
/// then, record by record, a node for the subject and an edge from it to each
/// category that the record holds an onset for.
pub fn create_graph(records: Vec<Record>) -> (graph: DiGraph<NodeType, ()>)
    requires
        fits_graph(records@),
    ensures
        graph_nodes(graph) == built_nodes(records@),
        graph_edges(graph) == built_edges(records@),
        category_count(graph_nodes(graph)) == ALLERGY_COUNT,
        forall|j: int|
            0 <= j < records@.len() ==> degree_in(graph_edges(graph), #[trigger] node_of_record(j))
                == records@[j].diagnosis_count(),
{
    proof {
        lemma_nine_categories(records@);
        assert forall|j: int| 0 <= j < records@.len() implies degree_in(
            built_edges(records@),
            #[trigger] node_of_record(j),
        ) == records@[j].diagnosis_count() by {
            lemma_individual_degree(records@, j);
        }
    }
    let mut graph = graph_new();
    let mut allergy_nodes: Vec<usize> = Vec::new();
    let mut k: usize = 0;
    while k < ALLERGY_COUNT
        invariant
            k <= ALLERGY_COUNT,
            graph_nodes(graph) == category_nodes().take(k as int),
            graph_edges(graph) == Seq::<(int, int)>::empty(),
            allergy_nodes@.len() == k,
            forall|c: int| 0 <= c < k ==> allergy_nodes@[c] == c,
        decreases ALLERGY_COUNT - k,
    {
        let name = allergy_name(k).to_owned();
        let node = graph_add_node(&mut graph, NodeType::NutAllergyStatus(name));
        allergy_nodes.push(node);
        k += 1;
    }

    let mut i: usize = 0;
    while i < records.len()
        invariant
            i <= records.len(),
            fits_graph(records@),
            graph_nodes(graph) == built_nodes(records@.take(i as int)),
            graph_edges(graph) == built_edges(records@.take(i as int)),
            allergy_nodes@.len() == ALLERGY_COUNT,
            forall|c: int| 0 <= c < ALLERGY_COUNT ==> allergy_nodes@[c] == c,
        decreases records.len() - i,
    {
        let record = &records[i];
        let ghost before = records@.take(i as int);
        let ghost upto = records@.take(i + 1);
        proof {
            lemma_built_edges_prefix(records@, i + 1);
        }
        let individual = NodeType::Individual(individual_of(record));
        let individual_node = graph_add_node(&mut graph, individual);

        let mut k: usize = 0;
        while k < ALLERGY_COUNT
            invariant
                k <= ALLERGY_COUNT,
                i < records.len(),
                individual_node == node_of_record(i as int),
                *record == records@[i as int],
                before == records@.take(i as int),
                upto == records@.take(i + 1),
                upto.drop_last() == before,
                upto.last() == *record,
                built_edges(upto).len() <= GRAPH_LIMIT,
                graph_nodes(graph) == built_nodes(upto),
                graph_edges(graph) == built_edges(before) + record_edges_below(
                    *record,
                    individual_node as int,
                    k as int,
                ),
                allergy_nodes@.len() == ALLERGY_COUNT,
                forall|c: int| 0 <= c < ALLERGY_COUNT ==> allergy_nodes@[c] == c,
            decreases ALLERGY_COUNT - k,
        {
            let onset = record.get_allergy_start(allergy_name(k));
            proof {
                record.lemma_onset_named(k as int);
                lemma_record_edges_len(*record, individual_node as int, k + 1);
                lemma_record_edges_len(*record, individual_node as int, ALLERGY_COUNT as int);
                lemma_diagnoses_below_monotone(*record, k + 1, ALLERGY_COUNT as int);
            }
            if onset.is_some() {
                graph_add_edge(&mut graph, individual_node, allergy_nodes[k]);
            }
            k += 1;
        }
        i += 1;
    }
    assert(records@.take(records.len() as int) == records@);
    graph
}

/// Counting over more categories never counts less.
proof fn lemma_diagnoses_below_monotone(r: Record, k: int, m: int)
    requires
        0 <= k <= m,
    ensures
        r.diagnoses_below(k) <= r.diagnoses_below(m),
    decreases m - k,
{
    if k < m {
        lemma_diagnoses_below_monotone(r, k, m - 1);
    }
}

} // verus!

use vstd::prelude::*;

verus! {

/// How many allergy categories a graph has.
pub const ALLERGY_COUNT: usize = 9;

/// The allergy categories, in the order in which their nodes are created.
pub open spec fn allergy_names() -> Seq<Seq<char>> {
    seq![
        "Peanut"@,
        "Treenut"@,
        "Walnut"@,
        "Pecan"@,
        "Pistachio"@,
        "Almond"@,
        "Brazil"@,
        "Hazelnut"@,
        "Cashew"@,
    ]
}

/// The categories whose degree an analysis reports: all but Brazil and
/// Hazelnut.
pub open spec fn analyzed_names() -> Seq<Seq<char>> {
    seq![
        "Peanut"@,
        "Treenut"@,
        "Walnut"@,
        "Pecan"@,
        "Pistachio"@,
        "Almond"@,
        "Cashew"@,
    ]
}

/// The place among the nine categories of the `i`-th reported one.
pub open spec fn analyzed_place(i: int) -> int {
    if i < 6 {
        i
    } else {
        8
    }
}

/// The name of the category at place `k` of the fixed order.
pub fn allergy_name(k: usize) -> (name: &'static str)
    requires
        k < ALLERGY_COUNT,
    ensures
        name@ == allergy_names()[k as int],
{
    if k == 0 {
        "Peanut"
    } else if k == 1 {
        "Treenut"
    } else if k == 2 {
        "Walnut"
    } else if k == 3 {
        "Pecan"
    } else if k == 4 {
        "Pistachio"
    } else if k == 5 {
        "Almond"
    } else if k == 6 {
        "Brazil"
    } else if k == 7 {
        "Hazelnut"
    } else {
        "Cashew"
    }
}

/// Whether `name` is one of the categories that an analysis reports.
pub fn is_analyzed(name: &str) -> (yes: bool)
    ensures
        yes == analyzed_names().contains(name@),
{
    if name.eq("Peanut") {
        true
    } else if name.eq("Treenut") {
        true
    } else if name.eq("Walnut") {
        true
    } else if name.eq("Pecan") {
        true
    } else if name.eq("Pistachio") {
        true
    } else if name.eq("Almond") {
        true
    } else if name.eq("Cashew") {
        true
    } else {
        false
    }
}

/// No two categories share a name.
pub proof fn lemma_allergy_names_distinct()
    ensures
        allergy_names().len() == ALLERGY_COUNT,
        forall|i: int, j: int|
            0 <= i < j < ALLERGY_COUNT ==> allergy_names()[i] != allergy_names()[j],
{
    reveal_strlit("Peanut");
    reveal_strlit("Treenut");
    reveal_strlit("Walnut");
    reveal_strlit("Pecan");
    reveal_strlit("Pistachio");
    reveal_strlit("Almond");
    reveal_strlit("Brazil");
    reveal_strlit("Hazelnut");
    reveal_strlit("Cashew");
    let names = allergy_names();
    assert(names[0].len() == 6 && names[0][0] == 'P');
    assert(names[1].len() == 7);
    assert(names[2].len() == 6 && names[2][0] == 'W');
    assert(names[3].len() == 5);
    assert(names[4].len() == 9);
    assert(names[5].len() == 6 && names[5][0] == 'A');
    assert(names[6].len() == 6 && names[6][0] == 'B');
    assert(names[7].len() == 8);
    assert(names[8].len() == 6 && names[8][0] == 'C');
}

/// The reported categories are the nine without the seventh and the eighth,
/// in the same order.
pub proof fn lemma_analyzed_names()
    ensures
        analyzed_names().len() == 7,
        forall|i: int|
            0 <= i < 7 ==> analyzed_names()[i] == allergy_names()[#[trigger] analyzed_place(i)],
        forall|k: int|
            0 <= k < ALLERGY_COUNT ==> (analyzed_names().contains(#[trigger] allergy_names()[k])
                <==> k != 6 && k != 7),
{
    lemma_allergy_names_distinct();
    let names = allergy_names();
    let analyzed = analyzed_names();
    assert forall|k: int| 0 <= k < ALLERGY_COUNT implies (analyzed.contains(#[trigger] names[k])
        <==> k != 6 && k != 7) by {
        if k != 6 && k != 7 {
            let i = if k < 6 {
                k
            } else {
                6
            };
        } else if analyzed.contains(names[k]) {
            let i = choose|i: int| 0 <= i < analyzed.len() && analyzed[i] == names[k];
        }
    }
}

} // verus!

use vstd::prelude::*;

verus! {

/// The degree of one allergy category.
#[derive(Debug, PartialEq, Eq)]
pub struct CategoryDegree {
    pub name: String,
    pub degree: usize,
}

/// A `CategoryDegree` with its name as the characters it holds.
pub struct CategoryDegreeView {
    pub name: Seq<char>,
    pub degree: nat,
}

impl View for CategoryDegree {
    type V = CategoryDegreeView;

    open spec fn view(&self) -> CategoryDegreeView {
        CategoryDegreeView { name: self.name@, degree: self.degree as nat }
    }
}

/// The entries of a list, each as its view.
pub open spec fn category_views(entries: Seq<CategoryDegree>) -> Seq<CategoryDegreeView> {
    entries.map_values(|e: CategoryDegree| e@)
}

/// Whether one of `entries` is for `name`.
pub open spec fn has_name(entries: Seq<CategoryDegreeView>, name: Seq<char>) -> bool {
    exists|j: int| 0 <= j < entries.len() && #[trigger] entries[j].name == name
}

/// Whether no two of `entries` are for the same name.
pub open spec fn distinct_names(entries: Seq<CategoryDegreeView>) -> bool {
    forall|i: int, j: int|
        0 <= i < j < entries.len() ==> (#[trigger] entries[i]).name != (#[trigger] entries[j]).name
}

/// `entries` after the degree of the category `name` is set: the entry for
/// `name` now holds `degree`, and is put at the end if there was none.
pub open spec fn with_degree(entries: Seq<CategoryDegreeView>, name: Seq<char>, degree: nat) -> Seq<
    CategoryDegreeView,
> {
    if has_name(entries, name) {
        Seq::new(
            entries.len(),
            |j: int|
                if entries[j].name == name {
                    CategoryDegreeView { name, degree }
                } else {
                    entries[j]
                },
        )
    } else {
        entries.push(CategoryDegreeView { name, degree })
    }
}

/// Where in `entries` the entry for `name` stands, if there is one.
pub fn category_position(entries: &Vec<CategoryDegree>, name: &str) -> (at: Option<usize>)
    ensures
        match at {
            Some(j) => j < entries.len() && entries[j as int].name@ == name@ && forall|i: int|
                0 <= i < j ==> entries[i].name@ != name@,
            None => !has_name(category_views(entries@), name@),
        },
{
    let mut j: usize = 0;
    while j < entries.len()
        invariant
            j <= entries.len(),
            forall|i: int| 0 <= i < j ==> entries[i].name@ != name@,
        decreases entries.len() - j,
    {
        if entries[j].name.as_str().eq(name) {
            return Some(j);
        }
        j += 1;
    }
    None
}

/// Sets the degree of the category `name`.
pub fn set_degree(entries: &mut Vec<CategoryDegree>, name: String, degree: usize)
    requires
        distinct_names(category_views(old(entries)@)),
    ensures
        category_views(final(entries)@) == with_degree(
            category_views(old(entries)@),
            name@,
            degree as nat,
        ),
        distinct_names(category_views(final(entries)@)),
{
    let ghost before = category_views(entries@);
    match category_position(entries, name.as_str()) {
        Some(j) => {
            entries[j].degree = degree;
            proof {
                let after = category_views(entries@);
                assert(before[j as int].name == name@);
                assert forall|i: int| 0 <= i < before.len() implies after[i] == if before[i].name
                    == name@ {
                    (CategoryDegreeView { name: name@, degree: degree as nat })
                } else {
                    before[i]
                } by {
                    if i != j {
                        assert(before[i].name != before[j as int].name);
                    }
                }
            }
        },
        None => {
            entries.push(CategoryDegree { name, degree });
            proof {
                let after = category_views(entries@);
                assert forall|i: int, j: int| 0 <= i < j < after.len() implies after[i].name
                    != after[j].name by {
                    if j == before.len() {
                        assert(before[i].name != name@);
                    } else {
                        assert(before[i].name != before[j].name);
                    }
                }
            }
        },
    }
}

} // verus!

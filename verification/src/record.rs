use crate::category::{allergy_name, allergy_names, lemma_allergy_names_distinct, ALLERGY_COUNT};
use vstd::prelude::*;

verus! {

/// A number as the data source recorded it, kept as the 64 bits of its
/// double-precision form. Nothing here computes with it: a reading is moved
/// around, and an optional reading is asked whether it is there.
#[derive(Clone, Copy, Debug)]
pub struct Reading {
    pub bits: u64,
}

/// One subject's row: who they are, and when each allergy began and ended.
#[derive(Debug)]
pub struct Record {
    pub subject_id: String,
    pub birth_year: i32,
    pub gender_factor: String,
    pub race_factor: String,
    pub ethnicity_factor: String,
    pub payer_factor: String,
    pub atopic_march_cohort: bool,
    pub age_start_years: Reading,
    pub age_end_years: Reading,
    pub peanut_alg_start: Option<Reading>,
    pub peanut_alg_end: Option<Reading>,
    pub treenut_alg_start: Option<Reading>,
    pub treenut_alg_end: Option<Reading>,
    pub walnut_alg_start: Option<Reading>,
    pub walnut_alg_end: Option<Reading>,
    pub pecan_alg_start: Option<Reading>,
    pub pecan_alg_end: Option<Reading>,
    pub pistach_alg_start: Option<Reading>,
    pub pistach_alg_end: Option<Reading>,
    pub almond_alg_start: Option<Reading>,
    pub almond_alg_end: Option<Reading>,
    pub brazil_alg_start: Option<Reading>,
    pub brazil_alg_end: Option<Reading>,
    pub hazelnut_alg_start: Option<Reading>,
    pub hazelnut_alg_end: Option<Reading>,
    pub cashew_alg_start: Option<Reading>,
    pub cashew_alg_end: Option<Reading>,
}

/// What a graph node says of a subject.
#[derive(Debug)]
pub struct Individual {
    pub id: String,
    pub gender: String,
    pub race: String,
    pub ethnicity: String,
    pub payer_factor: String,
    pub atopic_march_cohort: bool,
}

/// The two kinds of node: a subject, or an allergy category by name.
pub enum NodeType {
    Individual(Individual),
    NutAllergyStatus(String),
}

/// An `Individual` with each string as the characters it holds.
pub struct IndividualView {
    pub id: Seq<char>,
    pub gender: Seq<char>,
    pub race: Seq<char>,
    pub ethnicity: Seq<char>,
    pub payer_factor: Seq<char>,
    pub atopic_march_cohort: bool,
}

/// A `NodeType` with each string as the characters it holds.
pub enum NodeView {
    Individual(IndividualView),
    NutAllergyStatus(Seq<char>),
}

impl View for Individual {
    type V = IndividualView;

    open spec fn view(&self) -> IndividualView {
        IndividualView {
            id: self.id@,
            gender: self.gender@,
            race: self.race@,
            ethnicity: self.ethnicity@,
            payer_factor: self.payer_factor@,
            atopic_march_cohort: self.atopic_march_cohort,
        }
    }
}

impl View for NodeType {
    type V = NodeView;

    open spec fn view(&self) -> NodeView {
        match self {
            NodeType::Individual(individual) => NodeView::Individual(individual@),
            NodeType::NutAllergyStatus(name) => NodeView::NutAllergyStatus(name@),
        }
    }
}

impl Record {
    /// The onset that the record holds for the category called `name`;
    /// nothing for a name that is no category.
    pub open spec fn onset_named(self, name: Seq<char>) -> Option<Reading> {
        if name == "Peanut"@ {
            self.peanut_alg_start
        } else if name == "Treenut"@ {
            self.treenut_alg_start
        } else if name == "Walnut"@ {
            self.walnut_alg_start
        } else if name == "Pecan"@ {
            self.pecan_alg_start
        } else if name == "Pistachio"@ {
            self.pistach_alg_start
        } else if name == "Almond"@ {
            self.almond_alg_start
        } else if name == "Brazil"@ {
            self.brazil_alg_start
        } else if name == "Hazelnut"@ {
            self.hazelnut_alg_start
        } else if name == "Cashew"@ {
            self.cashew_alg_start
        } else {
            None
        }
    }

    /// The nine onset fields, in category order.
    pub open spec fn onsets(self) -> Seq<Option<Reading>> {
        seq![
            self.peanut_alg_start,
            self.treenut_alg_start,
            self.walnut_alg_start,
            self.pecan_alg_start,
            self.pistach_alg_start,
            self.almond_alg_start,
            self.brazil_alg_start,
            self.hazelnut_alg_start,
            self.cashew_alg_start,
        ]
    }

    /// Whether the record holds an onset for category `k`, whatever its value.
    pub open spec fn diagnosed(self, k: int) -> bool {
        self.onsets()[k] is Some
    }

    /// How many of the first `k` categories the record holds an onset for.
    pub open spec fn diagnoses_below(self, k: int) -> nat
        decreases k,
    {
        if k <= 0 {
            0
        } else {
            self.diagnoses_below(k - 1) + if self.diagnosed(k - 1) {
                1nat
            } else {
                0nat
            }
        }
    }

    /// How many of its nine onset fields the record has filled.
    pub open spec fn diagnosis_count(self) -> nat {
        self.diagnoses_below(ALLERGY_COUNT as int)
    }

    /// What the subject's node carries.
    pub open spec fn individual(self) -> IndividualView {
        IndividualView {
            id: self.subject_id@,
            gender: self.gender_factor@,
            race: self.race_factor@,
            ethnicity: self.ethnicity_factor@,
            payer_factor: self.payer_factor@,
            atopic_march_cohort: self.atopic_march_cohort,
        }
    }

    /// Looking a category up by its name finds the onset field at its place.
    pub proof fn lemma_onset_named(self, k: int)
        requires
            0 <= k < ALLERGY_COUNT,
        ensures
            self.onset_named(allergy_names()[k]) == self.onsets()[k],
    {
        lemma_allergy_names_distinct();
    }

    /// The onset recorded for the category called `allergy`, if the record has
    /// one; nothing for a name that is no category.
    pub fn get_allergy_start(&self, allergy: &str) -> (onset: Option<Reading>)
        ensures
            onset == self.onset_named(allergy@),
    {
        if allergy.eq("Peanut") {
            self.peanut_alg_start
        } else if allergy.eq("Treenut") {
            self.treenut_alg_start
        } else if allergy.eq("Walnut") {
            self.walnut_alg_start
        } else if allergy.eq("Pecan") {
            self.pecan_alg_start
        } else if allergy.eq("Pistachio") {
            self.pistach_alg_start
        } else if allergy.eq("Almond") {
            self.almond_alg_start
        } else if allergy.eq("Brazil") {
            self.brazil_alg_start
        } else if allergy.eq("Hazelnut") {
            self.hazelnut_alg_start
        } else if allergy.eq("Cashew") {
            self.cashew_alg_start
        } else {
            None
        }
    }

    /// How many of its nine onset fields the record has filled.
    pub fn count_onsets(&self) -> (count: usize)
        ensures
            count == self.diagnosis_count(),
    {
        let mut count: usize = 0;
        let mut k: usize = 0;
        while k < ALLERGY_COUNT
            invariant
                k <= ALLERGY_COUNT,
                count == self.diagnoses_below(k as int),
                count <= k,
            decreases ALLERGY_COUNT - k,
        {
            proof {
                self.lemma_onset_named(k as int);
            }
            if self.get_allergy_start(allergy_name(k)).is_some() {
                count += 1;
            }
            k += 1;
        }
        count
    }
}

} // verus!

use allergy_graph::category::{allergy_name, is_analyzed, ALLERGY_COUNT};
use allergy_graph::record::{Reading, Record};

fn numbered() -> Record {
    let at = |n: u64| Some(Reading { bits: n });
    Record {
        subject_id: "1".to_string(),
        birth_year: 1999,
        gender_factor: "F".to_string(),
        race_factor: "R".to_string(),
        ethnicity_factor: "E".to_string(),
        payer_factor: "P".to_string(),
        atopic_march_cohort: false,
        age_start_years: Reading { bits: 0 },
        age_end_years: Reading { bits: 0 },
        peanut_alg_start: at(10),
        peanut_alg_end: at(11),
        treenut_alg_start: at(20),
        treenut_alg_end: at(21),
        walnut_alg_start: at(30),
        walnut_alg_end: at(31),
        pecan_alg_start: at(40),
        pecan_alg_end: at(41),
        pistach_alg_start: at(50),
        pistach_alg_end: at(51),
        almond_alg_start: at(60),
        almond_alg_end: at(61),
        brazil_alg_start: at(70),
        brazil_alg_end: at(71),
        hazelnut_alg_start: at(80),
        hazelnut_alg_end: at(81),
        cashew_alg_start: at(90),
        cashew_alg_end: at(91),
    }
}

#[test]
fn the_nine_names_in_order() {
    assert_eq!(ALLERGY_COUNT, 9);
    let names: Vec<&str> = (0..ALLERGY_COUNT).map(allergy_name).collect();
    assert_eq!(
        names,
        vec![
            "Peanut",
            "Treenut",
            "Walnut",
            "Pecan",
            "Pistachio",
            "Almond",
            "Brazil",
            "Hazelnut",
            "Cashew"
        ]
    );
}

#[test]
fn all_but_brazil_and_hazelnut_are_analyzed() {
    let expected = [true, true, true, true, true, true, false, false, true];
    for k in 0..ALLERGY_COUNT {
        assert_eq!(is_analyzed(allergy_name(k)), expected[k], "{}", allergy_name(k));
    }
    assert!(!is_analyzed(""));
    assert!(!is_analyzed("peanut"));
    assert!(!is_analyzed("Peanuts"));
    assert!(!is_analyzed("Shellfish"));
}

#[test]
fn each_name_finds_its_own_onset() {
    let record = numbered();
    let expected = [10u64, 20, 30, 40, 50, 60, 70, 80, 90];
    for k in 0..ALLERGY_COUNT {
        let onset = record.get_allergy_start(allergy_name(k));
        assert_eq!(onset.map(|r| r.bits), Some(expected[k]));
    }
}

#[test]
fn an_unknown_name_finds_nothing() {
    let record = numbered();
    for name in ["", "peanut", "PEANUT", "Pistach", "Peanut ", "Shellfish"] {
        assert!(record.get_allergy_start(name).is_none(), "{:?}", name);
    }
}

#[test]
fn a_missing_onset_is_found_missing() {
    let mut record = numbered();
    record.walnut_alg_start = None;
    record.cashew_alg_start = None;
    assert!(record.get_allergy_start("Walnut").is_none());
    assert!(record.get_allergy_start("Cashew").is_none());
    assert!(record.get_allergy_start("Pecan").is_some());
    assert_eq!(record.count_onsets(), 7);
}

#[test]
fn an_end_without_a_start_is_no_onset() {
    let mut record = numbered();
    record.peanut_alg_start = None;
    assert!(record.get_allergy_start("Peanut").is_none());
    assert_eq!(record.count_onsets(), 8);
}

#[test]
fn counting_onsets_ignores_their_values() {
    let mut record = numbered();
    assert_eq!(record.count_onsets(), 9);
    record.peanut_alg_start = Some(Reading { bits: 0 });
    record.treenut_alg_start = Some(Reading { bits: f64::NAN.to_bits() });
    record.walnut_alg_start = Some(Reading { bits: (-1.0f64).to_bits() });
    assert_eq!(record.count_onsets(), 9);
}

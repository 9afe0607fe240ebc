use rosu_pp::attributes::DifficultyAttributes;
use rosu_pp::attributes::OsuAttributeProvider;
use rosu_pp::pp::Beatmap;
use rosu_pp::pp::OsuPP;

#[test]
fn default_attributes_are_empty() {
    let a = DifficultyAttributes::default();
    assert_eq!(a.n_circles, 0);
    assert_eq!(a.n_sliders, 0);
    assert_eq!(a.n_spinners, 0);
    assert_eq!(a.max_combo, 0);
}

#[test]
fn circles_and_spinners_count_one_combo_each() {
    let mut a = DifficultyAttributes::default();
    a.add_circle();
    a.add_circle();
    a.add_spinner();
    assert_eq!(a.n_circles, 2);
    assert_eq!(a.n_spinners, 1);
    assert_eq!(a.max_combo, 3);
}

#[test]
fn slider_combo_counts_head_ticks_repeats_and_tail() {
    let mut a = DifficultyAttributes::default();
    // 3 ticks, 2 spans: head + 3 ticks + (1 reverse + 3 replayed ticks) +
    // tail = 9
    a.add_slider(3, 2);
    assert_eq!(a.n_sliders, 1);
    assert_eq!(a.max_combo, 9);

    // a single-span slider without ticks: head + tail
    a.add_slider(0, 1);
    assert_eq!(a.n_sliders, 2);
    assert_eq!(a.max_combo, 11);
}

#[test]
fn mixed_objects_accumulate_exact_combo() {
    let mut a = DifficultyAttributes::default();
    a.add_circle();
    a.add_slider(2, 3);
    a.add_spinner();
    // slider: head + 2 ticks + 2 * (1 + 2) + tail = 10
    assert_eq!(a.max_combo, 1 + 10 + 1);
}

#[test]
fn attribute_provider_roundtrip() {
    let mut a = DifficultyAttributes::default();
    a.add_circle();
    assert_eq!(a.attributes().unwrap().n_circles, 1);

    let map = Beatmap::default();
    let request = OsuPP::new(&map).attributes(a).passed_objects(10);
    assert_eq!(request.attributes.unwrap().n_circles, 1);
}

#[test]
fn reconciled_result_provides_its_attributes() {
    let map = Beatmap::default();
    let mut a = DifficultyAttributes::default();
    a.add_circle();
    a.add_slider(1, 1);

    let inner = OsuPP::new(&map)
        .passed_objects(10)
        .attributes(a)
        .assert_hitresults(a);
    let reused = inner.attributes().unwrap();
    assert_eq!(reused.n_sliders, 1);
    assert_eq!(reused.max_combo, 4);
}

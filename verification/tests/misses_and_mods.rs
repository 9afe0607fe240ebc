use rosu_pp::attributes::DifficultyAttributes;
use rosu_pp::mods::ModFlags;
use rosu_pp::pp::calculate_effective_misses;
use rosu_pp::pp::nofail_multiplier_milli;
use rosu_pp::pp::relax_effective_misses;

fn attrs(max_combo: usize, n_sliders: usize) -> DifficultyAttributes {
    DifficultyAttributes { n_circles: 0, n_sliders, n_spinners: 0, max_combo }
}

#[test]
fn effective_misses_without_sliders_is_reported_count() {
    let a = attrs(100, 0);
    assert_eq!(calculate_effective_misses(&a, Some(10), 3, 100), 3);
}

#[test]
fn effective_misses_without_combo_is_reported_count() {
    let a = attrs(100, 10);
    assert_eq!(calculate_effective_misses(&a, None, 3, 100), 3);
}

#[test]
fn effective_misses_full_combo_threshold() {
    let a = attrs(100, 10);
    // threshold is 100 - 0.1 * 10 = 99; a combo at or above it infers no
    // breaks
    assert_eq!(calculate_effective_misses(&a, Some(99), 0, 100), 0);
    // below it, the estimate is threshold / combo, floored
    assert_eq!(calculate_effective_misses(&a, Some(50), 0, 100), 1);
    assert_eq!(calculate_effective_misses(&a, Some(4), 0, 100), 24);
}

#[test]
fn effective_misses_reported_count_is_lower_bound() {
    let a = attrs(100, 10);
    assert_eq!(calculate_effective_misses(&a, Some(50), 7, 100), 7);
}

#[test]
fn effective_misses_clamped_to_total_hits() {
    let a = attrs(100, 10);
    // a combo of zero infers threshold / 1 = 99 breaks, clamped to the 10
    // judged hits
    assert_eq!(calculate_effective_misses(&a, Some(0), 0, 10), 10);
}

#[test]
fn effective_misses_more_sliders_than_combo_scale() {
    // a negative full-combo threshold can never be undercut
    let a = attrs(1, 100);
    assert_eq!(calculate_effective_misses(&a, Some(0), 2, 10), 2);
}

#[test]
fn nofail_factor_scenario() {
    // five effective misses floor the no-fail factor: max(1 - 0.02 * 5,
    // 0.9) = 0.9
    assert_eq!(nofail_multiplier_milli(5), 900);
}

#[test]
fn nofail_factor_scales_with_misses() {
    assert_eq!(nofail_multiplier_milli(0), 1000);
    assert_eq!(nofail_multiplier_milli(1), 980);
    assert_eq!(nofail_multiplier_milli(4), 920);
    assert_eq!(nofail_multiplier_milli(50), 900);
}

#[test]
fn relax_folds_partial_hits_into_misses() {
    assert_eq!(relax_effective_misses(3, 10, 5), 18);
    assert_eq!(relax_effective_misses(0, 0, 0), 0);
}

#[test]
fn mod_queries_read_their_bits() {
    assert!(ModFlags::new(1).nf());
    assert!(!ModFlags::new(0).nf());
    assert!(ModFlags::new(4).td());
    assert!(ModFlags::new(8).hd());
    assert!(ModFlags::new(128).rx());
    assert!(ModFlags::new(1024).fl());
    assert!(ModFlags::new(4096).so());
    // hidden + double-time
    let hddt = ModFlags::new(8 + 64);
    assert!(hddt.hd());
    assert!(!hddt.rx());
}

#[test]
fn clock_rate_percent() {
    assert_eq!(ModFlags::new(0).clock_rate_percent(), 100);
    assert_eq!(ModFlags::new(64).clock_rate_percent(), 150);
    assert_eq!(ModFlags::new(512).clock_rate_percent(), 150);
    assert_eq!(ModFlags::new(256).clock_rate_percent(), 75);
}

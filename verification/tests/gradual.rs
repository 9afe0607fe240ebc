use rosu_pp::gradual::TaikoGradualDifficulty;
use rosu_pp::gradual::TaikoObject;

fn hit(colour: u32, rhythm: u32, stamina: u32) -> TaikoObject {
    TaikoObject { is_hit: true, colour, rhythm, stamina }
}

fn marker() -> TaikoObject {
    TaikoObject { is_hit: false, colour: 0, rhythm: 0, stamina: 0 }
}

fn sample_objects() -> Vec<TaikoObject> {
    vec![
        hit(100, 200, 300),
        hit(500, 100, 200),
        hit(1500, 800, 2500),
        marker(),
        hit(900, 1200, 400),
        hit(2500, 300, 3000),
        marker(),
        hit(700, 700, 700),
    ]
}

#[test]
fn initial_length_counts_hit_objects() {
    let cursor = TaikoGradualDifficulty::new(sample_objects(), 35, false);
    assert_eq!(cursor.len(), 6);
    assert_eq!(cursor.size_hint(), (6, Some(6)));
}

#[test]
fn each_step_lowers_length_by_one() {
    let mut cursor = TaikoGradualDifficulty::new(sample_objects(), 35, false);
    let mut expected: usize = cursor.len();
    while expected > 0 {
        assert!(cursor.next().is_some());
        expected -= 1;
        assert_eq!(cursor.len(), expected);
    }
    assert!(cursor.next().is_none());
    assert_eq!(cursor.len(), 0);
    assert!(cursor.next().is_none());
}

#[test]
fn skip_ahead_equals_single_steps() {
    // one skip-ahead-by-k call must match k single steps, for every k
    let n_hits: usize = 6;
    for k in 1..=n_hits + 2 {
        let mut stepping = TaikoGradualDifficulty::new(sample_objects(), 35, true);
        let mut last = None;
        for _ in 0..k {
            last = stepping.next();
        }

        let mut skipping = TaikoGradualDifficulty::new(sample_objects(), 35, true);
        let skipped = skipping.nth(k - 1);

        assert_eq!(last, skipped, "k={}", k);
        assert_eq!(stepping.len(), skipping.len(), "k={}", k);
    }
}

#[test]
fn skip_ahead_after_steps() {
    // the equivalence also holds from a mid-iteration state
    let mut stepping = TaikoGradualDifficulty::new(sample_objects(), 35, false);
    let mut skipping = TaikoGradualDifficulty::new(sample_objects(), 35, false);
    stepping.next();
    skipping.next();
    let mut last = None;
    for _ in 0..3 {
        last = stepping.next();
    }
    assert_eq!(last, skipping.nth(2));
}

#[test]
fn priming_objects_emit_before_any_difficulty_object() {
    let mut cursor = TaikoGradualDifficulty::new(sample_objects(), 35, false);
    // the first two notes precede any difficulty object: their snapshots
    // carry zero ratings but count the combo of the priming pair
    let first = cursor.next().unwrap();
    assert_eq!(first.stars, 0);
    assert_eq!(first.peak, 0);
    assert_eq!(first.max_combo, 2);
    assert_eq!(first.hit_window, 35);
    let second = cursor.next().unwrap();
    assert_eq!(second.stars, 0);
    assert_eq!(second.max_combo, 2);
    // from the third hit on, the accumulator has seen objects
    let third = cursor.next().unwrap();
    assert!(third.stars > 0);
    assert_eq!(third.max_combo, 3);
}

#[test]
fn markers_are_admitted_without_snapshot_or_combo() {
    let objects = vec![
        hit(0, 0, 1000),
        hit(0, 0, 1000),
        marker(),
        marker(),
        hit(0, 0, 1000),
    ];
    let mut cursor = TaikoGradualDifficulty::new(objects, 20, false);
    assert_eq!(cursor.len(), 3);
    cursor.next();
    cursor.next();
    // this step swallows both markers and ends on the third hit
    let snap = cursor.next().unwrap();
    assert_eq!(snap.max_combo, 3);
    assert!(cursor.next().is_none());
}

#[test]
fn snapshot_ratings_exact() {
    // a single stamina strain of 1000 milli-units: rating 1000 * 84 / 1000
    // = 84, combined 84, star = isqrt(1000 * (84 * 14 / 10)) = isqrt(117000)
    // = 342
    let objects = vec![hit(0, 0, 500), hit(0, 0, 500), hit(0, 0, 1000)];
    let mut cursor = TaikoGradualDifficulty::new(objects, 50, false);
    cursor.next();
    cursor.next();
    let snap = cursor.next().unwrap();
    assert_eq!(snap.stamina, 84);
    assert_eq!(snap.colour, 0);
    assert_eq!(snap.rhythm, 0);
    assert_eq!(snap.peak, 84);
    assert_eq!(snap.stars, 342);
}

#[test]
fn conversion_penalty_exact() {
    // same map as a cross-mode conversion: the flat penalty applies,
    // 342 * 925 / 1000 = 316
    let objects = vec![hit(0, 0, 500), hit(0, 0, 500), hit(0, 0, 1000)];
    let mut cursor = TaikoGradualDifficulty::new(objects, 50, true);
    cursor.next();
    cursor.next();
    let snap = cursor.next().unwrap();
    assert_eq!(snap.stars, 316);
}

#[test]
fn conversion_low_variance_high_stamina_penalty() {
    // a colour rating below 2.0 with a stamina rating above 8.0 takes the
    // additional 0.8 factor on conversions
    let objects = vec![
        hit(0, 0, 100_000_000),
        hit(0, 0, 100_000_000),
        hit(0, 0, 100_000_000),
    ];
    let mut plain = TaikoGradualDifficulty::new(objects.clone(), 50, true);
    plain.next();
    plain.next();
    let snap = plain.next().unwrap();
    // stamina rating 8_400_000 milli-units; base star isqrt(11_760_000_000
    // * 1000 / 1000 * ...) = 108443; flat 100309; times 4 / 5 = 80247
    assert_eq!(snap.stamina, 8_400_000);
    assert_eq!(snap.stars, 80_247);
}

#[test]
fn peaks_track_maxima_not_sums() {
    let objects = vec![
        hit(0, 0, 500),
        hit(0, 0, 500),
        hit(0, 0, 1000),
        hit(0, 0, 800),
    ];
    let mut cursor = TaikoGradualDifficulty::new(objects, 50, false);
    cursor.next();
    cursor.next();
    let third = cursor.next().unwrap();
    let fourth = cursor.next().unwrap();
    // the lower strain of the fourth object does not lower the peak
    assert_eq!(third.stamina, 84);
    assert_eq!(fourth.stamina, 84);
}

#[test]
fn too_few_objects_is_exhausted() {
    let mut empty = TaikoGradualDifficulty::new(Vec::new(), 35, false);
    assert_eq!(empty.len(), 0);
    assert!(empty.next().is_none());

    let mut single = TaikoGradualDifficulty::new(vec![hit(1, 1, 1)], 35, false);
    assert_eq!(single.len(), 0);
    assert!(single.next().is_none());
    assert!(single.nth(3).is_none());
}

#[test]
fn markers_only_map_is_exhausted() {
    let mut cursor = TaikoGradualDifficulty::new(vec![marker(), marker(), marker()], 35, false);
    assert_eq!(cursor.len(), 0);
    assert!(cursor.next().is_none());
    assert_eq!(cursor.len(), 0);
}

#[test]
fn skip_past_end_is_none() {
    let mut cursor = TaikoGradualDifficulty::new(sample_objects(), 35, false);
    assert!(cursor.nth(100).is_none());
    assert_eq!(cursor.len(), 0);
}

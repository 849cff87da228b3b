use funscript_transform::actions::Transformer;
use funscript_transform::args::Command;
use funscript_transform::types::{Action, Funscript};

fn script(points: &[(i64, f64)]) -> Funscript {
    let actions = points
        .iter()
        .map(|&(at, pos)| Action { at, pos: pos.to_bits(), ty: None })
        .collect();
    Funscript { actions, metadata: None, range: None, version: None }
}

fn positions(list: &[Action]) -> Vec<(i64, f64)> {
    list.iter().map(|a| (a.at, f64::from_bits(a.pos))).collect()
}

#[test]
fn extract_unique_ascending_drops_last_key() {
    // Three actions, unique ascending timestamps: two entries, keyed by
    // every timestamp but the last.
    let t = Transformer::new(&script(&[(0, 0.0), (100, 50.0), (200, 0.0)]));
    let out = t.into_list();
    // |50 - 0/(100-0)| = 50; |0 - 50/(200-100)| = 0.5, rounded half away -> 1
    assert_eq!(positions(&out), vec![(0, 50.0), (100, 1.0)]);
}

#[test]
fn extract_skips_leading_duplicate_timestamps() {
    // The second action shares the first timestamp: it only advances the
    // cursor, and the differential resumes from it.
    let t = Transformer::new(&script(&[(0, 10.0), (0, 20.0), (100, 30.0)]));
    let out = t.into_list();
    // |30 - 20/(100-0)| = 29.8 under key 0, rounded -> 30
    assert_eq!(positions(&out), vec![(0, 30.0)]);
}

#[test]
fn extract_takes_tag_of_later_point() {
    let mut s = script(&[(0, 0.0), (100, 50.0)]);
    s.actions[1].ty = Some(String::from("peak"));
    let out = Transformer::new(&s).into_list();
    assert_eq!(out.len(), 1);
    assert_eq!(out[0].at, 0);
    assert_eq!(out[0].ty.as_deref(), Some("peak"));
}

#[test]
fn extract_nonleading_duplicate_timestamp_gives_infinity() {
    // A zero time delta past the first timestamp divides by zero; the
    // infinity propagates instead of aborting.
    let t = Transformer::new(&script(&[(0, 0.0), (100, 50.0), (100, 60.0)]));
    let out = t.into_list();
    assert_eq!(out.len(), 2);
    assert_eq!(out[0].at, 0);
    assert_eq!(f64::from_bits(out[0].pos), 50.0);
    assert_eq!(out[1].at, 100);
    assert!(f64::from_bits(out[1].pos).is_infinite());
}

#[test]
fn normalize_scales_to_hundred_and_is_idempotent_at_max_hundred() {
    // Signal values [50, 0.5]; max 50 -> [100, 1]. A second run sees max
    // exactly 100 and maps every value to itself.
    let mut t = Transformer::new(&script(&[(0, 0.0), (100, 50.0), (200, 0.0)]));
    t.transform(Command::Normalize);
    let mut u = Transformer::new(&script(&[(0, 0.0), (100, 50.0), (200, 0.0)]));
    u.transform(Command::Normalize);
    u.transform(Command::Normalize);
    let once = t.into_list();
    let twice = u.into_list();
    assert_eq!(once.len(), twice.len());
    for (a, b) in once.iter().zip(twice.iter()) {
        assert_eq!(a.at, b.at);
        assert_eq!(a.pos, b.pos);
    }
    for a in &once {
        let v = f64::from_bits(a.pos);
        assert!((0.0..=100.0).contains(&v));
    }
}

#[test]
fn normalize_zero_max_is_identity() {
    // A flat script derives an all-zero signal; normalize must not divide.
    let mut t = Transformer::new(&script(&[(0, 0.0), (100, 0.0)]));
    t.transform(Command::Normalize);
    let out = t.into_list();
    assert_eq!(positions(&out), vec![(0, 0.0)]);
}

#[test]
fn scale_linear_one_is_identity() {
    let mut t = Transformer::new(&script(&[(0, 0.0), (100, 50.0), (200, 0.0)]));
    let u = Transformer::new(&script(&[(0, 0.0), (100, 50.0), (200, 0.0)]));
    t.transform(Command::ScaleLinear { scale: (1.0f64).to_bits() });
    let a = t.into_list();
    let b = u.into_list();
    assert_eq!(a.len(), b.len());
    for (x, y) in a.iter().zip(b.iter()) {
        assert_eq!(x.at, y.at);
        assert_eq!(x.pos, y.pos);
    }
}

#[test]
fn scale_linear_composes_exactly_on_powers_of_two() {
    let mut t = Transformer::new(&script(&[(0, 0.0), (100, 50.0), (200, 0.0)]));
    let mut u = Transformer::new(&script(&[(0, 0.0), (100, 50.0), (200, 0.0)]));
    t.transform(Command::ScaleLinear { scale: (0.5f64).to_bits() });
    t.transform(Command::ScaleLinear { scale: (4.0f64).to_bits() });
    u.transform(Command::ScaleLinear { scale: (2.0f64).to_bits() });
    let a = t.into_list();
    let b = u.into_list();
    assert_eq!(a.len(), b.len());
    for (x, y) in a.iter().zip(b.iter()) {
        assert_eq!(x.at, y.at);
        assert_eq!(x.pos, y.pos);
    }
}

#[test]
fn scale_sqrt_takes_square_roots() {
    // dt = 1, so the derived values are the position differences: [4, 9].
    let mut t = Transformer::new(&script(&[(0, 0.0), (1, 4.0), (2, 13.0)]));
    t.transform(Command::ScaleSqrt);
    let out = t.into_list();
    assert_eq!(positions(&out), vec![(0, 2.0), (1, 3.0)]);
}

#[test]
fn scale_sqrt_of_negative_is_nan() {
    let mut t = Transformer::new(&script(&[(0, 0.0), (1, 4.0)]));
    t.transform(Command::ScaleLinear { scale: (-1.0f64).to_bits() });
    t.transform(Command::ScaleSqrt);
    let out = t.into_list();
    assert_eq!(out.len(), 1);
    assert!(f64::from_bits(out[0].pos).is_nan());
}

#[test]
fn shorten_zero_retains_all_entries() {
    let mut t = Transformer::new(&script(&[(0, 0.0), (100, 50.0), (200, 0.0)]));
    t.transform(Command::Shorten { diff: (0.0f64).to_bits() });
    let out = t.into_list();
    assert_eq!(out.len(), 2);
}

#[test]
fn shorten_huge_threshold_drops_everything() {
    // The reference starts at 0 and advances on every entry, so with a
    // threshold far above every difference nothing is retained, not even
    // the first entry.
    let mut t = Transformer::new(&script(&[(0, 0.0), (100, 50.0), (200, 0.0)]));
    t.transform(Command::Shorten { diff: (1.0e18f64).to_bits() });
    let out = t.into_list();
    assert_eq!(out.len(), 0);
}

#[test]
fn shorten_compares_against_previous_processed_value() {
    // Derived values [10, 12, 20, 21] (dt = 1 throughout). With diff 5 the
    // comparisons are |0-10|, |10-12|, |12-20|, |20-21|: entries with
    // values 10 and 20 stay.
    let mut t = Transformer::new(&script(&[(0, 0.0), (1, 10.0), (2, 22.0), (3, 42.0), (4, 63.0)]));
    t.transform(Command::Shorten { diff: (5.0f64).to_bits() });
    let out = t.into_list();
    assert_eq!(positions(&out), vec![(0, 10.0), (2, 20.0)]);
}

#[test]
fn shorten_advances_reference_on_dropped_entries() {
    // Derived values [10, 12, 14, 16]. Advancing the reference on every
    // entry keeps only the first one; comparing against the last retained
    // value would also keep the 16.
    let mut t = Transformer::new(&script(&[(0, 0.0), (1, 10.0), (2, 22.0), (3, 36.0), (4, 52.0)]));
    t.transform(Command::Shorten { diff: (5.0f64).to_bits() });
    let out = t.into_list();
    assert_eq!(positions(&out), vec![(0, 10.0)]);
}

#[test]
fn materializer_rounds_half_away_from_zero() {
    // Derived values [0.5, 2.5] (dt = 1): round half away from zero gives
    // [1, 3], not the [0, 2] of round-half-to-even.
    let t = Transformer::new(&script(&[(0, 0.0), (1, 0.5), (2, 3.0)]));
    let out = t.into_list();
    assert_eq!(positions(&out), vec![(0, 1.0), (1, 3.0)]);
}

#[test]
fn materializer_rounds_negative_half_away_from_zero() {
    let mut t = Transformer::new(&script(&[(0, 0.0), (1, 0.5)]));
    t.transform(Command::ScaleLinear { scale: (-1.0f64).to_bits() });
    let out = t.into_list();
    assert_eq!(positions(&out), vec![(0, -1.0)]);
}

#[test]
fn normalize_with_nan_value_does_not_abort_the_reduction() {
    // A NaN value never compares greater, so it wins the max reduction; the
    // rewrite then propagates NaN instead of aborting.
    let mut t = Transformer::new(&script(&[(0, 0.0), (1, 4.0), (2, 13.0)]));
    t.transform(Command::ScaleLinear { scale: (-1.0f64).to_bits() });
    t.transform(Command::ScaleSqrt);
    t.transform(Command::Normalize);
    let out = t.into_list();
    assert_eq!(out.len(), 2);
    for a in &out {
        assert!(f64::from_bits(a.pos).is_nan());
    }
}

#[test]
fn shorten_negative_threshold_retains_everything() {
    let mut t = Transformer::new(&script(&[(0, 0.0), (100, 50.0), (200, 50.0)]));
    t.transform(Command::Shorten { diff: (-1.0f64).to_bits() });
    let out = t.into_list();
    assert_eq!(out.len(), 2);
}

#[test]
fn operations_keep_the_type_tags() {
    let mut s = script(&[(0, 0.0), (100, 50.0), (200, 0.0)]);
    s.actions[1].ty = Some(String::from("up"));
    s.actions[2].ty = Some(String::from("down"));
    let mut t = Transformer::new(&s);
    t.transform(Command::Normalize);
    t.transform(Command::ScaleLinear { scale: (2.0f64).to_bits() });
    let out = t.into_list();
    assert_eq!(out.len(), 2);
    assert_eq!(out[0].ty.as_deref(), Some("up"));
    assert_eq!(out[1].ty.as_deref(), Some("down"));
}

#[test]
fn extract_handles_negative_timestamps() {
    let t = Transformer::new(&script(&[(-100, 0.0), (0, 50.0)]));
    let out = t.into_list();
    // |50 - 0/(0 - (-100))| = 50 under key -100
    assert_eq!(positions(&out), vec![(-100, 50.0)]);
}

#[test]
fn end_to_end_normalize_then_double() {
    // Extractor emits entries under keys 0 and 100 with values [50, 0.5];
    // normalize maps them to [100, 1]; scale-linear 2 doubles them without
    // re-clamping.
    let mut t = Transformer::new(&script(&[(0, 0.0), (100, 50.0), (200, 0.0)]));
    t.transform(Command::Normalize);
    t.transform(Command::ScaleLinear { scale: (2.0f64).to_bits() });
    let out = t.into_list();
    assert_eq!(positions(&out), vec![(0, 200.0), (100, 2.0)]);
}

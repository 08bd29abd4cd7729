use command_matcher::scan::{classify, Probe, Verdict};

#[test]
fn first_exact_probe_is_the_hit() {
    let probes = vec![Probe::Apart(2), Probe::Exact, Probe::Exact];
    assert_eq!(classify(&probes, 5), Verdict::Hit(1));
}

#[test]
fn exact_probe_beats_a_distance_of_zero() {
    let probes = vec![Probe::Apart(0), Probe::Exact];
    assert_eq!(classify(&probes, 0), Verdict::Hit(1));
    let probes = vec![Probe::Exact, Probe::Apart(0)];
    assert_eq!(classify(&probes, 0), Verdict::Hit(0));
}

#[test]
fn closest_probe_is_the_near_miss() {
    let probes = vec![Probe::Apart(5), Probe::Apart(2), Probe::Apart(3)];
    assert_eq!(classify(&probes, 3), Verdict::Near(1, 2));
    assert_eq!(classify(&probes, 2), Verdict::Near(1, 2));
}

#[test]
fn closest_probe_beyond_the_bound_is_a_miss() {
    let probes = vec![Probe::Apart(5), Probe::Apart(2), Probe::Apart(3)];
    assert_eq!(classify(&probes, 1), Verdict::Miss);
    assert_eq!(classify(&probes, 0), Verdict::Miss);
}

#[test]
fn earlier_of_equally_close_probes_is_kept() {
    let probes = vec![Probe::Apart(4), Probe::Apart(4)];
    assert_eq!(classify(&probes, 4), Verdict::Near(0, 4));
    let probes = vec![Probe::Apart(7), Probe::Apart(3), Probe::Apart(3), Probe::Apart(3)];
    assert_eq!(classify(&probes, 10), Verdict::Near(1, 3));
}

#[test]
fn later_probe_wins_only_when_strictly_closer() {
    let probes = vec![Probe::Apart(4), Probe::Apart(3)];
    assert_eq!(classify(&probes, 4), Verdict::Near(1, 3));
    let probes = vec![Probe::Apart(3), Probe::Apart(4)];
    assert_eq!(classify(&probes, 4), Verdict::Near(0, 3));
}

#[test]
fn single_probe_seeds_the_best() {
    assert_eq!(classify(&vec![Probe::Apart(3)], 3), Verdict::Near(0, 3));
    assert_eq!(classify(&vec![Probe::Apart(4)], 3), Verdict::Miss);
    assert_eq!(classify(&vec![Probe::Exact], 0), Verdict::Hit(0));
}

#[test]
fn unscored_probes_never_make_a_near_miss() {
    let probes = vec![Probe::Unscored, Probe::Unscored];
    assert_eq!(classify(&probes, usize::MAX), Verdict::Miss);
    let probes = vec![Probe::Unscored, Probe::Exact];
    assert_eq!(classify(&probes, 0), Verdict::Hit(1));
    let probes = vec![Probe::Unscored, Probe::Apart(9), Probe::Unscored];
    assert_eq!(classify(&probes, 9), Verdict::Near(1, 9));
}

#[test]
fn largest_distance_is_within_the_largest_bound() {
    let probes = vec![Probe::Apart(usize::MAX)];
    assert_eq!(classify(&probes, usize::MAX), Verdict::Near(0, usize::MAX));
    assert_eq!(classify(&probes, usize::MAX - 1), Verdict::Miss);
}

#[test]
fn classification_is_repeatable() {
    let probes = vec![Probe::Apart(2), Probe::Apart(2), Probe::Apart(1), Probe::Apart(1)];
    let first = classify(&probes, 2);
    assert_eq!(first, Verdict::Near(2, 1));
    assert_eq!(classify(&probes, 2), first);
    assert_eq!(classify(&probes, 2), first);
}

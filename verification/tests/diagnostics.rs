use neutron_sim::diagnostics::bins::BinData;
use neutron_sim::diagnostics::convergence::{
    checked_convergence_between, checked_total_neutron_count, convergence_between, total_neutron_count,
    ConvergenceRatio,
};
use neutron_sim::diagnostics::diagnostics_tracking::NeutronDiagnostics;
use neutron_sim::diagnostics::geometry_diagnostics::GeometryDiagnostics;
use neutron_sim::diagnostics::halt_causes::SimulationHaltCauses;

type Position = (f64, f64, f64);

fn bin(neutron_count: i64, fission_count: i64) -> BinData {
    BinData { neutron_count, fission_count }
}

fn grid(length_count: usize, depth_count: usize, height_count: usize) -> GeometryDiagnostics {
    GeometryDiagnostics { length_count, depth_count, height_count }
}

fn diagnostics(track: bool, from: i64) -> NeutronDiagnostics<Position, f64> {
    NeutronDiagnostics::new(true, track, track, track, from, grid(1, 0, 2), 1000)
}

fn ratio(numerator: u128, denominator: u128) -> ConvergenceRatio {
    ConvergenceRatio { numerator_hi: 0, numerator_lo: numerator, denominator }
}

fn as_f64(r: ConvergenceRatio) -> f64 {
    (r.numerator_hi as f64 * 2f64.powi(128) + r.numerator_lo as f64) / r.denominator as f64
}

#[test]
fn bin_add_sums_each_counter() {
    let mut a = bin(3, 1);
    a.add(&bin(4, 2));
    assert_eq!(a, bin(7, 3));
}

#[test]
fn bin_add_is_order_independent() {
    let mut a = bin(5, -2);
    let mut b = bin(-7, 9);
    let a0 = a;
    a.add(&b);
    b.add(&a0);
    assert_eq!(a, b);
}

#[test]
fn bin_add_default_is_identity() {
    let mut a = bin(11, 12);
    a.add(&BinData::default());
    assert_eq!(a, bin(11, 12));
    assert_eq!(BinData::default(), bin(0, 0));
}

#[test]
fn new_sizes_bins_from_grid() {
    let d = diagnostics(true, 0);
    assert_eq!(d.neutron_position_bins.len(), 2 * 1 * 3);
    assert_eq!(d.neutron_position_bins_previous.len(), 6);
    assert!(d.neutron_position_bins.iter().all(|b| *b == bin(0, 0)));
    assert!(d.neutron_position_bins_previous.iter().all(|b| *b == bin(0, 0)));
    assert_eq!(d.halt_cause, SimulationHaltCauses::Unknown);
    assert_eq!(d.initial_neutron_count, 1000);
    assert!(d.estimate_k);
    assert_eq!(d.total_neutrons_tracked, 0);
    assert!(d.convergence_tracking.is_empty());
    assert_eq!(d.get_total_fissions(), 0);
}

#[test]
fn new_with_empty_grid_has_one_bin() {
    let d: NeutronDiagnostics<Position, f64> =
        NeutronDiagnostics::new(false, true, false, false, 0, grid(0, 0, 0), 1);
    assert_eq!(d.neutron_position_bins.len(), 1);
}

#[test]
fn fission_locations_are_counted() {
    let mut d = diagnostics(true, 2);
    d.track_neutron_location_fission(2, (1.0, 2.0, 3.0));
    d.track_neutron_location_fission(5, (0.0, 0.0, 0.0));
    assert_eq!(d.get_total_fissions(), 2);
    assert_eq!(d.neutron_fission_locations[0], (1.0, 2.0, 3.0));
}

#[test]
fn early_generations_are_not_recorded() {
    let mut d = diagnostics(true, 3);
    d.track_neutron_location_fission(2, (1.0, 2.0, 3.0));
    d.track_neutron_bin_presence(2, Some(1));
    d.track_neutron_bin_fission(2, Some(1));
    d.track_neutron_travel_distance(2, 4.5);
    assert_eq!(d.get_total_fissions(), 0);
    assert_eq!(d.neutron_position_bins[1], bin(0, 0));
    assert!(d.neutron_travel_distance.is_empty());
}

#[test]
fn nothing_is_recorded_when_tracking_is_off() {
    let mut d = diagnostics(false, 0);
    d.track_neutron_location_fission(4, (1.0, 2.0, 3.0));
    d.track_neutron_bin_presence(4, Some(0));
    d.track_neutron_bin_fission(4, Some(0));
    d.track_neutron_travel_distance(4, 1.5);
    assert_eq!(d.get_total_fissions(), 0);
    assert_eq!(d.neutron_position_bins[0], bin(0, 0));
    assert!(d.neutron_travel_distance.is_empty());
}

#[test]
fn bin_counting_hits_only_the_given_bin() {
    let mut d = diagnostics(true, 0);
    d.track_neutron_bin_presence(1, Some(4));
    d.track_neutron_bin_presence(1, Some(4));
    d.track_neutron_bin_fission(1, Some(4));
    d.track_neutron_bin_presence(1, None);
    d.track_neutron_bin_fission(1, None);
    assert_eq!(d.neutron_position_bins[4], bin(2, 1));
    let others: i64 = d
        .neutron_position_bins
        .iter()
        .enumerate()
        .filter(|(i, _)| *i != 4)
        .map(|(_, b)| b.neutron_count + b.fission_count)
        .sum();
    assert_eq!(others, 0);
    assert!(d.neutron_position_bins_previous.iter().all(|b| *b == bin(0, 0)));
}

#[test]
fn travel_distances_are_recorded_in_order() {
    let mut d = diagnostics(true, 0);
    d.track_neutron_travel_distance(0, 1.25);
    d.track_neutron_travel_distance(3, 2.5);
    assert_eq!(d.neutron_travel_distance, vec![1.25, 2.5]);
}

#[test]
fn total_neutron_count_sums_bins() {
    assert_eq!(total_neutron_count(&vec![bin(3, 9), bin(-1, 0), bin(5, 2)]), 7);
    assert_eq!(total_neutron_count(&vec![]), 0);
}

#[test]
fn convergence_is_exact_fraction() {
    let r = convergence_between(&vec![bin(1, 0), bin(3, 0)], &vec![bin(2, 0), bin(2, 0)]);
    assert_eq!(r, ratio(8, 16));
    assert_eq!(as_f64(r), 0.5);
}

#[test]
fn convergence_of_empty_generations_uses_clamped_totals() {
    let r = convergence_between(&vec![bin(0, 0), bin(0, 0)], &vec![bin(0, 0), bin(0, 0)]);
    assert_eq!(r, ratio(0, 1));
    let r = convergence_between(&vec![bin(2, 0), bin(0, 0)], &vec![bin(0, 0), bin(0, 0)]);
    assert_eq!(r, ratio(2, 2));
}

#[test]
fn convergence_covers_only_shared_bins() {
    let r = convergence_between(&vec![bin(1, 0), bin(1, 0), bin(2, 0)], &vec![bin(4, 0)]);
    assert_eq!(r, ratio(12, 16));
}

#[test]
fn convergence_of_unchanged_distribution_is_zero() {
    let bins = vec![bin(5, 1), bin(0, 0), bin(7, 3)];
    assert_eq!(convergence_between(&bins, &bins), ratio(0, 144));
}

#[test]
fn convergence_is_at_most_two() {
    let r = convergence_between(&vec![bin(9, 0), bin(0, 0)], &vec![bin(0, 0), bin(4, 0)]);
    assert_eq!(r, ratio(72, 36));
    assert!(r.numerator_hi == 0 && r.numerator_lo <= 2 * r.denominator);
}

#[test]
fn convergence_does_not_depend_on_population() {
    let prev = vec![bin(2, 0), bin(5, 0), bin(1, 0)];
    let a = convergence_between(&vec![bin(1, 0), bin(3, 0), bin(2, 0)], &prev);
    let b = convergence_between(&vec![bin(7, 0), bin(21, 0), bin(14, 0)], &prev);
    assert_eq!((a.numerator_hi, b.numerator_hi), (0, 0));
    assert_eq!(a.numerator_lo * b.denominator, b.numerator_lo * a.denominator);
    assert!((as_f64(a) - as_f64(b)).abs() < 1e-12);
}

#[test]
fn update_convergence_records_and_rotates() {
    let mut d = diagnostics(true, 0);
    d.track_neutron_bin_presence(0, Some(0));
    d.track_neutron_bin_presence(0, Some(1));
    d.update_convergence(0);
    assert_eq!(d.convergence_tracking.len(), 1);
    assert_eq!(d.convergence_tracking[0].0, 0);
    assert_eq!(d.convergence_tracking[0].1, ratio(2, 2));
    assert_eq!(d.neutron_position_bins_previous, d.neutron_position_bins);
    d.update_convergence(1);
    assert_eq!(d.convergence_tracking[1], (1, ratio(0, 4)));
}

#[test]
fn simulation_halt_records_history() {
    let mut d = diagnostics(true, 0);
    d.track_simulation_halt(7, vec![100, 120, 90, -10], SimulationHaltCauses::MaximumGenerationReached);
    assert_eq!(d.total_neutrons_tracked, 300);
    assert_eq!(d.neutron_generation_counts, vec![100, 120, 90, -10]);
    assert_eq!(d.max_generation_value, 7);
    assert_eq!(d.halt_cause, SimulationHaltCauses::MaximumGenerationReached);
    assert_eq!(SimulationHaltCauses::default(), SimulationHaltCauses::Unknown);
}

#[test]
fn checked_total_reports_overflow() {
    assert_eq!(checked_total_neutron_count(&vec![bin(2, 0), bin(5, 0)]), Some(7));
    assert_eq!(checked_total_neutron_count(&vec![bin(i64::MAX, 0), bin(1, 0)]), None);
    assert_eq!(checked_total_neutron_count(&vec![bin(i64::MAX, 0), bin(1, 0), bin(-1, 0)]), None);
}

#[test]
fn checked_convergence_refuses_only_overflowing_totals() {
    let cur = vec![bin(1, 0), bin(3, 0)];
    let prev = vec![bin(2, 0), bin(2, 0)];
    assert_eq!(checked_convergence_between(&cur, &prev), Some(convergence_between(&cur, &prev)));
    assert_eq!(checked_convergence_between(&vec![bin(i64::MAX, 0), bin(1, 0)], &prev), None);
    let huge = vec![bin(i64::MAX, 0), bin(i64::MIN, 0), bin(i64::MAX, 0), bin(i64::MIN, 0), bin(i64::MAX, 0)];
    let other = vec![bin(i64::MIN + 1, 0), bin(i64::MAX, 0), bin(i64::MIN + 1, 0), bin(i64::MAX, 0), bin(i64::MAX, 0)];
    assert_eq!(checked_total_neutron_count(&huge), Some(i64::MAX - 2));
    assert_eq!(checked_total_neutron_count(&other), Some(i64::MAX));
    let r = checked_convergence_between(&huge, &other).unwrap();
    assert_eq!(r, convergence_between(&huge, &other));
    assert_eq!(
        r,
        ConvergenceRatio {
            numerator_hi: 1,
            numerator_lo: 340282366920938463278907166694672695308,
            denominator: 85070591730234615828950163710522949635,
        }
    );
}

#[test]
fn try_update_convergence_leaves_diagnostics_on_refusal() {
    let mut d = diagnostics(true, 0);
    d.track_neutron_bin_presence(0, Some(2));
    assert!(d.try_update_convergence(3));
    assert_eq!(d.convergence_tracking, vec![(3, ratio(1, 1))]);
    d.neutron_position_bins[0] = bin(i64::MAX, 0);
    d.neutron_position_bins[1] = bin(1, 0);
    assert!(!d.try_update_convergence(4));
    assert_eq!(d.convergence_tracking.len(), 1);
    assert_eq!(d.neutron_position_bins_previous[2], bin(1, 0));
}

#[test]
fn update_convergence_accepts_large_mixed_counts() {
    let mut d: NeutronDiagnostics<Position, f64> =
        NeutronDiagnostics::new(false, true, false, false, 0, grid(4, 0, 0), 1);
    d.neutron_position_bins =
        vec![bin(i64::MAX, 0), bin(i64::MIN, 0), bin(i64::MAX, 0), bin(i64::MIN, 0), bin(i64::MAX, 0)];
    d.neutron_position_bins_previous =
        vec![bin(i64::MIN + 1, 0), bin(i64::MAX, 0), bin(i64::MIN + 1, 0), bin(i64::MAX, 0), bin(i64::MAX, 0)];
    let expected = convergence_between(&d.neutron_position_bins, &d.neutron_position_bins_previous);
    assert!(d.try_update_convergence(9));
    assert_eq!(d.convergence_tracking, vec![(9, expected)]);
    assert_eq!(expected.numerator_hi, 1);
    d.update_convergence(10);
    assert_eq!(d.convergence_tracking[1].1.numerator_hi, 0);
    assert_eq!(d.convergence_tracking[1].1.numerator_lo, 0);
}

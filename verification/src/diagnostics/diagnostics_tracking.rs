use vstd::prelude::*;

use crate::diagnostics::bins::{empty_bin, BinData};
use crate::diagnostics::convergence::{
    checked_convergence_between, convergence_between, convergence_ratio, counts_nonnegative,
    lemma_convergence_independent_of_population, lemma_convergence_numerator_is_sum,
    lemma_convergence_ratio_exact, lemma_neutron_total_is_sum, neutron_total, lemma_unchanged_distribution_has_zero_convergence,
    neutron_sum_fits, ConvergenceRatio,
};
use crate::diagnostics::geometry_diagnostics::GeometryDiagnostics;
use crate::diagnostics::halt_causes::SimulationHaltCauses;

verus! {

/// The diagnostics of one simulation run.
///
/// `P` is the type of a neutron position and `D` that of a travelled
/// distance; the diagnostics store such values as they are handed in and never
/// look inside them.
pub struct NeutronDiagnostics<P, D> {
    /// Number of neutrons of each generation, filled in when the run halts.
    pub neutron_generation_counts: Vec<i64>,
    /// Distances from birth to the current position of the tracked neutrons.
    pub neutron_travel_distance: Vec<D>,
    /// The grid of the spatial bins.
    pub bin_parameters: GeometryDiagnostics,
    /// Counters of each spatial bin for the current generation.
    pub neutron_position_bins: Vec<BinData>,
    pub estimate_k: bool,
    /// Whether neutrons and fissions are counted per bin.
    pub track_bins: bool,
    /// Whether travelled distances are recorded.
    pub track_mean_free_path: bool,
    /// The generation at which the run halted.
    pub max_generation_value: i64,
    pub halt_cause: SimulationHaltCauses,
    pub initial_neutron_count: i64,
    /// Sum of the neutron counts of all generations, set when the run halts.
    pub total_neutrons_tracked: i64,
    pub total_fissions: i64,
    /// The first generation from which events are recorded.
    pub track_from_generation: i64,
    /// Positions of the recorded fissions.
    pub neutron_fission_locations: Vec<P>,
    /// Whether fission positions are recorded.
    pub track_fission_positions: bool,
    /// Counters of each spatial bin for the generation before the current one.
    pub neutron_position_bins_previous: Vec<BinData>,
    pub previous_bin_generation: i64,
    /// The convergence measure of each generation for which it was taken.
    pub convergence_tracking: Vec<(i64, ConvergenceRatio)>,
}

/// The value of a `NeutronDiagnostics`, with each vector taken as a sequence.
#[verifier::ext_equal]
pub struct DiagnosticsView<P, D> {
    pub neutron_generation_counts: Seq<i64>,
    pub neutron_travel_distance: Seq<D>,
    pub bin_parameters: GeometryDiagnostics,
    pub neutron_position_bins: Seq<BinData>,
    pub estimate_k: bool,
    pub track_bins: bool,
    pub track_mean_free_path: bool,
    pub max_generation_value: i64,
    pub halt_cause: SimulationHaltCauses,
    pub initial_neutron_count: i64,
    pub total_neutrons_tracked: i64,
    pub total_fissions: i64,
    pub track_from_generation: i64,
    pub neutron_fission_locations: Seq<P>,
    pub track_fission_positions: bool,
    pub neutron_position_bins_previous: Seq<BinData>,
    pub previous_bin_generation: i64,
    pub convergence_tracking: Seq<(i64, ConvergenceRatio)>,
}

impl<P, D> View for NeutronDiagnostics<P, D> {
    type V = DiagnosticsView<P, D>;

    open spec fn view(&self) -> DiagnosticsView<P, D> {
        DiagnosticsView {
            neutron_generation_counts: self.neutron_generation_counts@,
            neutron_travel_distance: self.neutron_travel_distance@,
            bin_parameters: self.bin_parameters,
            neutron_position_bins: self.neutron_position_bins@,
            estimate_k: self.estimate_k,
            track_bins: self.track_bins,
            track_mean_free_path: self.track_mean_free_path,
            max_generation_value: self.max_generation_value,
            halt_cause: self.halt_cause,
            initial_neutron_count: self.initial_neutron_count,
            total_neutrons_tracked: self.total_neutrons_tracked,
            total_fissions: self.total_fissions,
            track_from_generation: self.track_from_generation,
            neutron_fission_locations: self.neutron_fission_locations@,
            track_fission_positions: self.track_fission_positions,
            neutron_position_bins_previous: self.neutron_position_bins_previous@,
            previous_bin_generation: self.previous_bin_generation,
            convergence_tracking: self.convergence_tracking@,
        }
    }
}

impl<P, D> DiagnosticsView<P, D> {
    /// Both bin vectors have one entry per bin of the grid.
    pub open spec fn well_formed(self) -> bool {
        &&& self.neutron_position_bins.len() == self.bin_parameters.bin_count()
        &&& self.neutron_position_bins_previous.len() == self.bin_parameters.bin_count()
    }

    /// Whether an event of generation `generation_number` falls in the range of
    /// generations that is recorded.
    pub open spec fn records_generation(self, generation_number: i64) -> bool {
        generation_number >= self.track_from_generation
    }

    /// The bins with one more neutron counted in bin `bin`.
    pub open spec fn bins_with_neutron(self, bin: int) -> Seq<BinData> {
        let b = self.neutron_position_bins[bin];
        self.neutron_position_bins.update(
            bin,
            BinData { neutron_count: (b.neutron_count + 1) as i64, ..b },
        )
    }

    /// The bins with one more fission counted in bin `bin`.
    pub open spec fn bins_with_fission(self, bin: int) -> Seq<BinData> {
        let b = self.neutron_position_bins[bin];
        self.neutron_position_bins.update(
            bin,
            BinData { fission_count: (b.fission_count + 1) as i64, ..b },
        )
    }
}

impl<P, D> DiagnosticsView<P, D> {
    /// The diagnostics after a fission at `position` in generation
    /// `generation_number` was handed in.
    pub open spec fn after_fission_location(self, generation_number: i64, position: P) -> Self {
        if self.track_fission_positions && self.records_generation(generation_number) {
            DiagnosticsView {
                neutron_fission_locations: self.neutron_fission_locations.push(position),
                ..self
            }
        } else {
            self
        }
    }

    /// The diagnostics after a neutron of generation `generation_number` in bin
    /// `current_bin` was handed in.
    pub open spec fn after_bin_presence(self, generation_number: i64, current_bin: Option<usize>) -> Self {
        match current_bin {
            Some(b) => if self.track_bins && self.records_generation(generation_number) {
                DiagnosticsView { neutron_position_bins: self.bins_with_neutron(b as int), ..self }
            } else {
                self
            },
            None => self,
        }
    }

    /// The diagnostics after a fission of generation `generation_number` in bin
    /// `current_bin` was handed in.
    pub open spec fn after_bin_fission(self, generation_number: i64, current_bin: Option<usize>) -> Self {
        match current_bin {
            Some(b) => if self.track_bins && self.records_generation(generation_number) {
                DiagnosticsView { neutron_position_bins: self.bins_with_fission(b as int), ..self }
            } else {
                self
            },
            None => self,
        }
    }

    /// The diagnostics after a travelled distance of generation
    /// `generation_number` was handed in.
    pub open spec fn after_travel_distance(self, generation_number: i64, distance: D) -> Self {
        if self.track_mean_free_path && self.records_generation(generation_number) {
            DiagnosticsView {
                neutron_travel_distance: self.neutron_travel_distance.push(distance),
                ..self
            }
        } else {
            self
        }
    }

    /// The diagnostics after the convergence of generation `current_generation`
    /// was taken: the measure between the current and the previous bins is
    /// appended, and the current bins become the previous ones.
    pub open spec fn after_convergence_update(self, current_generation: i64) -> Self {
        let measure = convergence_ratio(self.neutron_position_bins, self.neutron_position_bins_previous);
        DiagnosticsView {
            convergence_tracking: self.convergence_tracking.push((current_generation, measure)),
            neutron_position_bins_previous: self.neutron_position_bins,
            ..self
        }
    }

    /// The diagnostics after the run halted at `neutron_generation` for
    /// `halt_cause`, with the neutron count of each generation in `history`.
    pub open spec fn after_halt(
        self,
        neutron_generation: i64,
        history: Seq<i64>,
        halt_cause: SimulationHaltCauses,
    ) -> Self {
        DiagnosticsView {
            neutron_generation_counts: history,
            total_neutrons_tracked: history_total(history) as i64,
            halt_cause,
            max_generation_value: neutron_generation,
            ..self
        }
    }
}

/// Sum of the first `n` entries of `s`.
pub open spec fn history_prefix(s: Seq<i64>, n: int) -> int
    decreases n,
{
    if n <= 0 {
        0
    } else {
        history_prefix(s, n - 1) + s[n - 1]
    }
}

/// Sum of all entries of `s`.
pub open spec fn history_total(s: Seq<i64>) -> int {
    history_prefix(s, s.len() as int)
}

/// Every running total met while summing `s` in order fits in an `i64`.
pub open spec fn history_sum_fits(s: Seq<i64>) -> bool {
    forall|k: int| 0 <= k <= s.len() ==> i64::MIN <= #[trigger] history_prefix(s, k) <= i64::MAX
}

fn history_sum(s: &Vec<i64>) -> (total: i64)
    requires
        history_sum_fits(s@),
    ensures
        total == history_total(s@),
{
    let mut total: i64 = 0;
    let mut i: usize = 0;
    while i < s.len()
        invariant
            i <= s.len(),
            history_sum_fits(s@),
            total == history_prefix(s@, i as int),
        decreases s.len() - i,
    {
        assert(i64::MIN <= history_prefix(s@, i + 1) <= i64::MAX);
        total = total + s[i];
        i = i + 1;
    }
    total
}

impl<P, D> NeutronDiagnostics<P, D> {
    /// Fresh diagnostics: every bin of the grid at zero, in both the current
    /// and the previous generation, nothing recorded, all counters at zero and
    /// no halt cause.
    pub fn new(
        estimate_k: bool,
        track_bins: bool,
        track_mean_free_path: bool,
        track_fission_positions: bool,
        track_from_generation: i64,
        bin_parameters: GeometryDiagnostics,
        initial_neutron_count: i64,
    ) -> (d: NeutronDiagnostics<P, D>)
        requires
            bin_parameters.bin_count() <= usize::MAX,
        ensures
            d@.well_formed(),
            d@.neutron_position_bins.len() == bin_parameters.bin_count(),
            d@.neutron_position_bins.len() == (bin_parameters.length_count + 1) * (
            bin_parameters.depth_count + 1) * (bin_parameters.height_count + 1),
            forall|i: int|
                0 <= i < d@.neutron_position_bins.len() ==> #[trigger] d@.neutron_position_bins[i]
                    == empty_bin(),
            forall|i: int|
                0 <= i < d@.neutron_position_bins.len() ==> #[trigger] d@.neutron_position_bins[i].neutron_count
                    == 0 && d@.neutron_position_bins[i].fission_count == 0,
            d@.neutron_position_bins_previous == d@.neutron_position_bins,
            d@.neutron_generation_counts == Seq::<i64>::empty(),
            d@.neutron_travel_distance == Seq::<D>::empty(),
            d@.neutron_fission_locations == Seq::<P>::empty(),
            d@.convergence_tracking == Seq::<(i64, ConvergenceRatio)>::empty(),
            d@.bin_parameters == bin_parameters,
            d@.estimate_k == estimate_k,
            d@.track_bins == track_bins,
            d@.track_mean_free_path == track_mean_free_path,
            d@.track_fission_positions == track_fission_positions,
            d@.track_from_generation == track_from_generation,
            d@.initial_neutron_count == initial_neutron_count,
            d@.max_generation_value == 0,
            d@.halt_cause == SimulationHaltCauses::Unknown,
            d@.total_neutrons_tracked == 0,
            d@.total_fissions == 0,
            d@.previous_bin_generation == 0,
    {
        let bin_data = BinData::default();
        let bin_count = bin_parameters.total_bins();
        let neutron_position_bins = vec![bin_data; bin_count];
        let neutron_position_bins_previous = neutron_position_bins.clone();
        assert(neutron_position_bins_previous@ =~= neutron_position_bins@);
        NeutronDiagnostics {
            neutron_generation_counts: Vec::new(),
            neutron_travel_distance: Vec::new(),
            bin_parameters,
            neutron_position_bins,
            estimate_k,
            track_bins,
            track_mean_free_path,
            max_generation_value: 0,
            halt_cause: SimulationHaltCauses::default(),
            initial_neutron_count,
            total_neutrons_tracked: 0,
            total_fissions: 0,
            track_from_generation,
            neutron_fission_locations: Vec::new(),
            track_fission_positions,
            neutron_position_bins_previous,
            previous_bin_generation: 0,
            convergence_tracking: Vec::new(),
        }
    }

    /// Number of recorded fission positions.
    pub fn get_total_fissions(&self) -> (n: i64)
        ensures
            n == self@.neutron_fission_locations.len() as i64,
    {
        self.neutron_fission_locations.len() as i64
    }

    /// Records the position of a fission, if fission positions are tracked and
    /// the generation is recorded.
    pub fn track_neutron_location_fission(&mut self, generation_number: i64, neutron_position: P)
        ensures
            final(self)@ == old(self)@.after_fission_location(generation_number, neutron_position),
            old(self)@.well_formed() ==> final(self)@.well_formed(),
    {
        if self.track_fission_positions && generation_number >= self.track_from_generation {
            self.neutron_fission_locations.push(neutron_position);
        }
    }

    /// Counts a neutron in bin `current_bin`, the bin that holds its position
    /// (`None` where no bin does), if bins are tracked and the generation is
    /// recorded.
    pub fn track_neutron_bin_presence(&mut self, generation_number: i64, current_bin: Option<usize>)
        requires
            old(self).track_bins && old(self)@.records_generation(generation_number)
                ==> match current_bin {
                Some(b) => b < old(self)@.neutron_position_bins.len()
                    && old(self)@.neutron_position_bins[b as int].neutron_count < i64::MAX,
                None => true,
            },
        ensures
            final(self)@ == old(self)@.after_bin_presence(generation_number, current_bin),
            old(self)@.well_formed() ==> final(self)@.well_formed(),
    {
        if self.track_bins && generation_number >= self.track_from_generation {
            if let Some(bin) = current_bin {
                let b = self.neutron_position_bins[bin];
                self.neutron_position_bins.set(
                    bin,
                    BinData { neutron_count: b.neutron_count + 1, ..b },
                );
            }
        }
    }

    /// Counts a fission in bin `current_bin`, the bin that holds its position
    /// (`None` where no bin does), if bins are tracked and the generation is
    /// recorded.
    pub fn track_neutron_bin_fission(&mut self, generation_number: i64, current_bin: Option<usize>)
        requires
            old(self).track_bins && old(self)@.records_generation(generation_number)
                ==> match current_bin {
                Some(b) => b < old(self)@.neutron_position_bins.len()
                    && old(self)@.neutron_position_bins[b as int].fission_count < i64::MAX,
                None => true,
            },
        ensures
            final(self)@ == old(self)@.after_bin_fission(generation_number, current_bin),
            old(self)@.well_formed() ==> final(self)@.well_formed(),
    {
        if self.track_bins && generation_number >= self.track_from_generation {
            if let Some(bin) = current_bin {
                let b = self.neutron_position_bins[bin];
                self.neutron_position_bins.set(
                    bin,
                    BinData { fission_count: b.fission_count + 1, ..b },
                );
            }
        }
    }

    /// Records the distance a neutron travelled from where it was born, if the
    /// mean free path is tracked and the generation is recorded.
    pub fn track_neutron_travel_distance(&mut self, generation_number: i64, distance: D)
        ensures
            final(self)@ == old(self)@.after_travel_distance(generation_number, distance),
            old(self)@.well_formed() ==> final(self)@.well_formed(),
    {
        if self.track_mean_free_path && generation_number >= self.track_from_generation {
            self.neutron_travel_distance.push(distance);
        }
    }

    /// Records the convergence measure of generation `current_generation`,
    /// taken between the current bins and those of the generation before, and
    /// then makes the current bins the previous ones.
    pub fn update_convergence(&mut self, current_generation: i64)
        requires
            neutron_sum_fits(old(self)@.neutron_position_bins),
            neutron_sum_fits(old(self)@.neutron_position_bins_previous),
        ensures
            final(self)@ == old(self)@.after_convergence_update(current_generation),
            old(self)@.well_formed() ==> final(self)@.well_formed(),
    {
        let convergence = convergence_between(
            &self.neutron_position_bins,
            &self.neutron_position_bins_previous,
        );
        self.convergence_tracking.push((current_generation, convergence));
        let previous = self.neutron_position_bins.clone();
        assert(previous@ =~= self.neutron_position_bins@);
        self.neutron_position_bins_previous = previous;
    }

    /// `update_convergence` where every running neutron total of both bin
    /// vectors fits in an `i64`; returns whether it did, and leaves the
    /// diagnostics unchanged where it did not.
    pub fn try_update_convergence(&mut self, current_generation: i64) -> (updated: bool)
        ensures
            updated <==> neutron_sum_fits(old(self)@.neutron_position_bins) && neutron_sum_fits(
                old(self)@.neutron_position_bins_previous,
            ),
            final(self)@ == (if updated {
                old(self)@.after_convergence_update(current_generation)
            } else {
                old(self)@
            }),
            old(self)@.well_formed() ==> final(self)@.well_formed(),
    {
        match checked_convergence_between(
            &self.neutron_position_bins,
            &self.neutron_position_bins_previous,
        ) {
            Some(convergence) => {
                self.convergence_tracking.push((current_generation, convergence));
                let previous = self.neutron_position_bins.clone();
                assert(previous@ =~= self.neutron_position_bins@);
                self.neutron_position_bins_previous = previous;
                true
            },
            None => false,
        }
    }

    /// Records why and at which generation the run halted, together with the
    /// neutron count of each generation and their total.
    pub fn track_simulation_halt(
        &mut self,
        neutron_generation: i64,
        neutron_generation_history: Vec<i64>,
        halt_cause: SimulationHaltCauses,
    )
        requires
            history_sum_fits(neutron_generation_history@),
        ensures
            final(self)@ == old(self)@.after_halt(
                neutron_generation,
                neutron_generation_history@,
                halt_cause,
            ),
            final(self)@.total_neutrons_tracked == history_total(neutron_generation_history@),
            old(self)@.well_formed() ==> final(self)@.well_formed(),
    {
        let total = history_sum(&neutron_generation_history);
        self.neutron_generation_counts = neutron_generation_history;
        self.total_neutrons_tracked = total;
        self.halt_cause = halt_cause;
        self.max_generation_value = neutron_generation;
    }
}

/// Events of a generation before `track_from_generation` are not recorded:
/// handing in a fission position, a neutron or fission in a bin, or a
/// travelled distance of such a generation leaves the diagnostics unchanged.
pub proof fn lemma_early_generations_not_recorded<P, D>(
    v: DiagnosticsView<P, D>,
    generation_number: i64,
    position: P,
    current_bin: Option<usize>,
    distance: D,
)
    requires
        generation_number < v.track_from_generation,
    ensures
        v.after_fission_location(generation_number, position) == v,
        v.after_bin_presence(generation_number, current_bin) == v,
        v.after_bin_fission(generation_number, current_bin) == v,
        v.after_travel_distance(generation_number, distance) == v,
{
}

/// Each fission position that is recorded raises the count that
/// `get_total_fissions` reports by one; one that is not recorded leaves it.
pub proof fn lemma_fission_count_grows_by_recorded<P, D>(
    v: DiagnosticsView<P, D>,
    generation_number: i64,
    position: P,
)
    ensures
        v.after_fission_location(generation_number, position).neutron_fission_locations.len() == v.neutron_fission_locations.len() + (if v.track_fission_positions && v.records_generation(generation_number) { 1int } else { 0int }),
{
}

/// Taking the convergence twice with nothing counted in between records a
/// zero measure the second time: the first update made the current bins the
/// previous ones.
pub proof fn lemma_second_update_without_counts_is_zero<P, D>(
    v: DiagnosticsView<P, D>,
    first_generation: i64,
    second_generation: i64,
)
    ensures
        ({
            let w = v.after_convergence_update(first_generation).after_convergence_update(
                second_generation,
            );
            &&& w.convergence_tracking.len() == v.convergence_tracking.len() + 2
            &&& w.convergence_tracking.last().0 == second_generation
            &&& w.convergence_tracking.last().1.numerator() == 0
        }),
{
    lemma_unchanged_distribution_has_zero_convergence(v.neutron_position_bins);
}

/// The measure that `update_convergence` records does not depend on how many
/// neutrons the current generation holds: where one state's current bins hold
/// `k` times the counts of another's, with the same previous bins, the two
/// recorded measures are equal as fractions. (Left out, as in
/// `lemma_convergence_independent_of_population`: current bins with negative
/// counts and a total below 1.)
pub proof fn lemma_update_independent_of_population<P, D>(
    s1: DiagnosticsView<P, D>,
    s2: DiagnosticsView<P, D>,
    k: int,
    current_generation: i64,
)
    requires
        s2.neutron_position_bins.len() == s1.neutron_position_bins.len(),
        s1.neutron_position_bins.len() <= usize::MAX,
        s2.neutron_position_bins_previous == s1.neutron_position_bins_previous,
        1 <= k,
        neutron_total(s1.neutron_position_bins) >= 1 || counts_nonnegative(s1.neutron_position_bins),
        forall|i: int|
            0 <= i < s1.neutron_position_bins.len() ==> #[trigger] s2.neutron_position_bins[i].neutron_count
                == k * s1.neutron_position_bins[i].neutron_count,
        neutron_sum_fits(s1.neutron_position_bins),
        neutron_sum_fits(s2.neutron_position_bins),
        neutron_sum_fits(s1.neutron_position_bins_previous),
    ensures
        ({
            let r1 = s1.after_convergence_update(current_generation).convergence_tracking.last().1;
            let r2 = s2.after_convergence_update(current_generation).convergence_tracking.last().1;
            r2.numerator() * r1.denominator == r1.numerator() * r2.denominator
        }),
{
    let prev = s1.neutron_position_bins_previous;
    lemma_convergence_ratio_exact(s1.neutron_position_bins, prev);
    lemma_convergence_ratio_exact(s2.neutron_position_bins, prev);
    lemma_convergence_independent_of_population(
        s1.neutron_position_bins,
        s2.neutron_position_bins,
        prev,
        k,
    );
}

proof fn lemma_history_prefix_is_fold(s: Seq<i64>, n: int)
    requires
        0 <= n <= s.len(),
    ensures
        history_prefix(s, n) == s.take(n).fold_left(0int, |acc: int, x: i64| acc + x),
    decreases n,
{
    if n > 0 {
        lemma_history_prefix_is_fold(s, n - 1);
        assert(s.take(n).drop_last() =~= s.take(n - 1));
    }
}

/// The total of a neutron history is the sum of every one of its entries: 0
/// for an empty history, and one entry more adds that entry.
pub proof fn lemma_history_total_is_sum(s: Seq<i64>, x: i64)
    ensures
        history_total(s) == s.fold_left(0int, |acc: int, y: i64| acc + y),
        history_total(Seq::<i64>::empty()) == 0,
        history_total(s.push(x)) == history_total(s) + x,
{
    lemma_history_prefix_is_fold(s, s.len() as int);
    assert(s.take(s.len() as int) =~= s);
    let t = s.push(x);
    lemma_history_prefix_is_fold(t, t.len() as int);
    assert(t.take(t.len() as int) =~= t);
    assert(t.drop_last() =~= s);
}

/// A halt records the whole history and, as the neutrons tracked, the sum of
/// every generation's count; nothing else changes but the halt cause and
/// the last generation.
pub proof fn lemma_halt_records_sum_of_history<P, D>(
    v: DiagnosticsView<P, D>,
    neutron_generation: i64,
    history: Seq<i64>,
    halt_cause: SimulationHaltCauses,
)
    requires
        history_sum_fits(history),
    ensures
        ({
            let w = v.after_halt(neutron_generation, history, halt_cause);
            &&& w.total_neutrons_tracked == history.fold_left(0int, |acc: int, y: i64| acc + y)
            &&& w.neutron_generation_counts == history
            &&& w.halt_cause == halt_cause
            &&& w.max_generation_value == neutron_generation
            &&& w.neutron_position_bins == v.neutron_position_bins
            &&& w.convergence_tracking == v.convergence_tracking
        }),
{
    lemma_history_total_is_sum(history, 0);
    assert(history_prefix(history, history.len() as int) <= i64::MAX);
    assert(history_prefix(history, history.len() as int) >= i64::MIN);
}

/// A travelled distance is appended exactly when the mean free path is
/// tracked and the generation is at or after `track_from_generation`,
/// whatever the other switches are; nothing else changes.
pub proof fn lemma_travel_distance_recorded<P, D>(
    v: DiagnosticsView<P, D>,
    generation_number: i64,
    distance: D,
)
    ensures
        ({
            let w = v.after_travel_distance(generation_number, distance);
            &&& (v.track_mean_free_path && generation_number >= v.track_from_generation)
                ==> w.neutron_travel_distance == v.neutron_travel_distance.push(distance)
            &&& !(v.track_mean_free_path && generation_number >= v.track_from_generation)
                ==> w.neutron_travel_distance == v.neutron_travel_distance
            &&& w.neutron_fission_locations == v.neutron_fission_locations
            &&& w.neutron_position_bins == v.neutron_position_bins
            &&& w.convergence_tracking == v.convergence_tracking
        }),
{
}

/// A fission position is appended exactly when fission positions are tracked
/// and the generation is at or after `track_from_generation`, whatever the
/// other switches are; nothing else changes.
pub proof fn lemma_fission_location_recorded<P, D>(
    v: DiagnosticsView<P, D>,
    generation_number: i64,
    position: P,
)
    ensures
        ({
            let w = v.after_fission_location(generation_number, position);
            &&& (v.track_fission_positions && generation_number >= v.track_from_generation)
                ==> w.neutron_fission_locations == v.neutron_fission_locations.push(position)
            &&& !(v.track_fission_positions && generation_number >= v.track_from_generation)
                ==> w.neutron_fission_locations == v.neutron_fission_locations
            &&& w.neutron_travel_distance == v.neutron_travel_distance
            &&& w.neutron_position_bins == v.neutron_position_bins
        }),
{
}

/// A neutron handed in with bin `b`, when bins are tracked and the generation
/// is at or after `track_from_generation` (whatever the other switches are),
/// raises the neutron count of bin `b` by exactly one and changes no other
/// counter; otherwise no bin changes.
pub proof fn lemma_bin_presence_counts_one<P, D>(
    v: DiagnosticsView<P, D>,
    generation_number: i64,
    current_bin: Option<usize>,
)
    requires
        current_bin matches Some(b) ==> b < v.neutron_position_bins.len()
            && v.neutron_position_bins[b as int].neutron_count < i64::MAX,
    ensures
        ({
            let w = v.after_bin_presence(generation_number, current_bin);
            let counted = v.track_bins && generation_number >= v.track_from_generation;
            &&& w.neutron_position_bins.len() == v.neutron_position_bins.len()
            &&& w.neutron_position_bins_previous == v.neutron_position_bins_previous
            &&& (counted && current_bin is Some) ==> {
                let b = current_bin->0 as int;
                &&& w.neutron_position_bins[b].neutron_count == v.neutron_position_bins[b].neutron_count + 1
                &&& w.neutron_position_bins[b].fission_count == v.neutron_position_bins[b].fission_count
                &&& forall|j: int|
                    0 <= j < v.neutron_position_bins.len() && j != b
                        ==> #[trigger] w.neutron_position_bins[j] == v.neutron_position_bins[j]
            }
            &&& !(counted && current_bin is Some) ==> w.neutron_position_bins == v.neutron_position_bins
        }),
{
}

/// A fission handed in with bin `b`, when bins are tracked and the generation
/// is at or after `track_from_generation` (whatever the other switches are),
/// raises the fission count of bin `b` by exactly one and changes no other
/// counter; otherwise no bin changes.
pub proof fn lemma_bin_fission_counts_one<P, D>(
    v: DiagnosticsView<P, D>,
    generation_number: i64,
    current_bin: Option<usize>,
)
    requires
        current_bin matches Some(b) ==> b < v.neutron_position_bins.len()
            && v.neutron_position_bins[b as int].fission_count < i64::MAX,
    ensures
        ({
            let w = v.after_bin_fission(generation_number, current_bin);
            let counted = v.track_bins && generation_number >= v.track_from_generation;
            &&& w.neutron_position_bins.len() == v.neutron_position_bins.len()
            &&& w.neutron_position_bins_previous == v.neutron_position_bins_previous
            &&& (counted && current_bin is Some) ==> {
                let b = current_bin->0 as int;
                &&& w.neutron_position_bins[b].fission_count == v.neutron_position_bins[b].fission_count + 1
                &&& w.neutron_position_bins[b].neutron_count == v.neutron_position_bins[b].neutron_count
                &&& forall|j: int|
                    0 <= j < v.neutron_position_bins.len() && j != b
                        ==> #[trigger] w.neutron_position_bins[j] == v.neutron_position_bins[j]
            }
            &&& !(counted && current_bin is Some) ==> w.neutron_position_bins == v.neutron_position_bins
        }),
{
}

/// A history can be summed in `i64` exactly when every running total, the
/// sum of the first `k` entries for each `k`, lies in the range of `i64`.
pub proof fn lemma_history_sum_fits_is_running_totals(s: Seq<i64>)
    ensures
        history_sum_fits(s) <==> forall|k: int|
            #![trigger s.take(k)]
            0 <= k <= s.len() ==> i64::MIN <= s.take(k).fold_left(
                0int,
                |acc: int, x: i64| acc + x,
            ) <= i64::MAX,
{
    assert forall|k: int|
        #![trigger history_prefix(s, k)]
        #![trigger s.take(k)]
        0 <= k <= s.len() implies history_prefix(s, k) == s.take(k).fold_left(0int, |acc: int, x: i64| acc + x) by {
        lemma_history_prefix_is_fold(s, k);
    }
}

/// Taking the convergence appends one record, for generation
/// `current_generation`, whose fraction has as numerator the sum over the
/// shared bins of `|cur[i] * P - prev[i] * C|` and as denominator `C * P`,
/// where `C` and `P` are the neutron totals of the current and previous bins
/// raised to at least 1; the current bins then become the previous ones and
/// the current bins, and every earlier record, stay as they were.
pub proof fn lemma_update_records_measure_and_rotates<P, D>(
    v: DiagnosticsView<P, D>,
    current_generation: i64,
)
    requires
        neutron_sum_fits(v.neutron_position_bins),
        neutron_sum_fits(v.neutron_position_bins_previous),
        v.neutron_position_bins.len() <= usize::MAX,
    ensures
        ({
            let w = v.after_convergence_update(current_generation);
            let cur = v.neutron_position_bins;
            let prev = v.neutron_position_bins_previous;
            let tc = cur.fold_left(0int, |acc: int, b: BinData| acc + b.neutron_count);
            let tp = prev.fold_left(0int, |acc: int, b: BinData| acc + b.neutron_count);
            let c = if tc >= 1 { tc } else { 1 };
            let p = if tp >= 1 { tp } else { 1 };
            let m = if cur.len() <= prev.len() { cur.len() } else { prev.len() };
            let r = w.convergence_tracking.last().1;
            &&& w.convergence_tracking.len() == v.convergence_tracking.len() + 1
            &&& w.convergence_tracking.drop_last() == v.convergence_tracking
            &&& w.convergence_tracking.last().0 == current_generation
            &&& r.numerator() == Seq::new(
                m,
                |i: int|
                    if cur[i].neutron_count * p - prev[i].neutron_count * c < 0 {
                        prev[i].neutron_count * c - cur[i].neutron_count * p
                    } else {
                        cur[i].neutron_count * p - prev[i].neutron_count * c
                    },
            ).fold_left(0int, |acc: int, x: int| acc + x)
            &&& r.denominator == c * p
            &&& w.neutron_position_bins_previous == cur
            &&& w.neutron_position_bins == cur
        }),
{
    let cur = v.neutron_position_bins;
    let prev = v.neutron_position_bins_previous;
    lemma_neutron_total_is_sum(cur);
    lemma_neutron_total_is_sum(prev);
    lemma_convergence_numerator_is_sum(cur, prev);
    lemma_convergence_ratio_exact(cur, prev);
    let w = v.after_convergence_update(current_generation);
    assert(w.convergence_tracking.drop_last() =~= v.convergence_tracking);
}

} // verus!

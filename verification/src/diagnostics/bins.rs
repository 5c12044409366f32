use vstd::prelude::*;

verus! {

/// Counters of one spatial bin: how many neutrons were seen in it and how
/// many fissions happened in it.
#[derive(Clone, Copy, Debug, PartialEq, Eq, Structural)]
pub struct BinData {
    pub neutron_count: i64,
    pub fission_count: i64,
}

/// The bin holding the counts of both bins added field by field.
pub open spec fn bin_sum(a: BinData, b: BinData) -> BinData {
    BinData {
        neutron_count: (a.neutron_count + b.neutron_count) as i64,
        fission_count: (a.fission_count + b.fission_count) as i64,
    }
}

/// Whether both counters of `a` and `b` can be added without leaving `i64`.
pub open spec fn bin_sum_fits(a: BinData, b: BinData) -> bool {
    &&& i64::MIN <= a.neutron_count + b.neutron_count <= i64::MAX
    &&& i64::MIN <= a.fission_count + b.fission_count <= i64::MAX
}

/// The bin that has seen nothing yet.
pub open spec fn empty_bin() -> BinData {
    BinData { neutron_count: 0, fission_count: 0 }
}

impl Default for BinData {
    fn default() -> (b: BinData)
        ensures
            b == empty_bin(),
    {
        BinData { neutron_count: 0, fission_count: 0 }
    }
}

impl BinData {
    /// Adds the counters of `other` to those of `self`.
    pub fn add(&mut self, other: &BinData)
        requires
            bin_sum_fits(*old(self), *other),
        ensures
            *final(self) == bin_sum(*old(self), *other),
            final(self).neutron_count == old(self).neutron_count + other.neutron_count,
            final(self).fission_count == old(self).fission_count + other.fission_count,
    {
        self.neutron_count += other.neutron_count;
        self.fission_count += other.fission_count;
    }
}

/// Adding bins does not depend on the order: `a.add(&b)` leaves in `a` what
/// `b.add(&a)` leaves in `b`.
pub proof fn lemma_bin_sum_commutes(a: BinData, b: BinData)
    requires
        bin_sum_fits(a, b),
    ensures
        bin_sum(a, b) == bin_sum(b, a),
        bin_sum_fits(b, a),
{
}

/// Adding an empty bin leaves the counters unchanged.
pub proof fn lemma_bin_sum_empty_identity(a: BinData)
    ensures
        bin_sum_fits(a, empty_bin()),
        bin_sum(a, empty_bin()) == a,
{
}

} // verus!

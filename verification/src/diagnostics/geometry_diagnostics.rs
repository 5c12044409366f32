use vstd::prelude::*;

verus! {

/// The grid of spatial bins over which neutron positions are counted: the
/// number of divisions along the length, depth and height axes. Each axis has
/// one bin more than it has divisions.
#[derive(Clone, Copy, Debug, PartialEq, Eq, Structural)]
pub struct GeometryDiagnostics {
    pub length_count: usize,
    pub depth_count: usize,
    pub height_count: usize,
}

impl GeometryDiagnostics {
    /// Number of bins of the grid.
    pub open spec fn bin_count(self) -> int {
        (self.length_count + 1) * (self.depth_count + 1) * (self.height_count + 1)
    }

    /// Number of bins of the grid, computed as the simulation sizes its
    /// counters.
    pub(crate) fn total_bins(&self) -> (n: usize)
        requires
            self.bin_count() <= usize::MAX,
        ensures
            n == self.bin_count(),
    {
        let l = self.length_count as u128 + 1;
        let d = self.depth_count as u128 + 1;
        let h = self.height_count as u128 + 1;
        let ghost b = self.bin_count();
        assert(l * d <= b) by (nonlinear_arith)
            requires
                1 <= l,
                1 <= d,
                1 <= h,
                b == (l * d) * h,
        ;
        assert(l * d * h == b);
        let ld: u128 = l * d;
        let n: u128 = ld * h;
        n as usize
    }
}

} // verus!

//! Per-sample counters that merge across files.

use vstd::prelude::*;

verus! {

/// Counts what was unknown for one sample.
#[derive(Debug)]
pub struct SampleStats {
    pub n_unknown_alleles: u64,
}

impl SampleStats {
    /// Starts with nothing counted.
    pub fn new() -> (stats: SampleStats)
        ensures
            stats.n_unknown_alleles == 0,
    {
        let n_unknown_alleles = 0u64;
        SampleStats { n_unknown_alleles }
    }

    /// Adds another run's counts onto this one.
    pub fn merge(&mut self, o_stats: &SampleStats)
        requires
            old(self).n_unknown_alleles + o_stats.n_unknown_alleles <= u64::MAX,
        ensures
            final(self).n_unknown_alleles == old(self).n_unknown_alleles
                + o_stats.n_unknown_alleles,
    {
        self.n_unknown_alleles = self.n_unknown_alleles + o_stats.n_unknown_alleles;
    }
}

} // verus!

//! A bounded, lazy, non-restartable stream of randomized genomic windows.
//!
//! Each step advances a cursor by a uniformly random amount below
//! `step_size_max`; where it lands is the next window's start, and the
//! window covers exactly `region_size` positions. The stream is exhausted
//! once the cursor would pass the fixed coordinate ceiling.

use vstd::prelude::*;
use crate::region::Region;

verus! {

/// The fixed ceiling on genomic coordinates.
pub const MAX_POS: u64 = 1u64 << 32;

/// The configuration from which per-chromosome window streams are made.
#[derive(Debug)]
pub struct RegionIterGen {
    pub region_size: u64,
    pub step_size_max: u64,
}

/// The window stream for one chromosome: a cursor that only moves forward.
#[derive(Debug)]
pub struct RegionIter {
    pub chrom: String,
    pub cursor: u64,
    pub region_size: u64,
    pub step_size_max: u64,
}

/// Relies on rand::random_range over `0..bound`: a uniform draw below
/// `bound`, from the thread-local generator.
#[verifier::external_body]
fn random_below(bound: u64) -> (draw: u64)
    requires
        bound >= 1,
    ensures
        draw < bound,
{
    rand::random_range(0u64..bound)
}

impl RegionIterGen {
    /// Whether the configuration can drive a window stream: the random
    /// draw needs a nonempty range, and the cursor arithmetic must fit.
    pub open spec fn wf(self) -> bool {
        &&& self.step_size_max >= 1
        &&& self.region_size + self.step_size_max <= u64::MAX - MAX_POS
    }

    /// Creates a window-stream configuration.
    pub fn new(region_size: u64, step_size_max: u64) -> (gen: RegionIterGen)
        requires
            step_size_max >= 1,
            region_size + step_size_max <= u64::MAX - MAX_POS,
        ensures
            gen.region_size == region_size,
            gen.step_size_max == step_size_max,
            gen.wf(),
    {
        RegionIterGen { region_size, step_size_max }
    }

    /// Starts a fresh window stream over one chromosome.
    pub fn new_region_iter(&self, chrom: String) -> (iter: RegionIter)
        requires
            self.wf(),
        ensures
            iter.chrom == chrom,
            iter.cursor == 1,
            iter.region_size == self.region_size,
            iter.step_size_max == self.step_size_max,
            iter.wf(),
    {
        RegionIter::new(chrom, self.region_size, self.step_size_max)
    }
}

impl RegionIter {
    /// Whether the stream's state is consistent: draws possible, cursor
    /// arithmetic in bounds.
    pub open spec fn wf(self) -> bool {
        &&& self.step_size_max >= 1
        &&& self.region_size + self.step_size_max <= u64::MAX - MAX_POS
        &&& 1 <= self.cursor <= MAX_POS + self.region_size + self.step_size_max
    }

    /// Starts a stream with the cursor on the first genomic position.
    pub fn new(chrom: String, region_size: u64, step_size_max: u64) -> (iter: RegionIter)
        requires
            step_size_max >= 1,
            region_size + step_size_max <= u64::MAX - MAX_POS,
        ensures
            iter.chrom == chrom,
            iter.cursor == 1,
            iter.region_size == region_size,
            iter.step_size_max == step_size_max,
            iter.wf(),
    {
        let cursor: u64 = 1;
        RegionIter { chrom, cursor, region_size, step_size_max }
    }

    /// Yields the next window, or nothing once the cursor passed the
    /// ceiling.
    ///
    /// A yielded window starts where the cursor landed after the random
    /// step — at least where it stood, less than a full step beyond, so
    /// windows advance strictly and gaps stay below `step_size_max` — and
    /// covers exactly `region_size` positions, inclusively. The stream
    /// yields a window only while its past-the-end cursor stays below the
    /// ceiling, it must yield one while even the largest step would stay
    /// below it, and once it yields nothing it never yields again.
    pub fn next(&mut self) -> (item: Option<Region>)
        requires
            old(self).wf(),
        ensures
            final(self).wf(),
            final(self).chrom == old(self).chrom,
            final(self).region_size == old(self).region_size,
            final(self).step_size_max == old(self).step_size_max,
            old(self).cursor >= MAX_POS ==> item is None && *final(self) == *old(self),
            item matches Some(region) ==> {
                &&& old(self).cursor < MAX_POS
                &&& region.name@ == old(self).chrom@
                &&& old(self).cursor <= region.start < old(self).cursor + old(self).step_size_max
                &&& region.end == Some((region.start + old(self).region_size - 1) as u64)
                &&& final(self).cursor == region.start + old(self).region_size
                &&& final(self).cursor < MAX_POS
                &&& region.wf()
            },
            old(self).cursor + old(self).step_size_max - 1 + old(self).region_size < MAX_POS
                ==> item is Some,
            item is None && old(self).cursor < MAX_POS ==> final(self).cursor >= MAX_POS,
            final(self).cursor >= old(self).cursor,
    {
        if self.cursor >= MAX_POS {
            return None;
        }
        let draw = random_below(self.step_size_max);
        self.cursor = self.cursor + draw;
        let start = self.cursor;
        self.cursor = self.cursor + self.region_size;
        if self.cursor < MAX_POS {
            let end = self.cursor - 1;
            Some(Region { name: self.chrom.clone(), start, end: Some(end) })
        } else {
            None
        }
    }
}

} // verus!

//! The binning-index-driven region query engine.
//!
//! A region query resolves the chromosome name to its ordinal in the
//! index's name table, asks the index for the chunks overlapping the
//! interval, and scans each chunk's decoded records in file order: records
//! before the interval are skipped, records inside are forwarded and
//! counted, and the first record past a bounded interval stops the chunk —
//! the index is trusted to return position-ordered chunks, so nothing after
//! it can match. The transport around the engine opens one ranged cursor
//! per chunk and streams decoded records through the scanner.

use vstd::prelude::*;
use vstd::string::*;
use crate::error::Error;
use crate::error::ErrorKind;
use crate::http::Range;
use crate::num_str::dec_str;
use crate::num_str::u64_to_dec;
use crate::region::Region;
use crate::text::str_eq;

verus! {

/// A position inside a block-compressed stream: the compressed byte offset
/// where the block starts, and the byte offset within the block's
/// decompressed contents.
#[derive(Debug, Clone, Copy, PartialEq, Eq, Structural)]
pub struct VirtualOffset {
    pub compressed: u64,
    pub uncompressed: u16,
}

/// A contiguous compressed byte range of the remote object, bounded by two
/// virtual offsets, that the index promises to cover all records
/// overlapping some interval.
#[derive(Debug, Clone, Copy, PartialEq, Eq, Structural)]
pub struct Chunk {
    pub start: VirtualOffset,
    pub end: VirtualOffset,
}

impl VirtualOffset {
    /// The packed 64-bit form: the compressed offset in the upper 48 bits,
    /// the in-block offset in the lower 16.
    pub fn packed(&self) -> (packed: u64)
        requires
            self.compressed < 0x1000000000000,
        ensures
            packed == self.compressed * 0x10000 + self.uncompressed,
    {
        let packed = (self.compressed << 16u64) | (self.uncompressed as u64);
        proof {
            let c = self.compressed;
            let u = self.uncompressed as u64;
            assert((c << 16u64) | u == c * 0x10000 + u) by (bit_vector)
                requires
                    c < 0x1000000000000 && u < 0x10000,
            ;
        }
        packed
    }
}

impl Chunk {
    /// Builds a chunk from the plain parts of its two virtual offsets.
    pub fn from_parts(start_compressed: u64, start_uncompressed: u16, end_compressed: u64, end_uncompressed: u16) -> (chunk: Chunk)
        ensures
            chunk.start.compressed == start_compressed,
            chunk.start.uncompressed == start_uncompressed,
            chunk.end.compressed == end_compressed,
            chunk.end.uncompressed == end_uncompressed,
    {
        Chunk {
            start: VirtualOffset { compressed: start_compressed, uncompressed: start_uncompressed },
            end: VirtualOffset { compressed: end_compressed, uncompressed: end_uncompressed },
        }
    }

    /// The compressed byte range to request for this chunk: from the first
    /// byte of the start block to the byte before the end block begins.
    pub fn byte_range(&self) -> (range: Range)
        requires
            self.end.compressed >= 1,
        ensures
            range.from == Some(self.start.compressed),
            range.to == Some((self.end.compressed - 1) as u64),
    {
        Range::new(Some(self.start.compressed), Some(self.end.compressed - 1))
    }
}

/// The byte ranges to request, one per chunk, in chunk order.
///
/// A chunk whose end block starts at offset zero cannot bound a byte range
/// and marks a corrupt index.
pub fn chunk_byte_ranges(chunks: &Vec<Chunk>) -> (result: Result<Vec<Range>, Error>)
    ensures
        result matches Ok(ranges) ==> {
            &&& ranges@.len() == chunks@.len()
            &&& forall|i: int|
                0 <= i < chunks@.len() ==> (#[trigger] ranges@[i]).from == Some(
                    chunks@[i].start.compressed,
                ) && ranges@[i].to == Some((chunks@[i].end.compressed - 1) as u64)
            &&& forall|i: int| 0 <= i < chunks@.len() ==> (#[trigger] chunks@[i]).end.compressed
                >= 1
        },
        result matches Err(e) ==> (e.kind == ErrorKind::Decode && exists|i: int|
            0 <= i < chunks@.len() && (#[trigger] chunks@[i]).end.compressed == 0),
{
    let mut ranges: Vec<Range> = Vec::new();
    let mut i: usize = 0;
    while i < chunks.len()
        invariant
            i <= chunks@.len(),
            ranges@.len() == i,
            forall|k: int|
                0 <= k < i ==> (#[trigger] ranges@[k]).from == Some(chunks@[k].start.compressed)
                    && ranges@[k].to == Some((chunks@[k].end.compressed - 1) as u64),
            forall|k: int| 0 <= k < i ==> (#[trigger] chunks@[k]).end.compressed >= 1,
        decreases chunks@.len() - i,
    {
        let chunk = chunks[i];
        if chunk.end.compressed == 0 {
            return Err(
                Error::new(ErrorKind::Decode, "chunk ends before any compressed block".to_owned()),
            );
        }
        ranges.push(chunk.byte_range());
        i = i + 1;
    }
    Ok(ranges)
}

/// A parsed binning index, held behind the external parser.
#[derive(Debug)]
#[verifier::external_body]
pub struct TabixIndex {
    inner: noodles::tabix::Index,
}

/// The chromosome names the index declares, in index order.
pub uninterp spec fn index_names(index: TabixIndex) -> Seq<Seq<char>>;

/// The chunks the index yields for one chromosome ordinal and one
/// inclusive interval (an open upper bound queries to the end), in the
/// order the index returns them.
pub uninterp spec fn index_chunks(
    index: TabixIndex,
    i_chrom: int,
    start: int,
    end: Option<int>,
) -> Seq<Chunk>;

/// Whether the index accepts a query for one chromosome ordinal and one
/// interval: it refuses an ordinal it keeps no reference sequence for, or
/// an interval its binning scheme cannot place. The answer depends on the
/// index value and the query alone.
pub uninterp spec fn index_query_ok(
    index: TabixIndex,
    i_chrom: int,
    start: int,
    end: Option<int>,
) -> bool;

/// Relies on noodles-tabix's reader: parses a binning index from its
/// serialized bytes. An index that declares a bin ID above the binning
/// scheme's maximum is rejected here: the reader accepts such IDs, but
/// querying them would reach past the scheme's bin table, so no accepted
/// index can make a later query fail that way.
#[verifier::external_body]
pub fn index_from_bytes(bytes: &Vec<u8>) -> (result: Result<TabixIndex, Error>)
    ensures
        result is Ok || (result matches Err(e) && e.kind == ErrorKind::IO),
{
    let inner = match noodles::tabix::io::Reader::new(bytes.as_slice()).read_index() {
        Ok(inner) => inner,
        Err(error) => return Err(Error::new(ErrorKind::IO, error.to_string())),
    };
    let max_id = noodles::csi::binning_index::index::reference_sequence::Bin::max_id(5).unwrap();
    for reference_sequence in inner.reference_sequences() {
        if reference_sequence.bins().keys().any(|id| *id > max_id) {
            return Err(Error::new(ErrorKind::IO, "invalid bin ID in index".to_owned()));
        }
    }
    Ok(TabixIndex { inner })
}

/// Relies on the index header's reference-sequence name table: the
/// chromosome names in index order (an index without a header names none).
#[verifier::external_body]
pub fn index_chrom_names(index: &TabixIndex) -> (names: Vec<String>)
    ensures
        names@.map_values(|name: String| name@) == index_names(*index),
{
    match noodles::csi::BinningIndex::header(&index.inner) {
        Some(header) => header.reference_sequence_names().iter().map(|name| name.to_string()).collect(),
        None => Vec::new(),
    }
}

/// The optional upper bound as a mathematical value.
pub open spec fn opt_int(end: Option<usize>) -> Option<int> {
    match end {
        Some(e) => Some(e as int),
        None => None,
    }
}

/// Relies on BinningIndex::query: the chunks overlapping the interval on
/// the chromosome with the given ordinal, in the order the index returns
/// them; each virtual offset's compressed part comes from the upper 48
/// bits of a packed offset. Every index comes from `index_from_bytes`,
/// which keeps all bin IDs inside the binning scheme, so the query's bin
/// lookup stays in bounds and the call returns instead of panicking.
#[verifier::external_body]
fn index_query(index: &TabixIndex, i_chrom: usize, start: usize, end: Option<usize>) -> (result:
    Result<Vec<Chunk>, Error>)
    requires
        start >= 1,
        end matches Some(e) ==> e >= start,
    ensures
        result is Ok <==> index_query_ok(*index, i_chrom as int, start as int, opt_int(end)),
        result matches Ok(chunks) ==> chunks@ == index_chunks(
            *index,
            i_chrom as int,
            start as int,
            opt_int(end),
        ),
        result matches Ok(chunks) ==> forall|i: int|
            0 <= i < chunks@.len() ==> (#[trigger] chunks@[i]).start.compressed < 0x1000000000000
                && chunks@[i].end.compressed < 0x1000000000000,
        result matches Err(e) ==> e.kind == ErrorKind::IO,
{
    let start_pos = noodles::core::Position::new(start).unwrap();
    let interval: noodles::core::region::Interval = match end {
        None => (start_pos..).into(),
        Some(e) => (start_pos..=noodles::core::Position::new(e).unwrap()).into(),
    };
    match noodles::csi::BinningIndex::query(&index.inner, i_chrom, interval) {
        Ok(cs) => Ok(cs.iter().map(|c| Chunk::from_parts(c.start().compressed(), c.start().uncompressed(), c.end().compressed(), c.end().uncompressed())).collect()),
        Err(error) => Err(Error::new(ErrorKind::IO, error.to_string())),
    }
}

/// The first index in `names` holding exactly `chrom`, or the length if
/// none does.
pub open spec fn first_match(names: Seq<Seq<char>>, chrom: Seq<char>, from: int) -> int
    decreases names.len() - from,
{
    if from < 0 || from >= names.len() {
        names.len() as int
    } else if names[from] == chrom {
        from
    } else {
        first_match(names, chrom, from + 1)
    }
}

/// Resolves a chromosome name to its ordinal in the index's name table.
pub fn chrom_ordinal(names: &Vec<String>, chrom: &str) -> (ordinal: Option<usize>)
    ensures
        ordinal matches Some(i) ==> i == first_match(
            names@.map_values(|name: String| name@),
            chrom@,
            0,
        ) && i < names@.len(),
        ordinal is None ==> first_match(names@.map_values(|name: String| name@), chrom@, 0)
            == names@.len(),
{
    let ghost name_views = names@.map_values(|name: String| name@);
    let mut i: usize = 0;
    while i < names.len()
        invariant
            i <= names@.len(),
            name_views == names@.map_values(|name: String| name@),
            first_match(name_views, chrom@, 0) == first_match(name_views, chrom@, i as int),
        decreases names@.len() - i,
    {
        if str_eq(names[i].as_str(), chrom) {
            return Some(i);
        }
        i = i + 1;
    }
    None
}

/// Plans one region query: the chunks whose byte ranges must be fetched.
///
/// A chromosome the index does not name yields an empty plan and no error,
/// so a caller sampling many chromosomes does not abort on a missing one.
/// The chunks come back in the index's order, which the scan's early exit
/// trusts to be position order.
pub fn plan_region_query(index: &TabixIndex, region: &Region) -> (result: Result<Vec<Chunk>, Error>)
    requires
        region.wf(),
        region.start <= usize::MAX,
        region.end matches Some(e) ==> e <= usize::MAX && e >= region.start,
    ensures
        first_match(index_names(*index), region.name@, 0) == index_names(*index).len() ==> (
        result matches Ok(chunks) && chunks@.len() == 0),
        first_match(index_names(*index), region.name@, 0) < index_names(*index).len() ==> {
            let i = first_match(index_names(*index), region.name@, 0);
            let bound = match region.end {
                Some(e) => Some(e as int),
                None => None,
            };
            &&& (result is Ok <==> index_query_ok(*index, i, region.start as int, bound))
            &&& (result matches Ok(chunks) ==> chunks@ == index_chunks(
                *index,
                i,
                region.start as int,
                bound,
            ))
            &&& (result matches Ok(chunks) ==> forall|k: int|
                0 <= k < chunks@.len() ==> (#[trigger] chunks@[k]).start.compressed
                    < 0x1000000000000 && chunks@[k].end.compressed < 0x1000000000000)
            &&& (result matches Err(e) ==> e.kind == ErrorKind::IO)
        },
{
    let names = index_chrom_names(index);
    match chrom_ordinal(&names, self_name_as_str(region)) {
        None => Ok(Vec::new()),
        Some(i_chrom) => {
            let start = region.start as usize;
            let end: Option<usize> = match region.end {
                Some(e) => Some(e as usize),
                None => None,
            };
            index_query(index, i_chrom, start, end)
        },
    }
}

/// The region's chromosome name as a slice.
fn self_name_as_str(region: &Region) -> (name: &str)
    ensures
        name@ == region.name@,
{
    region.name.as_str()
}

/// What the scan does with one decoded record.
#[derive(Debug, Clone, Copy, PartialEq, Eq, Structural)]
pub enum ScanAction {
    Forward,
    Skip,
    Stop,
}

/// The per-chunk scan over decoded records: forwards and counts records
/// inside the interval, skips records before it (the index over-selects),
/// and stops at the first record past a bounded interval.
pub struct RegionScanner {
    pub start: u64,
    pub end: Option<u64>,
    pub n_matched: u64,
}

/// Whether `pos` lies in the inclusive interval.
pub open spec fn in_interval(start: u64, end: Option<u64>, pos: u64) -> bool {
    start <= pos && match end {
        Some(e) => pos <= e,
        None => true,
    }
}

/// Whether `pos` lies strictly past the (bounded) interval.
pub open spec fn past_interval(end: Option<u64>, pos: u64) -> bool {
    match end {
        Some(e) => pos > e,
        None => false,
    }
}

/// How many of `positions` lie in the interval.
pub open spec fn count_in(start: u64, end: Option<u64>, positions: Seq<u64>) -> int
    decreases positions.len(),
{
    if positions.len() == 0 {
        0
    } else {
        count_in(start, end, positions.drop_last()) + if in_interval(
            start,
            end,
            positions.last(),
        ) {
            1int
        } else {
            0int
        }
    }
}

/// The first index of `positions` past the interval, or the length.
pub open spec fn stop_index(end: Option<u64>, positions: Seq<u64>, from: int) -> int
    decreases positions.len() - from,
{
    if from < 0 || from >= positions.len() {
        positions.len() as int
    } else if past_interval(end, positions[from]) {
        from
    } else {
        stop_index(end, positions, from + 1)
    }
}

impl RegionScanner {
    /// Starts a scan over one region's interval.
    pub fn new(region: &Region) -> (scanner: RegionScanner)
        ensures
            scanner.start == region.start,
            scanner.end == region.end,
            scanner.n_matched == 0,
    {
        RegionScanner { start: region.start, end: region.end, n_matched: 0 }
    }

    /// Decides one record by its position: forward and count it when it
    /// lies in the interval, stop the chunk when it lies past a bounded
    /// interval, and skip it otherwise.
    pub fn on_record(&mut self, pos: u64) -> (action: ScanAction)
        requires
            old(self).n_matched < u64::MAX,
        ensures
            final(self).start == old(self).start,
            final(self).end == old(self).end,
            in_interval(old(self).start, old(self).end, pos) ==> (action == ScanAction::Forward
                && final(self).n_matched == old(self).n_matched + 1),
            past_interval(old(self).end, pos) ==> (action == ScanAction::Stop && *final(self)
                == *old(self)),
            !in_interval(old(self).start, old(self).end, pos) && !past_interval(
                old(self).end,
                pos,
            ) ==> (action == ScanAction::Skip && *final(self) == *old(self)),
    {
        let inside = self.start <= pos && match self.end {
            Some(e) => pos <= e,
            None => true,
        };
        if inside {
            self.n_matched = self.n_matched + 1;
            ScanAction::Forward
        } else {
            let past = match self.end {
                Some(e) => pos > e,
                None => false,
            };
            if past {
                ScanAction::Stop
            } else {
                ScanAction::Skip
            }
        }
    }

    /// Scans a whole chunk's record positions, stopping early at the first
    /// record past the interval: exactly the positions up to and including
    /// that record are examined, and exactly those inside the interval are
    /// counted. With a counting record source this pins the early exit: no
    /// record after the first overshoot is read.
    pub fn scan_positions(&mut self, positions: &Vec<u64>) -> (scanned: usize)
        requires
            old(self).n_matched + positions@.len() <= u64::MAX,
        ensures
            final(self).start == old(self).start,
            final(self).end == old(self).end,
            ({
                let stop = stop_index(old(self).end, positions@, 0);
                &&& scanned == if stop < positions@.len() {
                    stop + 1
                } else {
                    stop
                }
                &&& final(self).n_matched == old(self).n_matched + count_in(
                    old(self).start,
                    old(self).end,
                    positions@.take(scanned as int),
                )
            }),
    {
        let mut i: usize = 0;
        while i < positions.len()
            invariant
                i <= positions@.len(),
                self.start == old(self).start,
                self.end == old(self).end,
                old(self).n_matched + positions@.len() <= u64::MAX,
                self.n_matched == old(self).n_matched + count_in(
                    old(self).start,
                    old(self).end,
                    positions@.take(i as int),
                ),
                stop_index(old(self).end, positions@, 0) == stop_index(
                    old(self).end,
                    positions@,
                    i as int,
                ),
                count_in(old(self).start, old(self).end, positions@.take(i as int)) <= i,
            decreases positions@.len() - i,
        {
            proof {
                lemma_count_in_le(old(self).start, old(self).end, positions@.take(i as int));
                assert(positions@.take(i + 1).drop_last() =~= positions@.take(i as int));
                assert(positions@.take(i + 1).last() == positions@[i as int]);
            }
            let action = self.on_record(positions[i]);
            if action == ScanAction::Stop {
                return i + 1;
            }
            i = i + 1;
        }
        proof {
            assert(positions@.take(positions@.len() as int) =~= positions@);
        }
        positions.len()
    }
}

/// At most every position counts.
proof fn lemma_count_in_le(start: u64, end: Option<u64>, positions: Seq<u64>)
    ensures
        0 <= count_in(start, end, positions) <= positions.len(),
    decreases positions.len(),
{
    if positions.len() > 0 {
        lemma_count_in_le(start, end, positions.drop_last());
    }
}

/// How far one chunk's scan reaches: up to and including the first record
/// past the interval, or the whole chunk.
pub open spec fn chunk_scanned(end: Option<u64>, positions: Seq<u64>) -> int {
    let stop = stop_index(end, positions, 0);
    if stop < positions.len() {
        stop + 1
    } else {
        stop
    }
}

/// How many records one chunk's scan matches.
pub open spec fn chunk_matched(start: u64, end: Option<u64>, positions: Seq<u64>) -> int {
    count_in(start, end, positions.take(chunk_scanned(end, positions)))
}

/// The matches a whole plan yields, chunk by chunk.
pub open spec fn plan_matched(start: u64, end: Option<u64>, chunks: Seq<Seq<u64>>) -> int
    decreases chunks.len(),
{
    if chunks.len() == 0 {
        0
    } else {
        plan_matched(start, end, chunks.drop_last()) + chunk_matched(start, end, chunks.last())
    }
}

/// The records a plan's chunks hold in all.
pub open spec fn total_positions(chunks: Seq<Seq<u64>>) -> int
    decreases chunks.len(),
{
    if chunks.len() == 0 {
        0
    } else {
        chunks.first().len() + total_positions(chunks.drop_first())
    }
}

/// Every tail of the total is within it.
proof fn lemma_total_positions_skip(chunks: Seq<Seq<u64>>, i: int)
    requires
        0 <= i < chunks.len(),
    ensures
        total_positions(chunks.skip(i)) == chunks[i].len() + total_positions(chunks.skip(i + 1)),
        total_positions(chunks.skip(i + 1)) >= 0,
    decreases chunks.len() - i,
{
    assert(chunks.skip(i).first() == chunks[i]);
    assert(chunks.skip(i).drop_first() =~= chunks.skip(i + 1));
    if i + 1 < chunks.len() {
        lemma_total_positions_skip(chunks, i + 1);
    } else {
        assert(chunks.skip(i + 1) =~= Seq::<Seq<u64>>::empty());
    }
}

/// A chunk's matches stay within its record count.
proof fn lemma_chunk_matched_le(start: u64, end: Option<u64>, positions: Seq<u64>)
    ensures
        0 <= chunk_matched(start, end, positions) <= positions.len(),
{
    lemma_stop_index_bounds(end, positions, 0);
    lemma_count_in_le(start, end, positions.take(chunk_scanned(end, positions)));
}

/// Bounds for `stop_index`.
proof fn lemma_stop_index_bounds(end: Option<u64>, positions: Seq<u64>, from: int)
    requires
        0 <= from <= positions.len(),
    ensures
        from <= stop_index(end, positions, from) <= positions.len(),
    decreases positions.len() - from,
{
    if from < positions.len() && !past_interval(end, positions[from]) {
        lemma_stop_index_bounds(end, positions, from + 1);
    }
}

/// Runs the region scan over every chunk's decoded record positions, one
/// scanner per chunk, the way the engine drives a plan: each chunk is
/// examined only up to its first overshoot, and an empty plan — which is
/// all an absent chromosome ever yields — matches nothing.
pub fn scan_chunk_positions(region: &Region, chunk_positions: &Vec<Vec<u64>>) -> (matched: u64)
    requires
        total_positions(chunk_positions@.map_values(|v: Vec<u64>| v@)) <= u64::MAX,
    ensures
        matched == plan_matched(
            region.start,
            region.end,
            chunk_positions@.map_values(|v: Vec<u64>| v@),
        ),
        chunk_positions@.len() == 0 ==> matched == 0,
{
    let ghost views = chunk_positions@.map_values(|v: Vec<u64>| v@);
    let mut matched: u64 = 0;
    let mut i: usize = 0;
    proof {
        assert(views.take(0) =~= Seq::<Seq<u64>>::empty());
        assert(views.skip(0) =~= views);
    }
    while i < chunk_positions.len()
        invariant
            i <= chunk_positions@.len(),
            views == chunk_positions@.map_values(|v: Vec<u64>| v@),
            matched == plan_matched(region.start, region.end, views.take(i as int)),
            matched + total_positions(views.skip(i as int)) <= u64::MAX,
        decreases chunk_positions@.len() - i,
    {
        proof {
            lemma_total_positions_skip(views, i as int);
            lemma_chunk_matched_le(region.start, region.end, views[i as int]);
        }
        let mut scanner = RegionScanner::new(region);
        let positions = &chunk_positions[i];
        let _scanned = scanner.scan_positions(positions);
        matched = matched + scanner.n_matched;
        proof {
            assert(views.take(i + 1).drop_last() =~= views.take(i as int));
            assert(views.take(i + 1).last() == views[i as int]);
        }
        i = i + 1;
    }
    proof {
        assert(views.take(views.len() as int) =~= views);
    }
    matched
}

/// The progress throttle: counts records and decides when a new progress
/// line is due — once more than ten seconds or more than a hundred records
/// accumulated since the last line.
#[derive(Debug)]
pub struct StatusReporter {
    pub duration_old_secs: u64,
    pub n_records_old: u64,
    pub n_records: u64,
}

/// The text of one progress line.
pub open spec fn report_line_spec(elapsed_secs: u64, n_records: u64) -> Seq<char> {
    "After "@ + dec_str(elapsed_secs as nat) + " seconds, read "@ + dec_str(n_records as nat)
        + " records"@
}

impl StatusReporter {
    /// Whether a progress line is due at `elapsed_secs`.
    pub open spec fn spec_due(self, elapsed_secs: u64) -> bool {
        elapsed_secs > self.duration_old_secs + 10 || self.n_records > self.n_records_old + 100
    }

    /// Starts a reporter with nothing counted and nothing reported.
    pub fn new() -> (reporter: StatusReporter)
        ensures
            reporter.duration_old_secs == 0,
            reporter.n_records_old == 0,
            reporter.n_records == 0,
    {
        StatusReporter { duration_old_secs: 0, n_records_old: 0, n_records: 0 }
    }

    /// Counts one record.
    pub fn count_record(&mut self)
        requires
            old(self).n_records < u64::MAX,
        ensures
            final(self).n_records == old(self).n_records + 1,
            final(self).n_records_old == old(self).n_records_old,
            final(self).duration_old_secs == old(self).duration_old_secs,
    {
        self.n_records = self.n_records + 1;
    }

    /// Renders a progress line and snapshots the elapsed time and count as
    /// the new baseline.
    pub fn report(&mut self, elapsed_secs: u64) -> (line: String)
        ensures
            line@ == report_line_spec(elapsed_secs, old(self).n_records),
            final(self).duration_old_secs == elapsed_secs,
            final(self).n_records_old == old(self).n_records,
            final(self).n_records == old(self).n_records,
    {
        let mut line = "After ".to_owned();
        let secs_text = u64_to_dec(elapsed_secs);
        line.append(secs_text.as_str());
        line.append(" seconds, read ");
        let count_text = u64_to_dec(self.n_records);
        line.append(count_text.as_str());
        line.append(" records");
        self.duration_old_secs = elapsed_secs;
        self.n_records_old = self.n_records;
        line
    }

    /// Renders a progress line exactly when one is due — not before more
    /// than ten seconds or more than a hundred records accumulated since
    /// the last line, and only once per crossing, since reporting resets
    /// the baseline.
    pub fn report_maybe(&mut self, elapsed_secs: u64) -> (line: Option<String>)
        ensures
            line is Some <==> old(self).spec_due(elapsed_secs),
            line matches Some(text) ==> {
                &&& text@ == report_line_spec(elapsed_secs, old(self).n_records)
                &&& final(self).duration_old_secs == elapsed_secs
                &&& final(self).n_records_old == old(self).n_records
                &&& final(self).n_records == old(self).n_records
                &&& !final(self).spec_due(elapsed_secs)
            },
            line is None ==> *final(self) == *old(self),
    {
        if elapsed_secs > self.duration_old_secs.saturating_add(10) || self.n_records
            > self.n_records_old.saturating_add(100) {
            Some(self.report(elapsed_secs))
        } else {
            None
        }
    }
}

} // verus!

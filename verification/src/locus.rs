//! A single genomic coordinate, for error messages and logs.

use vstd::prelude::*;
use vstd::string::*;
use crate::num_str::dec_str;
use crate::num_str::u64_to_dec;

verus! {

/// One position on one chromosome.
#[derive(Debug)]
pub struct Locus {
    pub chrom: String,
    pub pos: u64,
}

impl Locus {
    /// Creates a locus from a chromosome name and a position.
    pub fn new(chrom: String, pos: u64) -> (locus: Locus)
        ensures
            locus.chrom == chrom,
            locus.pos == pos,
    {
        Locus { chrom, pos }
    }

    /// The text form `<chrom>:<pos>`.
    pub fn render(&self) -> (text: String)
        ensures
            text@ == self.chrom@ + ":"@ + dec_str(self.pos as nat),
    {
        let mut text = self.chrom.clone();
        text.append(":");
        let pos_text = u64_to_dec(self.pos);
        text.append(pos_text.as_str());
        text
    }
}

} // verus!

//! Simulated phenotypes: a name bound to a simulation definition.

pub mod parse;
pub mod pheno_sim;

use vstd::prelude::*;
use crate::phenotype::pheno_sim::PhenoSim;

verus! {

/// One named phenotype and how it is simulated.
#[derive(Debug)]
pub struct Phenotype {
    pub name: String,
    pub sim: PhenoSim,
}

impl Phenotype {
    /// Binds a name to a simulation definition.
    pub fn new(name: String, sim: PhenoSim) -> (phenotype: Phenotype)
        ensures
            phenotype.name == name,
            phenotype.sim == sim,
    {
        Phenotype { name, sim }
    }
}

} // verus!

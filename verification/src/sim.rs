//! The integer bookkeeping of the genetic-effect accumulation engine.
//!
//! The per-sample effect sums are floating-point and live outside the
//! library; what stands here is the bookkeeping the merge depends on:
//! that two simulations agree on their phenotypes, and that item counts
//! match the sample count.

pub mod io;

use vstd::prelude::*;
use vstd::string::*;
use crate::error::Error;
use crate::error::ErrorKind;
use crate::locus::Locus;
use crate::num_str::u64_to_dec;
use crate::text::str_eq;

verus! {

/// Checks that two simulations name the same phenotypes, in order, and
/// hands back the shared list.
pub fn merged_phenotype_names(names: &Vec<String>, other_names: &Vec<String>) -> (result: Result<
    Vec<String>,
    Error,
>)
    ensures
        result matches Ok(merged) ==> {
            &&& names@.len() == other_names@.len()
            &&& (forall|i: int|
                0 <= i < names@.len() ==> (#[trigger] names@[i])@ == other_names@[i]@)
            &&& merged@.len() == names@.len()
            &&& (forall|i: int| 0 <= i < names@.len() ==> (#[trigger] merged@[i])@ == names@[i]@)
        },
        result matches Err(e) ==> {
            &&& e.kind == ErrorKind::Phenics
            &&& !(names@.len() == other_names@.len() && (forall|i: int|
                0 <= i < names@.len() ==> (#[trigger] names@[i])@ == other_names@[i]@))
        },
{
    if names.len() != other_names.len() {
        let mut message = "Need to have the same phenotypes, but got ".to_owned();
        let count_text = u64_to_dec(names.len() as u64);
        message.append(count_text.as_str());
        message.append(" phenotypes versus ");
        let other_count_text = u64_to_dec(other_names.len() as u64);
        message.append(other_count_text.as_str());
        message.append(" phenotypes.");
        return Err(Error::from_message(message));
    }
    let mut merged: Vec<String> = Vec::new();
    let mut i: usize = 0;
    while i < names.len()
        invariant
            i <= names@.len() == other_names@.len(),
            merged@.len() == i,
            forall|k: int| 0 <= k < i ==> (#[trigger] names@[k])@ == other_names@[k]@,
            forall|k: int| 0 <= k < i ==> (#[trigger] merged@[k])@ == names@[k]@,
        decreases names@.len() - i,
    {
        if !str_eq(names[i].as_str(), other_names[i].as_str()) {
            let mut message = "Need to have the same phenotypes, but got '".to_owned();
            message.append(names[i].as_str());
            message.append("' versus '");
            message.append(other_names[i].as_str());
            message.append("'.");
            return Err(Error::from_message(message));
        }
        let mut name = String::new();
        name.append(names[i].as_str());
        merged.push(name);
        i = i + 1;
    }
    Ok(merged)
}

/// Checks that per-record items come one per sample, the guard every
/// record must pass before its genotypes are accumulated.
pub fn check_same_size_as_samples(n_items: usize, n_samples: usize, locus: &Locus, item_type: &str) -> (result: Result<(), Error>)
    ensures
        n_items == n_samples <==> result is Ok,
        result matches Err(e) ==> e.kind == ErrorKind::Phenics,
{
    if n_items == n_samples {
        Ok(())
    } else {
        let mut message = "At ".to_owned();
        let locus_text = locus.render();
        message.append(locus_text.as_str());
        message.append(", got ");
        let items_text = u64_to_dec(n_items as u64);
        message.append(items_text.as_str());
        message.append(" ");
        message.append(item_type);
        message.append(", but have ");
        let samples_text = u64_to_dec(n_samples as u64);
        message.append(samples_text.as_str());
        message.append(" samples.");
        Err(Error::from_message(message))
    }
}

} // verus!

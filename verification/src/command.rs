//! What the commands of the tool do to a configuration: list its processes,
//! add one, remove some, and check the whole.

use crate::codec::process_of_text;
use crate::configuration::Configuration;
use crate::json::ParseError;
use crate::keyed::{law_bulk_removal, without};
use crate::process::Process;
use vstd::prelude::*;

verus! {

/// The ids of the processes, in the order of the configuration.
pub fn list(configuration: &Configuration) -> (ids: Vec<u32>)
    ensures
        ids@ == configuration.process_ids(),
{
    configuration.get_process_id_list()
}

/// Reads a process from JSON text and appends it. Where the text is not
/// accepted, the fault is returned and the configuration stays as it is.
pub fn add(configuration: &mut Configuration, text: &str) -> (r: Result<(), ParseError>)
    ensures
        match process_of_text(text@) {
            Ok(value) => {
                &&& r is Ok
                &&& final(configuration).process@.len() == old(configuration).process@.len() + 1
                &&& final(configuration).process@.drop_last() == old(configuration).process@
                &&& final(configuration).process@.last()@ == value
            },
            Err(e) => r == Err::<(), ParseError>(e) && final(configuration).process@ == old(
                configuration,
            ).process@,
        },
{
    match Process::new(text) {
        Ok(process) => {
            let _ = configuration.push(process);
            assert(configuration.process@.drop_last() =~= old(configuration).process@);
            Ok(())
        },
        Err(e) => Err(e),
    }
}

/// Removes every process whose id is in the list and returns how many were
/// removed. The processes that stay keep their order.
pub fn remove(configuration: &mut Configuration, ids: Vec<u32>) -> (removed: usize)
    ensures
        final(configuration).process@ == without(old(configuration).process@, ids@),
        removed == old(configuration).process@.len() - final(configuration).process@.len(),
{
    let before = configuration.process.len();
    proof {
        law_bulk_removal(configuration.process@, ids@);
    }
    let _ = configuration.remove_process_by_list(ids);
    before - configuration.process.len()
}

/// Whether the configuration is valid: no two processes share an id, no two
/// transfers of one process share an id, and every endpoint names a path.
pub fn validate(configuration: &Configuration) -> (ok: bool)
    ensures
        ok == configuration@.valid(),
{
    configuration.is_valid()
}

} // verus!

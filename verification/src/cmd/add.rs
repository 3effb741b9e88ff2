//! Adding a tag record.  The word that names the whole store in `show`
//! is reserved and cannot carry a record of its own.

use vstd::prelude::*;

verus! {

use crate::repo::tag_data_repository::TagDataRepository;
use crate::text::str_eq;

/// The reserved word: `show all` lists the whole store.
pub const ALL_SUBCOMMAND: &'static str = "all";

/// Why `add` refused the record.
#[derive(Debug, PartialEq, Eq, Structural)]
pub enum AddError {
    ReservedTag,
}

/// Stores `command` under `tag`, unless `tag` is the reserved word.
/// Persisting the store afterwards is the caller's concern.
pub fn add<T: TagDataRepository>(tag: String, command: String, repo: &mut T) -> (r: Result<
    (),
    AddError,
>)
    requires
        old(repo).wf(),
    ensures
        final(repo).wf(),
        tag@ == ALL_SUBCOMMAND@ ==> r == Result::<(), AddError>::Err(AddError::ReservedTag)
            && final(repo).view() == old(repo).view(),
        tag@ != ALL_SUBCOMMAND@ ==> r is Ok && final(repo).view() == old(repo).view().insert(
            tag@,
            command@,
        ),
{
    if str_eq(tag.as_str(), ALL_SUBCOMMAND) {
        return Err(AddError::ReservedTag);
    }
    repo.add_tag_data(tag, command);
    Ok(())
}

} // verus!

//! Deleting a tag record.

use vstd::prelude::*;

verus! {

use crate::repo::tag_data_repository::TagDataRepository;

/// Drops the record stored under `tag`; a tag with no record is a no-op.
/// Persisting the store and reporting are the caller's concern.
pub fn delete<T: TagDataRepository>(repo: &mut T, tag: String)
    requires
        old(repo).wf(),
    ensures
        final(repo).wf(),
        final(repo).view() == old(repo).view().remove(tag@),
{
    repo.remove_tag_data(tag.as_str());
}

} // verus!

//! The repository capability: read and write access to the stored
//! tag-to-command association, abstracted as a `Map<Seq<char>, Seq<char>>`.

use vstd::prelude::*;

verus! {

/// Failure to load the persisted store: the data file did not hold a JSON
/// object of strings.
#[derive(Debug, PartialEq, Eq, Structural)]
pub enum RepoError {
    InvalidData,
}

/// A store of tag records.  The tag is the unique key; the command is free
/// text.  Every implementation exposes its contents through `view` and keeps
/// `wf` across all operations.
pub trait TagDataRepository: Sized {
    /// The stored association from tag to command.
    spec fn view(&self) -> Map<Seq<char>, Seq<char>>;

    /// Internal well-formedness, established by `new` and kept by every
    /// operation.
    spec fn wf(&self) -> bool;

    /// An empty repository.
    fn new() -> (r: Self)
        ensures
            r.wf(),
            r.view() == Map::<Seq<char>, Seq<char>>::empty(),
    ;

    /// The command stored under `tag`, if any.
    fn get_tag_data(&self, tag: &str) -> (r: Option<String>)
        requires
            self.wf(),
        ensures
            match r {
                Some(command) => self.view().contains_key(tag@) && self.view()[tag@]
                    == command@,
                None => !self.view().contains_key(tag@),
            },
    ;

    /// Every stored tag, once each, in unspecified order.
    fn get_all_tags(&self) -> (r: Vec<String>)
        requires
            self.wf(),
        ensures
            forall|i: int, j: int|
                #![trigger r@[i], r@[j]]
                0 <= i < j < r@.len() ==> r@[i]@ != r@[j]@,
            forall|i: int| 0 <= i < r@.len() ==> self.view().contains_key((#[trigger] r@[i])@),
            forall|t: Seq<char>|
                #[trigger] self.view().contains_key(t) ==> exists|i: int|
                    0 <= i < r@.len() && (#[trigger] r@[i])@ == t,
    ;

    /// Every stored command, once per tag, in unspecified order.
    fn get_all_tag_data(&self) -> (r: Vec<String>)
        requires
            self.wf(),
        ensures
            exists|ts: Seq<Seq<char>>| #[trigger] lists_values(self.view(), ts, r@),
    ;

    /// Every stored record, once each, in unspecified order.
    fn get_all_data(&self) -> (r: Vec<(String, String)>)
        requires
            self.wf(),
        ensures
            forall|i: int, j: int|
                #![trigger r@[i], r@[j]]
                0 <= i < j < r@.len() ==> r@[i].0@ != r@[j].0@,
            forall|i: int|
                0 <= i < r@.len() ==> self.view().contains_key((#[trigger] r@[i]).0@)
                    && self.view()[r@[i].0@] == r@[i].1@,
            forall|t: Seq<char>|
                #[trigger] self.view().contains_key(t) ==> exists|i: int|
                    0 <= i < r@.len() && (#[trigger] r@[i]).0@ == t,
    ;

    /// Stores `command` under `tag`, replacing any earlier record.
    fn add_tag_data(&mut self, tag: String, command: String)
        requires
            old(self).wf(),
        ensures
            final(self).wf(),
            final(self).view() == old(self).view().insert(tag@, command@),
    ;

    /// Drops the record stored under `tag`, if any.
    fn remove_tag_data(&mut self, tag: &str)
        requires
            old(self).wf(),
        ensures
            final(self).wf(),
            final(self).view() == old(self).view().remove(tag@),
    ;
}

/// `r` lists, once per stored tag, the command of that tag: there is an
/// enumeration `ts` of all tags such that `r[i]` is the command of `ts[i]`.
pub open spec fn lists_values(m: Map<Seq<char>, Seq<char>>, ts: Seq<Seq<char>>, r: Seq<String>) -> bool {
    &&& ts.no_duplicates()
    &&& ts.len() == r.len()
    &&& forall|i: int| 0 <= i < ts.len() ==> m.contains_key(#[trigger] ts[i]) && m[ts[i]] == r[i]@
    &&& forall|t: Seq<char>| #[trigger] m.contains_key(t) ==> ts.contains(t)
}

} // verus!

//! An in-memory repository, for exercising the core without a data file.

use vstd::prelude::*;

verus! {

use crate::repo::store::{
    entries_map, entries_wf, lemma_empty_store, lemma_pairs_listing, lemma_tags_listing,
    lemma_values_listing, store_get, store_insert, store_pairs, store_remove, store_tags,
    store_values,
};
use crate::repo::tag_data_repository::{lists_values, RepoError, TagDataRepository};

pub struct UnitTestRepository {
    entries: Vec<(String, String)>,
}

impl TagDataRepository for UnitTestRepository {
    closed spec fn view(&self) -> Map<Seq<char>, Seq<char>> {
        entries_map(self.entries@)
    }

    closed spec fn wf(&self) -> bool {
        entries_wf(self.entries@)
    }

    fn new() -> (r: Self) {
        let r = UnitTestRepository { entries: Vec::new() };
        proof {
            lemma_empty_store(r.entries@);
        }
        r
    }

    fn get_tag_data(&self, tag: &str) -> (r: Option<String>) {
        store_get(&self.entries, tag)
    }

    fn get_all_tags(&self) -> (r: Vec<String>) {
        let r = store_tags(&self.entries);
        proof {
            lemma_tags_listing(self.entries@, r@);
        }
        r
    }

    fn get_all_tag_data(&self) -> (r: Vec<String>) {
        let r = store_values(&self.entries);
        proof {
            lemma_values_listing(self.entries@, r@);
            assert(lists_values(
                self.view(),
                self.entries@.map_values(|e: (String, String)| e.0@),
                r@,
            ));
        }
        r
    }

    fn get_all_data(&self) -> (r: Vec<(String, String)>) {
        let r = store_pairs(&self.entries);
        proof {
            lemma_pairs_listing(self.entries@, r@);
        }
        r
    }

    fn add_tag_data(&mut self, tag: String, command: String) {
        store_insert(&mut self.entries, tag, command);
    }

    fn remove_tag_data(&mut self, tag: &str) {
        store_remove(&mut self.entries, tag);
    }
}

impl UnitTestRepository {
    /// Loading is a no-op: the repository starts and stays in memory.
    pub fn init(&mut self, file_path: &str) -> (r: Result<(), RepoError>)
        ensures
            r is Ok,
            *final(self) == *old(self),
    {
        let _unused = file_path;
        Ok(())
    }

    /// Saving is a no-op: there is no backing storage.
    pub fn save(&self) -> (r: Result<(), RepoError>)
        ensures
            r is Ok,
    {
        Ok(())
    }
}

} // verus!

//! The persisted repository: tag records loaded from and written to a JSON
//! data file.  The surrounding binary reads and writes the file itself; this
//! module parses and prints the text.

use vstd::prelude::*;

verus! {

use crate::repo::store::{
    entries_map, entries_wf, has_tag, lemma_empty_store, lemma_pairs_listing, lemma_tags_listing,
    lemma_values_listing, store_get, store_insert, store_pairs, store_remove, store_tags,
    store_values, tag_index,
};
use crate::repo::tag_data_repository::{lists_values, RepoError, TagDataRepository};

/// The association held by `text` when it parses as a JSON object whose
/// values are strings, and nothing otherwise.
pub uninterp spec fn json_tag_map(text: Seq<char>) -> Option<Map<Seq<char>, Seq<char>>>;

/// The JSON text that prints the association `m`.
pub uninterp spec fn json_text(m: Map<Seq<char>, Seq<char>>) -> Seq<char>;

/// Relies on `serde_json::from_str::<HashMap<String, String>>`: whether the
/// text parses, and the association it holds, depend on the text alone, and
/// the keys of the parsed table are distinct.
#[verifier::external_body]
fn parse_tag_object(text: &str) -> (r: Option<Vec<(String, String)>>)
    ensures
        match r {
            Some(v) => {
                &&& json_tag_map(text@) is Some
                &&& entries_wf(v@)
                &&& forall|i: int|
                    0 <= i < v@.len() ==> json_tag_map(text@)->Some_0.contains_key(
                        (#[trigger] v@[i]).0@,
                    ) && json_tag_map(text@)->Some_0[v@[i].0@] == v@[i].1@
                &&& forall|t: Seq<char>|
                    #[trigger] json_tag_map(text@)->Some_0.contains_key(t) ==> has_tag(v@, t)
            },
            None => json_tag_map(text@) is None,
        },
{
    match serde_json::from_str::<std::collections::HashMap<String, String>>(text) {
        Ok(m) => Some(m.into_iter().collect()),
        Err(_) => None,
    }
}

/// Relies on `serde_json::to_string_pretty` over `serde_json::Map`, which
/// orders its keys itself: the printed text depends only on the stored
/// association.
#[verifier::external_body]
fn write_tag_object(entries: &Vec<(String, String)>) -> (r: String)
    ensures
        r@ == json_text(entries_map(entries@)),
{
    let mut m = serde_json::Map::new();
    for (tag, command) in entries.iter() {
        m.insert(tag.clone(), serde_json::Value::String(command.clone()));
    }
    serde_json::to_string_pretty(&m).unwrap_or_default()
}

/// The repository backed by the JSON data file.
pub struct HashMapRepository {
    entries: Vec<(String, String)>,
    file_path: String,
}

impl TagDataRepository for HashMapRepository {
    closed spec fn view(&self) -> Map<Seq<char>, Seq<char>> {
        entries_map(self.entries@)
    }

    closed spec fn wf(&self) -> bool {
        entries_wf(self.entries@)
    }

    fn new() -> (r: Self) {
        let r = HashMapRepository { entries: Vec::new(), file_path: String::new() };
        proof {
            lemma_empty_store(r.entries@);
        }
        r
    }

    fn get_tag_data(&self, tag: &str) -> (r: Option<String>) {
        store_get(&self.entries, tag)
    }

    fn get_all_tags(&self) -> (r: Vec<String>) {
        let r = store_tags(&self.entries);
        proof {
            lemma_tags_listing(self.entries@, r@);
        }
        r
    }

    fn get_all_tag_data(&self) -> (r: Vec<String>) {
        let r = store_values(&self.entries);
        proof {
            lemma_values_listing(self.entries@, r@);
            assert(lists_values(
                self.view(),
                self.entries@.map_values(|e: (String, String)| e.0@),
                r@,
            ));
        }
        r
    }

    fn get_all_data(&self) -> (r: Vec<(String, String)>) {
        let r = store_pairs(&self.entries);
        proof {
            lemma_pairs_listing(self.entries@, r@);
        }
        r
    }

    fn add_tag_data(&mut self, tag: String, command: String) {
        store_insert(&mut self.entries, tag, command);
    }

    fn remove_tag_data(&mut self, tag: &str) {
        store_remove(&mut self.entries, tag);
    }
}

impl HashMapRepository {
    /// The remembered location of the data file.
    pub closed spec fn path_spec(&self) -> Seq<char> {
        self.file_path@
    }

    /// Loads the store from the text of the data file and remembers where
    /// the file lives.  Rejects text that is not a JSON object of strings.
    pub fn init(&mut self, file_path: &str, text: &str) -> (r: Result<(), RepoError>)
        requires
            old(self).wf(),
        ensures
            final(self).wf(),
            match r {
                Ok(_) => {
                    &&& json_tag_map(text@) is Some
                    &&& final(self).view() == json_tag_map(text@)->Some_0
                    &&& final(self).path_spec() == file_path@
                },
                Err(e) => {
                    &&& json_tag_map(text@) is None
                    &&& e == RepoError::InvalidData
                    &&& *final(self) == *old(self)
                },
            },
    {
        match parse_tag_object(text) {
            Some(v) => {
                proof {
                    let m = json_tag_map(text@)->Some_0;
                    assert forall|t: Seq<char>| #[trigger] has_tag(v@, t) implies m.contains_key(
                        t,
                    ) && entries_map(v@)[t] == m[t] by {
                        let i = tag_index(v@, t);
                        assert(0 <= i < v@.len() && v@[i].0@ == t);
                    }
                    assert(entries_map(v@) =~= m);
                }
                self.entries = v;
                self.file_path = file_path.to_owned();
                Ok(())
            },
            None => Err(RepoError::InvalidData),
        }
    }

    /// The text to persist: the stored association as pretty-printed JSON.
    pub fn to_json(&self) -> (r: String)
        requires
            self.wf(),
        ensures
            r@ == json_text(self.view()),
    {
        write_tag_object(&self.entries)
    }

    /// Where the data file lives, as remembered by `init`.
    pub fn get_data_path(&self) -> (r: String)
        ensures
            r@ == self.path_spec(),
    {
        self.file_path.clone()
    }
}

} // verus!

//! The query engine: prefix search over the repository.
//!
//! `search` returns exactly the stored records whose tag starts with the
//! query, in strictly ascending tag order.  An empty query matches every
//! record.  Matching is character-by-character from the start of the tag:
//! case-sensitive, with no Unicode normalisation.

use vstd::prelude::*;

verus! {

use crate::repo::tag_data_repository::TagDataRepository;
use crate::text::{
    lemma_lex_lt_asym, lemma_lex_lt_total, lemma_lex_lt_trans, lex_lt, str_lex_lt,
    str_starts_with,
};

/// One search hit: a tag record copied out of the repository.
#[derive(Debug, PartialEq, Eq)]
pub struct TagData {
    pub tag: String,
    pub command: String,
}

impl TagData {
    fn new(tag: String, command: String) -> (r: TagData)
        ensures
            r.tag == tag,
            r.command == command,
    {
        TagData { tag, command }
    }

    /// The display line of a match: `tag: command`.
    pub fn display_line(&self) -> (r: String)
        ensures
            r@ == self.tag@ + ": "@ + self.command@,
    {
        self.tag.clone().concat(": ").concat(self.command.as_str())
    }
}

/// `rs` holds exactly the records of `m` whose tag starts with `prefix`,
/// in strictly ascending tag order.  Together the three clauses determine
/// `rs` uniquely.
pub open spec fn is_search_result(
    m: Map<Seq<char>, Seq<char>>,
    prefix: Seq<char>,
    rs: Seq<TagData>,
) -> bool {
    &&& forall|i: int|
        0 <= i < rs.len() ==> m.contains_key((#[trigger] rs[i]).tag@) && m[rs[i].tag@]
            == rs[i].command@ && prefix.is_prefix_of(rs[i].tag@)
    &&& forall|t: Seq<char>|
        #[trigger] m.contains_key(t) && prefix.is_prefix_of(t) ==> exists|i: int|
            0 <= i < rs.len() && (#[trigger] rs[i]).tag@ == t
    &&& forall|i: int, j: int|
        #![trigger rs[i], rs[j]]
        0 <= i < j < rs.len() ==> lex_lt(rs[i].tag@, rs[j].tag@)
}

/// Places `td` at its position in a strictly sorted result list whose tags
/// all differ from `td.tag`.
fn insert_sorted(results: &mut Vec<TagData>, td: TagData)
    requires
        forall|i: int, j: int|
            #![trigger old(results)@[i], old(results)@[j]]
            0 <= i < j < old(results)@.len() ==> lex_lt(
                old(results)@[i].tag@,
                old(results)@[j].tag@,
            ),
        forall|i: int|
            0 <= i < old(results)@.len() ==> (#[trigger] old(results)@[i]).tag@ != td.tag@,
    ensures
        exists|p: int|
            0 <= p <= old(results)@.len() && final(results)@ == old(results)@.insert(p, td),
        forall|i: int, j: int|
            #![trigger final(results)@[i], final(results)@[j]]
            0 <= i < j < final(results)@.len() ==> lex_lt(
                final(results)@[i].tag@,
                final(results)@[j].tag@,
            ),
{
    let ghost orig = results@;
    let mut idx: usize = 0;
    loop
        invariant_except_break
            results@ == orig,
            orig == old(results)@,
            idx <= orig.len(),
            forall|i: int, j: int|
                #![trigger orig[i], orig[j]]
                0 <= i < j < orig.len() ==> lex_lt(orig[i].tag@, orig[j].tag@),
            forall|i: int| 0 <= i < orig.len() ==> (#[trigger] orig[i]).tag@ != td.tag@,
            forall|j: int| 0 <= j < idx ==> lex_lt((#[trigger] orig[j]).tag@, td.tag@),
        ensures
            results@ == orig,
            orig == old(results)@,
            idx <= orig.len(),
            forall|j: int| 0 <= j < idx ==> lex_lt((#[trigger] orig[j]).tag@, td.tag@),
            idx < orig.len() ==> !lex_lt(orig[idx as int].tag@, td.tag@),
        decreases orig.len() - idx,
    {
        if idx >= results.len() {
            break;
        }
        if !str_lex_lt(results[idx].tag.as_str(), td.tag.as_str()) {
            break;
        }
        idx = idx + 1;
    }
    proof {
        if idx < orig.len() {
            lemma_lex_lt_total(td.tag@, orig[idx as int].tag@);
            assert(lex_lt(td.tag@, orig[idx as int].tag@));
        }
    }
    let ghost p = idx as int;
    results.insert(idx, td);
    proof {
        let s = results@;
        assert(forall|k: int|
            0 <= k < s.len() ==> #[trigger] s[k] == (if k < p {
                orig[k]
            } else if k == p {
                td
            } else {
                orig[k - 1]
            }));
        assert forall|i: int, j: int|
            #![trigger s[i], s[j]]
            0 <= i < j < s.len() implies lex_lt(s[i].tag@, s[j].tag@) by {
            if i < p && j == p {
                assert(lex_lt(orig[i].tag@, td.tag@));
            } else if i == p && j > p {
                assert(lex_lt(td.tag@, orig[p].tag@));
                if j - 1 > p {
                    assert(lex_lt(orig[p].tag@, orig[j - 1].tag@));
                    lemma_lex_lt_trans(td.tag@, orig[p].tag@, orig[j - 1].tag@);
                }
            }
        }
    }
}

/// Searches the repository: every record whose tag starts with
/// `search_str`, sorted ascending by tag.
#[verifier::rlimit(100)]
pub fn search<T: TagDataRepository>(repo: &T, search_str: String) -> (results: Vec<TagData>)
    requires
        repo.wf(),
    ensures
        is_search_result(repo.view(), search_str@, results@),
{
    let all_tags = repo.get_all_tags();
    let mut results: Vec<TagData> = Vec::new();
    let mut k: usize = 0;
    while k < all_tags.len()
        invariant
            k <= all_tags@.len(),
            repo.wf(),
            forall|i: int, j: int|
                #![trigger all_tags@[i], all_tags@[j]]
                0 <= i < j < all_tags@.len() ==> all_tags@[i]@ != all_tags@[j]@,
            forall|i: int|
                0 <= i < all_tags@.len() ==> repo.view().contains_key(
                    (#[trigger] all_tags@[i])@,
                ),
            forall|t: Seq<char>|
                #[trigger] repo.view().contains_key(t) ==> exists|i: int|
                    0 <= i < all_tags@.len() && (#[trigger] all_tags@[i])@ == t,
            forall|i: int|
                0 <= i < results@.len() ==> repo.view().contains_key(
                    (#[trigger] results@[i]).tag@,
                ) && repo.view()[results@[i].tag@] == results@[i].command@
                    && search_str@.is_prefix_of(results@[i].tag@),
            forall|i: int|
                0 <= i < results@.len() ==> exists|j: int|
                    0 <= j < k && (#[trigger] results@[i]).tag@ == all_tags@[j]@,
            forall|j: int|
                0 <= j < k && search_str@.is_prefix_of((#[trigger] all_tags@[j])@) ==> exists|
                    i: int,
                |
                    0 <= i < results@.len() && (#[trigger] results@[i]).tag@ == all_tags@[j]@,
            forall|i: int, j: int|
                #![trigger results@[i], results@[j]]
                0 <= i < j < results@.len() ==> lex_lt(results@[i].tag@, results@[j].tag@),
        decreases all_tags@.len() - k,
    {
        let tag = &all_tags[k];
        if str_starts_with(tag.as_str(), search_str.as_str()) {
            match repo.get_tag_data(tag.as_str()) {
                Some(command) => {
                    let ghost before = results@;
                    proof {
                        assert forall|i: int|
                            0 <= i < before.len() implies (#[trigger] before[i]).tag@
                            != tag@ by {
                            let j = choose|j: int|
                                0 <= j < k && (#[trigger] before[i]).tag@ == all_tags@[j]@;
                            assert(all_tags@[j]@ != all_tags@[k as int]@);
                        }
                    }
                    let new_td = TagData::new(tag.clone(), command);
                    let ghost tdg = new_td;
                    insert_sorted(&mut results, new_td);
                    proof {
                        let p = choose|p: int|
                            0 <= p <= before.len() && results@ == before.insert(p, tdg);
                        assert(forall|i: int|
                            0 <= i < results@.len() ==> #[trigger] results@[i] == (if i < p {
                                before[i]
                            } else if i == p {
                                tdg
                            } else {
                                before[i - 1]
                            }));
                        assert forall|i: int|
                            0 <= i < results@.len() implies repo.view().contains_key(
                            (#[trigger] results@[i]).tag@,
                        ) && repo.view()[results@[i].tag@] == results@[i].command@
                            && search_str@.is_prefix_of(results@[i].tag@) by {
                            if i == p {
                                assert(results@[i] == tdg);
                            }
                        }
                        assert forall|i: int| 0 <= i < results@.len() implies exists|j: int|
                            0 <= j < k + 1 && (#[trigger] results@[i]).tag@ == all_tags@[j]@ by {
                            if i == p {
                                assert(results@[i].tag@ == all_tags@[k as int]@);
                            } else {
                                let i0: int = if i < p {
                                    i
                                } else {
                                    i - 1
                                };
                                let j = choose|j: int|
                                    0 <= j < k && (#[trigger] before[i0]).tag@ == all_tags@[j]@;
                                assert(results@[i].tag@ == all_tags@[j]@);
                            }
                        }
                        assert forall|j: int|
                            0 <= j < k + 1 && search_str@.is_prefix_of(
                                (#[trigger] all_tags@[j])@,
                            ) implies exists|i: int|
                            0 <= i < results@.len() && (#[trigger] results@[i]).tag@
                                == all_tags@[j]@ by {
                            if j == k as int {
                                assert(results@[p].tag@ == all_tags@[j]@);
                            } else {
                                let i0 = choose|i0: int|
                                    0 <= i0 < before.len() && (#[trigger] before[i0]).tag@
                                        == all_tags@[j]@;
                                if i0 < p {
                                    assert(results@[i0].tag@ == all_tags@[j]@);
                                } else {
                                    assert(results@[i0 + 1].tag@ == all_tags@[j]@);
                                }
                            }
                        }
                    }
                },
                None => {
                    proof {
                        assert(repo.view().contains_key(all_tags@[k as int]@));
                        assert(false);
                    }
                },
            }
        }
        k = k + 1;
    }
    proof {
        assert forall|t: Seq<char>|
            #[trigger] repo.view().contains_key(t) && search_str@.is_prefix_of(
                t,
            ) implies exists|i: int|
            0 <= i < results@.len() && (#[trigger] results@[i]).tag@ == t by {
            let j = choose|j: int|
                0 <= j < all_tags@.len() && (#[trigger] all_tags@[j])@ == t;
            assert(search_str@.is_prefix_of(all_tags@[j]@));
            let i = choose|i: int|
                0 <= i < results@.len() && (#[trigger] results@[i]).tag@ == all_tags@[j]@;
            assert(results@[i].tag@ == t);
        }
    }
    results
}

/// A search result lists each matching tag only once: the strict
/// ordering forbids repetition.
pub proof fn lemma_search_result_distinct(
    m: Map<Seq<char>, Seq<char>>,
    prefix: Seq<char>,
    rs: Seq<TagData>,
)
    requires
        is_search_result(m, prefix, rs),
    ensures
        forall|i: int, j: int|
            #![trigger rs[i], rs[j]]
            0 <= i < j < rs.len() ==> rs[i].tag@ != rs[j].tag@,
{
    assert forall|i: int, j: int|
        #![trigger rs[i], rs[j]]
        0 <= i < j < rs.len() implies rs[i].tag@ != rs[j].tag@ by {
        lemma_lex_lt_asym(rs[i].tag@, rs[j].tag@);
    }
}

/// An empty query reports every stored record: the empty prefix starts
/// every tag.
pub proof fn lemma_search_empty_prefix(m: Map<Seq<char>, Seq<char>>, rs: Seq<TagData>)
    requires
        is_search_result(m, Seq::<char>::empty(), rs),
    ensures
        forall|t: Seq<char>|
            #[trigger] m.contains_key(t) ==> exists|i: int|
                0 <= i < rs.len() && (#[trigger] rs[i]).tag@ == t,
{
    assert forall|t: Seq<char>| #[trigger] m.contains_key(t) implies exists|i: int|
        0 <= i < rs.len() && (#[trigger] rs[i]).tag@ == t by {
        assert(Seq::<char>::empty() =~= t.subrange(0, 0));
        assert(Seq::<char>::empty().is_prefix_of(t));
    }
}

} // verus!

//! Shared storage for tag records: a vector of `(tag, command)` pairs with
//! pairwise distinct tags, abstracted as a `Map<Seq<char>, Seq<char>>`.

use vstd::prelude::*;

verus! {

use crate::text::str_eq;

/// Tags are pairwise distinct.
pub open spec fn entries_wf(s: Seq<(String, String)>) -> bool {
    forall|i: int, j: int|
        #![trigger s[i], s[j]]
        0 <= i < j < s.len() ==> s[i].0@ != s[j].0@
}

/// Whether some entry carries the tag `t`.
pub open spec fn has_tag(s: Seq<(String, String)>, t: Seq<char>) -> bool {
    exists|i: int| 0 <= i < s.len() && (#[trigger] s[i]).0@ == t
}

/// Index of an entry carrying the tag `t` (unique when `entries_wf` holds).
pub open spec fn tag_index(s: Seq<(String, String)>, t: Seq<char>) -> int {
    choose|i: int| 0 <= i < s.len() && (#[trigger] s[i]).0@ == t
}

/// The association stored in `s`, as a map on character sequences.
pub open spec fn entries_map(s: Seq<(String, String)>) -> Map<Seq<char>, Seq<char>> {
    Map::new(|t: Seq<char>| has_tag(s, t), |t: Seq<char>| s[tag_index(s, t)].1@)
}

/// Each entry of a well-formed store is visible in its map, at its own value.
pub proof fn lemma_entry_in_map(s: Seq<(String, String)>, i: int)
    requires
        entries_wf(s),
        0 <= i < s.len(),
    ensures
        entries_map(s).contains_key(s[i].0@),
        entries_map(s)[s[i].0@] == s[i].1@,
{
    let t = s[i].0@;
    assert(has_tag(s, t));
    let j = tag_index(s, t);
    assert(0 <= j < s.len() && s[j].0@ == t);
    if i != j {
        assert(s[i].0@ != s[j].0@);
    }
}

/// Looks a tag up in the store.
pub fn store_get(entries: &Vec<(String, String)>, tag: &str) -> (r: Option<String>)
    requires
        entries_wf(entries@),
    ensures
        match r {
            Some(command) => entries_map(entries@).contains_key(tag@) && entries_map(
                entries@,
            )[tag@] == command@,
            None => !entries_map(entries@).contains_key(tag@),
        },
{
    let mut i: usize = 0;
    while i < entries.len()
        invariant
            i <= entries@.len(),
            entries_wf(entries@),
            forall|j: int| 0 <= j < i ==> (#[trigger] entries@[j]).0@ != tag@,
        decreases entries@.len() - i,
    {
        if str_eq(entries[i].0.as_str(), tag) {
            let command = entries[i].1.clone();
            proof {
                lemma_entry_in_map(entries@, i as int);
            }
            return Some(command);
        }
        i = i + 1;
    }
    proof {
        if entries_map(entries@).contains_key(tag@) {
            let j = tag_index(entries@, tag@);
            assert(has_tag(entries@, tag@));
        }
    }
    None
}

/// Removes the entry carrying `tag`, if any.
pub fn store_remove(entries: &mut Vec<(String, String)>, tag: &str)
    requires
        entries_wf(old(entries)@),
    ensures
        entries_wf(final(entries)@),
        forall|i: int| 0 <= i < final(entries)@.len() ==> (#[trigger] final(entries)@[i]).0@ != tag@,
        entries_map(final(entries)@) == entries_map(old(entries)@).remove(tag@),
{
    let ghost orig = entries@;
    let mut i: usize = 0;
    while i < entries.len()
        invariant
            entries@ == orig,
            orig == old(entries)@,
            i <= orig.len(),
            entries_wf(orig),
            forall|j: int| 0 <= j < i ==> (#[trigger] orig[j]).0@ != tag@,
        decreases orig.len() - i,
    {
        if str_eq(entries[i].0.as_str(), tag) {
            entries.remove(i);
            proof {
                lemma_store_removed(orig, i as int, entries@, tag@);
            }
            return;
        }
        i = i + 1;
    }
    proof {
        assert(!has_tag(orig, tag@));
        assert(entries_map(orig) =~= entries_map(orig).remove(tag@));
    }
}

/// After taking index `i` (the entry carrying `t`) out of `s`, the remaining
/// entries hold the association without `t`.
proof fn lemma_store_removed(s: Seq<(String, String)>, i: int, rest: Seq<(String, String)>, t: Seq<char>)
    requires
        entries_wf(s),
        0 <= i < s.len(),
        s[i].0@ == t,
        rest == s.remove(i),
    ensures
        entries_wf(rest),
        forall|j: int| 0 <= j < rest.len() ==> (#[trigger] rest[j]).0@ != t,
        entries_map(rest) == entries_map(s).remove(t),
{
    assert(forall|j: int|
        0 <= j < rest.len() ==> #[trigger] rest[j] == (if j < i {
            s[j]
        } else {
            s[j + 1]
        }));
    assert forall|j: int| 0 <= j < rest.len() implies (#[trigger] rest[j]).0@ != t by {
        if j < i {
            assert(s[j].0@ != s[i].0@);
        } else {
            assert(s[i].0@ != s[j + 1].0@);
        }
    }
    assert forall|u: Seq<char>| #[trigger] has_tag(rest, u) implies has_tag(s, u) && u != t by {
        let j = choose|j: int| 0 <= j < rest.len() && (#[trigger] rest[j]).0@ == u;
        if j < i {
            assert(s[j].0@ == u);
        } else {
            assert(s[j + 1].0@ == u);
        }
    }
    assert forall|u: Seq<char>| #[trigger] has_tag(s, u) && u != t implies has_tag(rest, u) by {
        let j = choose|j: int| 0 <= j < s.len() && (#[trigger] s[j]).0@ == u;
        if j < i {
            assert(rest[j].0@ == u);
        } else {
            assert(j != i);
            assert(rest[j - 1].0@ == u);
        }
    }
    assert forall|u: Seq<char>| #[trigger] has_tag(rest, u) implies entries_map(rest)[u]
        == entries_map(s)[u] by {
        let j = tag_index(rest, u);
        let k = tag_index(s, u);
        assert(0 <= j < rest.len() && rest[j].0@ == u);
        assert(has_tag(s, u));
        assert(0 <= k < s.len() && s[k].0@ == u);
        if j < i {
            assert(rest[j] == s[j]);
            if k != j {
                assert(s[k].0@ != s[j].0@);
            }
        } else {
            assert(rest[j] == s[j + 1]);
            if k != j + 1 {
                assert(s[k].0@ != s[j + 1].0@);
            }
        }
    }
    assert(entries_map(rest) =~= entries_map(s).remove(t));
}

/// Inserts or replaces the entry for `tag`.
pub fn store_insert(entries: &mut Vec<(String, String)>, tag: String, command: String)
    requires
        entries_wf(old(entries)@),
    ensures
        entries_wf(final(entries)@),
        entries_map(final(entries)@) == entries_map(old(entries)@).insert(tag@, command@),
{
    let ghost orig = entries@;
    store_remove(entries, tag.as_str());
    let ghost mid = entries@;
    entries.push((tag, command));
    proof {
        let s = entries@;
        let t = s[s.len() - 1].0@;
        assert(forall|j: int| 0 <= j < mid.len() ==> #[trigger] s[j] == mid[j]);
        assert forall|u: Seq<char>| #[trigger] has_tag(s, u) implies has_tag(mid, u) || u == t by {
            let j = choose|j: int| 0 <= j < s.len() && (#[trigger] s[j]).0@ == u;
            if j < s.len() - 1 {
                assert(mid[j].0@ == u);
            }
        }
        assert forall|u: Seq<char>| #[trigger] has_tag(mid, u) implies has_tag(s, u) by {
            let j = choose|j: int| 0 <= j < mid.len() && (#[trigger] mid[j]).0@ == u;
            assert(s[j].0@ == u);
        }
        assert(has_tag(s, t));
        assert forall|u: Seq<char>| #[trigger] has_tag(s, u) implies entries_map(s)[u]
            == entries_map(mid).insert(t, s[s.len() - 1].1@)[u] by {
            let j = tag_index(s, u);
            assert(0 <= j < s.len() && s[j].0@ == u);
            if u == t {
                if j != s.len() - 1 {
                    assert(mid[j].0@ != t);
                    assert(s[j].0@ != t);
                }
                assert(entries_map(s)[u] == s[s.len() - 1].1@);
            } else {
                assert(j < s.len() - 1);
                assert(mid[j].0@ == u);
                let k = tag_index(mid, u);
                assert(0 <= k < mid.len() && mid[k].0@ == u);
                if k != j {
                    assert(s[k].0@ != s[j].0@);
                }
            }
        }
        assert(entries_map(s) =~= entries_map(mid).insert(t, s[s.len() - 1].1@));
        assert(entries_map(mid).insert(t, s[s.len() - 1].1@) =~= entries_map(orig).insert(
            t,
            s[s.len() - 1].1@,
        ));
    }
}

/// A tag listing drawn index by index from a well-formed store names every
/// stored tag exactly once.
pub proof fn lemma_tags_listing(s: Seq<(String, String)>, r: Seq<String>)
    requires
        entries_wf(s),
        r.len() == s.len(),
        forall|i: int| 0 <= i < r.len() ==> (#[trigger] r[i])@ == s[i].0@,
    ensures
        forall|i: int, j: int| #![trigger r[i], r[j]] 0 <= i < j < r.len() ==> r[i]@ != r[j]@,
        forall|i: int| 0 <= i < r.len() ==> entries_map(s).contains_key((#[trigger] r[i])@),
        forall|t: Seq<char>|
            #[trigger] entries_map(s).contains_key(t) ==> exists|i: int|
                0 <= i < r.len() && (#[trigger] r[i])@ == t,
{
    assert forall|i: int| 0 <= i < r.len() implies entries_map(s).contains_key(
        (#[trigger] r[i])@,
    ) by {
        lemma_entry_in_map(s, i);
    }
    assert forall|t: Seq<char>| #[trigger] entries_map(s).contains_key(t) implies exists|i: int|
        0 <= i < r.len() && (#[trigger] r[i])@ == t by {
        let i = choose|i: int| 0 <= i < s.len() && (#[trigger] s[i]).0@ == t;
        assert(r[i]@ == t);
    }
}

/// A value listing drawn index by index from a well-formed store lists every
/// stored command under its own tag.
pub proof fn lemma_values_listing(s: Seq<(String, String)>, r: Seq<String>)
    requires
        entries_wf(s),
        r.len() == s.len(),
        forall|i: int| 0 <= i < r.len() ==> (#[trigger] r[i])@ == s[i].1@,
    ensures
        crate::repo::tag_data_repository::lists_values(
            entries_map(s),
            s.map_values(|e: (String, String)| e.0@),
            r,
        ),
{
    let ts = s.map_values(|e: (String, String)| e.0@);
    assert(forall|i: int| 0 <= i < s.len() ==> #[trigger] ts[i] == s[i].0@);
    assert(ts.no_duplicates()) by {
        assert forall|i: int, j: int|
            0 <= i < ts.len() && 0 <= j < ts.len() && i != j implies #[trigger] ts[i]
            != #[trigger] ts[j] by {
            if i < j {
                assert(s[i].0@ != s[j].0@);
            } else {
                assert(s[j].0@ != s[i].0@);
            }
        }
    }
    assert forall|i: int| 0 <= i < ts.len() implies entries_map(s).contains_key(#[trigger] ts[i])
        && entries_map(s)[ts[i]] == r[i]@ by {
        lemma_entry_in_map(s, i);
    }
    assert forall|t: Seq<char>| #[trigger] entries_map(s).contains_key(t) implies ts.contains(
        t,
    ) by {
        let i = choose|i: int| 0 <= i < s.len() && (#[trigger] s[i]).0@ == t;
        assert(ts[i] == t);
    }
}

/// A pair listing drawn index by index from a well-formed store holds every
/// stored record exactly once.
pub proof fn lemma_pairs_listing(s: Seq<(String, String)>, r: Seq<(String, String)>)
    requires
        entries_wf(s),
        r.len() == s.len(),
        forall|i: int|
            0 <= i < r.len() ==> (#[trigger] r[i]).0@ == s[i].0@ && r[i].1@ == s[i].1@,
    ensures
        forall|i: int, j: int|
            #![trigger r[i], r[j]]
            0 <= i < j < r.len() ==> r[i].0@ != r[j].0@,
        forall|i: int|
            0 <= i < r.len() ==> entries_map(s).contains_key((#[trigger] r[i]).0@)
                && entries_map(s)[r[i].0@] == r[i].1@,
        forall|t: Seq<char>|
            #[trigger] entries_map(s).contains_key(t) ==> exists|i: int|
                0 <= i < r.len() && (#[trigger] r[i]).0@ == t,
{
    assert forall|i: int| 0 <= i < r.len() implies entries_map(s).contains_key(
        (#[trigger] r[i]).0@,
    ) && entries_map(s)[r[i].0@] == r[i].1@ by {
        lemma_entry_in_map(s, i);
    }
    assert forall|t: Seq<char>| #[trigger] entries_map(s).contains_key(t) implies exists|i: int|
        0 <= i < r.len() && (#[trigger] r[i]).0@ == t by {
        let i = choose|i: int| 0 <= i < s.len() && (#[trigger] s[i]).0@ == t;
        assert(r[i].0@ == t);
    }
}

/// An empty store holds the empty association.
pub proof fn lemma_empty_store(s: Seq<(String, String)>)
    requires
        s.len() == 0,
    ensures
        entries_wf(s),
        entries_map(s) == Map::<Seq<char>, Seq<char>>::empty(),
{
    assert(entries_map(s) =~= Map::<Seq<char>, Seq<char>>::empty());
}

/// Lists the tags, in storage order.
pub fn store_tags(entries: &Vec<(String, String)>) -> (r: Vec<String>)
    ensures
        r@.len() == entries@.len(),
        forall|i: int| 0 <= i < r@.len() ==> (#[trigger] r@[i])@ == entries@[i].0@,
{
    let mut r: Vec<String> = Vec::new();
    let mut i: usize = 0;
    while i < entries.len()
        invariant
            i <= entries@.len(),
            r@.len() == i,
            forall|j: int| 0 <= j < i ==> (#[trigger] r@[j])@ == entries@[j].0@,
        decreases entries@.len() - i,
    {
        r.push(entries[i].0.clone());
        i = i + 1;
    }
    r
}

/// Lists the commands, in storage order.
pub fn store_values(entries: &Vec<(String, String)>) -> (r: Vec<String>)
    ensures
        r@.len() == entries@.len(),
        forall|i: int| 0 <= i < r@.len() ==> (#[trigger] r@[i])@ == entries@[i].1@,
{
    let mut r: Vec<String> = Vec::new();
    let mut i: usize = 0;
    while i < entries.len()
        invariant
            i <= entries@.len(),
            r@.len() == i,
            forall|j: int| 0 <= j < i ==> (#[trigger] r@[j])@ == entries@[j].1@,
        decreases entries@.len() - i,
    {
        r.push(entries[i].1.clone());
        i = i + 1;
    }
    r
}

/// Copies the whole store, in storage order.
pub fn store_pairs(entries: &Vec<(String, String)>) -> (r: Vec<(String, String)>)
    ensures
        r@.len() == entries@.len(),
        forall|i: int|
            0 <= i < r@.len() ==> (#[trigger] r@[i]).0@ == entries@[i].0@ && r@[i].1@
                == entries@[i].1@,
{
    let mut r: Vec<(String, String)> = Vec::new();
    let mut i: usize = 0;
    while i < entries.len()
        invariant
            i <= entries@.len(),
            r@.len() == i,
            forall|j: int|
                0 <= j < i ==> (#[trigger] r@[j]).0@ == entries@[j].0@ && r@[j].1@
                    == entries@[j].1@,
        decreases entries@.len() - i,
    {
        r.push((entries[i].0.clone(), entries[i].1.clone()));
        i = i + 1;
    }
    r
}

} // verus!

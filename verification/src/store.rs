//! The in-memory link store: the sole owner of persisted records. It
//! assigns ids, lists records, resolves a short code by substring
//! containment, and deletes by id.

use vstd::prelude::*;
use crate::link::{DeleteOutcome, Link};

verus! {

/// True when `needle` occurs in `hay` starting at offset `k`.
pub open spec fn matches_at(hay: Seq<char>, needle: Seq<char>, k: int) -> bool {
    0 <= k && k + needle.len() <= hay.len() && hay.subrange(k, k + needle.len() as int) == needle
}

/// Substring containment: the lookup rule a stored alias is matched by.
/// An empty needle is contained in every string.
pub open spec fn contains_code(hay: Seq<char>, needle: Seq<char>) -> bool {
    exists|k: int| matches_at(hay, needle, k)
}

/// No two records share an id.
pub open spec fn unique_ids(links: Seq<Link>) -> bool {
    forall|i: int, j: int| 0 <= i < j < links.len() ==> links[i].id != links[j].id
}

/// Some record carries the given id.
pub open spec fn has_link_with_id(links: Seq<Link>, id: i32) -> bool {
    exists|i: int| 0 <= i < links.len() && links[i].id == id
}

/// The records that survive deleting `id`: every record whose id differs.
pub open spec fn remaining_after_delete(links: Seq<Link>, id: i32) -> Seq<Link> {
    links.filter(|l: Link| l.id != id)
}

/// The store: records in insertion order, plus the next id to assign.
pub struct LinkStore {
    links: Vec<Link>,
    next_id: i32,
}

impl View for LinkStore {
    type V = Seq<Link>;

    closed spec fn view(&self) -> Seq<Link> {
        self.links@
    }
}

impl LinkStore {
    /// The id the next insertion will be assigned.
    pub closed spec fn spec_next_id(&self) -> int {
        self.next_id as int
    }

    /// Well-formedness: ids start at 1, stay below the next id to assign,
    /// and never repeat.
    pub open spec fn wf(&self) -> bool {
        &&& 1 <= self.spec_next_id()
        &&& forall|i: int|
            0 <= i < self@.len() ==> 1 <= (#[trigger] self@[i]).id < self.spec_next_id()
        &&& unique_ids(self@)
    }

    /// The id the next insertion will be assigned, as a value a caller can
    /// test before inserting.
    pub fn next_id(&self) -> (r: i32)
        ensures
            r == self.spec_next_id(),
    {
        self.next_id
    }

    /// A store with no records; ids start at 1.
    pub fn new() -> (s: LinkStore)
        ensures
            s.wf(),
            s@ == Seq::<Link>::empty(),
            s.spec_next_id() == 1,
    {
        LinkStore { links: Vec::new(), next_id: 1 }
    }

    /// Returns every record, in store order.
    pub fn list(&self) -> (r: Vec<Link>)
        ensures
            r@ == self@,
    {
        let mut r: Vec<Link> = Vec::new();
        let mut i: usize = 0;
        while i < self.links.len()
            invariant
                i <= self.links@.len(),
                r@.len() == i,
                forall|j: int| 0 <= j < i ==> r@[j] == self@[j],
            decreases self.links@.len() - i,
        {
            r.push(self.links[i].clone());
            i = i + 1;
        }
        proof {
            assert(r@ =~= self@);
        }
        r
    }

    /// Returns the first record whose alias contains `code` as a substring,
    /// or nothing when no stored alias does.
    pub fn find_by_short_code(&self, code: &str) -> (r: Option<Link>)
        ensures
            match r {
                None => forall|i: int|
                    0 <= i < self@.len() ==> !contains_code(
                        (#[trigger] self@[i]).short_url@,
                        code@,
                    ),
                Some(l) => exists|i: int|
                    {
                        &&& 0 <= i < self@.len()
                        &&& self@[i] == l
                        &&& contains_code(l.short_url@, code@)
                        &&& forall|j: int|
                            0 <= j < i ==> !contains_code(
                                (#[trigger] self@[j]).short_url@,
                                code@,
                            )
                    },
            },
    {
        let mut i: usize = 0;
        while i < self.links.len()
            invariant
                i <= self.links@.len(),
                forall|j: int|
                    0 <= j < i ==> !contains_code((#[trigger] self@[j]).short_url@, code@),
            decreases self.links@.len() - i,
        {
            let l = &self.links[i];
            if contains_str(l.short_url.as_str(), code) {
                let r = l.clone();
                proof {
                    let wi = i as int;
                    assert({
                        &&& 0 <= wi < self@.len()
                        &&& self@[wi] == r
                        &&& contains_code(r.short_url@, code@)
                        &&& forall|j: int|
                            0 <= j < wi ==> !contains_code((#[trigger] self@[j]).short_url@, code@)
                    });
                }
                return Some(r);
            }
            i = i + 1;
        }
        None
    }

    /// Persists a new record under the next free id and hands the stored
    /// record back.
    pub fn insert(&mut self, url: String, short_url: String) -> (r: Link)
        requires
            old(self).wf(),
            old(self).spec_next_id() < i32::MAX,
        ensures
            final(self).wf(),
            r.id == old(self).spec_next_id(),
            r.url == url,
            r.short_url == short_url,
            final(self)@ == old(self)@.push(r),
            final(self).spec_next_id() == old(self).spec_next_id() + 1,
    {
        let id = self.next_id;
        self.next_id = self.next_id + 1;
        let link = Link { id, url, short_url };
        let r = link.clone();
        self.links.push(link);
        r
    }

    /// Removes the record with the given id if present; reports how many
    /// records were removed (1 when the id was present, 0 otherwise).
    pub fn delete(&mut self, id: i32) -> (r: DeleteOutcome)
        requires
            old(self).wf(),
        ensures
            final(self).wf(),
            final(self)@ == remaining_after_delete(old(self)@, id),
            final(self).spec_next_id() == old(self).spec_next_id(),
            r.rows_affected == (if has_link_with_id(old(self)@, id) {
                1int
            } else {
                0int
            }),
            !has_link_with_id(final(self)@, id),
    {
        let ghost links0 = self@;
        let found = find_index_by_id(&self.links, id);
        match found {
            Some(k) => {
                proof {
                    assert forall|j: int| 0 <= j < links0.len() && j != k implies (#[trigger] links0[j]).id
                        != id by {
                        if j > k {
                            assert(links0[k as int].id != links0[j].id);
                        }
                    }
                    lemma_filter_skips_one(links0, k as int, id);
                }
                self.links.remove(k);
                proof {
                    links0.remove_ensures(k as int);
                    lemma_unique_after_remove(links0, k as int);
                    assert forall|i2: int| 0 <= i2 < self@.len() implies !((#[trigger] self@[i2]).id
                        == id) by {
                        if i2 < k {
                            assert(self@[i2] == links0[i2]);
                        } else {
                            assert(self@[i2] == links0[i2 + 1]);
                        }
                    }
                }
                DeleteOutcome { rows_affected: 1 }
            },
            None => {
                proof {
                    if has_link_with_id(links0, id) {
                        let w = choose|w: int| 0 <= w < links0.len() && links0[w].id == id;
                        assert(links0[w].id != id);
                    }
                    lemma_filter_identity(links0, id);
                }
                DeleteOutcome { rows_affected: 0 }
            },
        }
    }
}

fn find_index_by_id(links: &Vec<Link>, id: i32) -> (r: Option<usize>)
    ensures
        match r {
            Some(k) => k < links@.len() && links@[k as int].id == id,
            None => forall|j: int| 0 <= j < links@.len() ==> (#[trigger] links@[j]).id != id,
        },
{
    let mut i: usize = 0;
    while i < links.len()
        invariant
            i <= links@.len(),
            forall|j: int| 0 <= j < i ==> (#[trigger] links@[j]).id != id,
        decreases links@.len() - i,
    {
        if links[i].id == id {
            return Some(i);
        }
        i = i + 1;
    }
    None
}

/// When no record carries the id, deleting it leaves the records unchanged.
proof fn lemma_filter_identity(links: Seq<Link>, id: i32)
    requires
        forall|i: int| 0 <= i < links.len() ==> (#[trigger] links[i]).id != id,
    ensures
        remaining_after_delete(links, id) == links,
    decreases links.len(),
{
    reveal(Seq::filter);
    if links.len() > 0 {
        let prefix = links.drop_last();
        assert(forall|i: int| 0 <= i < prefix.len() ==> (#[trigger] prefix[i]).id != id);
        lemma_filter_identity(prefix, id);
        assert(remaining_after_delete(links, id) =~= links);
    } else {
        assert(remaining_after_delete(links, id) =~= links);
    }
}

/// When exactly the record at index `k` carries the id, deleting the id
/// removes exactly that record.
proof fn lemma_filter_skips_one(links: Seq<Link>, k: int, id: i32)
    requires
        0 <= k < links.len(),
        links[k].id == id,
        forall|j: int| 0 <= j < links.len() && j != k ==> (#[trigger] links[j]).id != id,
    ensures
        remaining_after_delete(links, id) == links.remove(k),
{
    let pred = |l: Link| l.id != id;
    let a = links.subrange(0, k);
    let b = links.subrange(k, k + 1);
    let c = links.subrange(k + 1, links.len() as int);
    assert(links =~= (a + b) + c);
    Seq::filter_distributes_over_add(a + b, c, pred);
    Seq::filter_distributes_over_add(a, b, pred);
    assert(forall|i: int| 0 <= i < a.len() ==> (#[trigger] a[i]).id != id);
    assert(forall|i: int| 0 <= i < c.len() ==> (#[trigger] c[i]).id != id);
    lemma_filter_identity(a, id);
    lemma_filter_identity(c, id);
    assert(b.filter(pred) =~= Seq::<Link>::empty()) by {
        reveal_with_fuel(Seq::<_>::filter, 2);
        assert(b.drop_last() =~= Seq::<Link>::empty());
        assert(b.last() == links[k]);
    }
    assert(links.filter(pred) == (a + b).filter(pred) + c.filter(pred));
    assert(a.filter(pred) + b.filter(pred) =~= a);
    assert(remaining_after_delete(links, id) =~= links.remove(k));
}

/// Removing one record keeps the remaining ids distinct and in range.
proof fn lemma_unique_after_remove(links: Seq<Link>, k: int)
    requires
        0 <= k < links.len(),
        unique_ids(links),
    ensures
        unique_ids(links.remove(k)),
{
    let out = links.remove(k);
    links.remove_ensures(k);
    assert forall|i: int, j: int| 0 <= i < j < out.len() implies out[i].id != out[j].id by {
        let i0: int = if i < k { i } else { i + 1 };
        let j0: int = if j < k { j } else { j + 1 };
        assert(out[i] == links[i0]);
        assert(out[j] == links[j0]);
        assert(links[i0].id != links[j0].id);
    }
}

/// Every record that survives a deletion was already stored beforehand.
pub proof fn lemma_delete_keeps_only_stored_records(links: Seq<Link>, id: i32)
    ensures
        forall|i: int|
            0 <= i < remaining_after_delete(links, id).len() ==> links.contains(
                #[trigger] remaining_after_delete(links, id)[i],
            ),
    decreases links.len(),
{
    reveal(Seq::filter);
    let rem = remaining_after_delete(links, id);
    if links.len() > 0 {
        let prefix = links.drop_last();
        lemma_delete_keeps_only_stored_records(prefix, id);
        let prem = remaining_after_delete(prefix, id);
        assert forall|i: int| 0 <= i < rem.len() implies links.contains(#[trigger] rem[i]) by {
            if i < prem.len() {
                assert(prem.contains(prem[i]));
                let j = choose|j: int| 0 <= j < prefix.len() && prefix[j] == prem[i];
                assert(links[j] == rem[i]);
            } else {
                assert(rem[i] == links[links.len() - 1]);
            }
        }
    }
}

/// Deleting is idempotent: after an id has been deleted nothing with that id
/// remains, so deleting the same id again removes nothing; and when the id
/// was present, the first deletion removed exactly one record.
pub proof fn lemma_delete_idempotent(links: Seq<Link>, id: i32)
    requires
        unique_ids(links),
    ensures
        !has_link_with_id(remaining_after_delete(links, id), id),
        remaining_after_delete(remaining_after_delete(links, id), id) == remaining_after_delete(
            links,
            id,
        ),
        has_link_with_id(links, id) ==> remaining_after_delete(links, id).len() == links.len() - 1,
        !has_link_with_id(links, id) ==> remaining_after_delete(links, id) == links,
{
    let pred = |l: Link| l.id != id;
    let rem = remaining_after_delete(links, id);
    assert forall|i: int| 0 <= i < rem.len() implies (#[trigger] rem[i]).id != id by {
        links.lemma_filter_pred(pred, i);
    }
    if has_link_with_id(rem, id) {
        let w = choose|w: int| 0 <= w < rem.len() && rem[w].id == id;
        assert(rem[w].id != id);
    }
    lemma_filter_identity(rem, id);
    if has_link_with_id(links, id) {
        let k = choose|k: int| 0 <= k < links.len() && links[k].id == id;
        assert forall|j: int| 0 <= j < links.len() && j != k implies (#[trigger] links[j]).id != id by {
            if j < k {
                assert(links[j].id != links[k].id);
            } else {
                assert(links[k].id != links[j].id);
            }
        }
        lemma_filter_skips_one(links, k, id);
    } else {
        assert forall|i: int| 0 <= i < links.len() implies (#[trigger] links[i]).id != id by {
            if links[i].id == id {
                assert(has_link_with_id(links, id));
            }
        }
        lemma_filter_identity(links, id);
    }
}

fn match_at(hay: &str, needle: &str, k: usize, nh: usize, nn: usize) -> (r: bool)
    requires
        nh == hay@.len(),
        nn == needle@.len(),
        k + nn <= nh,
    ensures
        r == matches_at(hay@, needle@, k as int),
{
    let mut j: usize = 0;
    while j < nn
        invariant
            j <= nn,
            nh == hay@.len(),
            nn == needle@.len(),
            k + nn <= nh,
            forall|j2: int| 0 <= j2 < j ==> hay@[k + j2] == needle@[j2],
        decreases nn - j,
    {
        if hay.get_char(k + j) != needle.get_char(j) {
            proof {
                if matches_at(hay@, needle@, k as int) {
                    assert(hay@.subrange(k as int, k + nn as int)[j as int] == needle@[j as int]);
                }
            }
            return false;
        }
        j = j + 1;
    }
    proof {
        assert(hay@.subrange(k as int, k + nn as int) =~= needle@);
    }
    true
}

fn contains_str(hay: &str, needle: &str) -> (r: bool)
    ensures
        r == contains_code(hay@, needle@),
{
    let nh = hay.unicode_len();
    let nn = needle.unicode_len();
    if nn == 0 {
        proof {
            assert(hay@.subrange(0, 0) =~= needle@);
            assert(matches_at(hay@, needle@, 0));
        }
        return true;
    }
    if nn > nh {
        proof {
            if contains_code(hay@, needle@) {
                let k = choose|k: int| matches_at(hay@, needle@, k);
                assert(k + needle@.len() <= hay@.len());
            }
        }
        return false;
    }
    let mut k: usize = 0;
    while k <= nh - nn
        invariant
            1 <= nn <= nh,
            nh == hay@.len(),
            nn == needle@.len(),
            k <= nh - nn + 1,
            forall|k2: int| 0 <= k2 < k ==> !matches_at(hay@, needle@, k2),
        decreases nh - nn - k + 1,
    {
        if match_at(hay, needle, k, nh, nn) {
            return true;
        }
        k = k + 1;
    }
    proof {
        if contains_code(hay@, needle@) {
            let k2 = choose|k2: int| matches_at(hay@, needle@, k2);
            assert(!matches_at(hay@, needle@, k2));
        }
    }
    false
}

} // verus!

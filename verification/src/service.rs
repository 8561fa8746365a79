//! The link service: validation, code generation and store calls combined
//! into the four public operations (list, resolve, create, delete).

use vstd::prelude::*;
use crate::generate::{generate_random_characters, spec_is_alphanumeric};
use crate::link::{DeleteOutcome, Link};
use crate::store::{
    contains_code, has_link_with_id, lemma_delete_keeps_only_stored_records,
    remaining_after_delete, LinkStore,
};
use crate::validate::{valid_url, validate, ValidationError};

verus! {

/// The fixed length of every generated short alias.
pub const SHORT_CODE_LENGTH: usize = 5;

/// The service owns the store and holds no other state; each operation is a
/// single-shot transaction over it.
pub struct LinkService {
    pub store: LinkStore,
}

impl LinkService {
    /// Well-formedness: the owned store is well formed, and every stored
    /// URL passed the format rule when its link was created.
    pub open spec fn wf(&self) -> bool {
        &&& self.store.wf()
        &&& forall|i: int|
            0 <= i < self.store@.len() ==> valid_url((#[trigger] self.store@[i]).url@)
    }

    /// A service over an empty store.
    pub fn new() -> (s: LinkService)
        ensures
            s.wf(),
            s.store@ == Seq::<Link>::empty(),
            s.store.spec_next_id() == 1,
    {
        LinkService { store: LinkStore::new() }
    }

    /// Lists every stored link, in store order.
    pub fn get_all_links(&self) -> (r: Vec<Link>)
        ensures
            r@ == self.store@,
    {
        self.store.list()
    }

    /// Resolves a short code: the first stored link whose alias contains
    /// `code` as a substring, or nothing when no stored alias does.
    pub fn get_link(&self, code: &str) -> (r: Option<Link>)
        ensures
            match r {
                None => forall|i: int|
                    0 <= i < self.store@.len() ==> !contains_code(
                        (#[trigger] self.store@[i]).short_url@,
                        code@,
                    ),
                Some(l) => exists|i: int|
                    {
                        &&& 0 <= i < self.store@.len()
                        &&& self.store@[i] == l
                        &&& contains_code(l.short_url@, code@)
                        &&& forall|j: int|
                            0 <= j < i ==> !contains_code(
                                (#[trigger] self.store@[j]).short_url@,
                                code@,
                            )
                    },
            },
    {
        self.store.find_by_short_code(code)
    }

    /// Validates the submitted URL; on success generates a fresh alias of
    /// the fixed length and persists the pair, otherwise reports the
    /// validation error without touching the store.
    pub fn create_link(&mut self, url: String) -> (r: Result<Link, ValidationError>)
        requires
            old(self).wf(),
            old(self).store.spec_next_id() < i32::MAX,
        ensures
            final(self).wf(),
            r is Ok <==> valid_url(url@),
            r matches Err(e) ==> {
                &&& *final(self) == *old(self)
                &&& e.field@ == "url"@
                &&& e.message@ == "Url is not valid"@
            },
            r matches Ok(l) ==> {
                &&& l.url == url
                &&& l.short_url@.len() == SHORT_CODE_LENGTH
                &&& (forall|i: int|
                    0 <= i < l.short_url@.len() ==> spec_is_alphanumeric(l.short_url@[i]))
                &&& l.id == old(self).store.spec_next_id()
                &&& final(self).store@ == old(self).store@.push(l)
                &&& final(self).store.spec_next_id() == old(self).store.spec_next_id() + 1
            },
    {
        match validate(url.as_str()) {
            Err(e) => Err(e),
            Ok(()) => {
                let short_url = generate_random_characters(SHORT_CODE_LENGTH);
                let link = self.store.insert(url, short_url);
                Ok(link)
            },
        }
    }

    /// Deletes the link with the given id; reports one removed record when
    /// the id was stored and zero otherwise.
    pub fn delete_link(&mut self, id: i32) -> (r: DeleteOutcome)
        requires
            old(self).wf(),
        ensures
            final(self).wf(),
            final(self).store@ == remaining_after_delete(old(self).store@, id),
            final(self).store.spec_next_id() == old(self).store.spec_next_id(),
            r.rows_affected == (if has_link_with_id(old(self).store@, id) {
                1int
            } else {
                0int
            }),
            !has_link_with_id(final(self).store@, id),
    {
        let r = self.store.delete(id);
        proof {
            lemma_delete_keeps_only_stored_records(old(self).store@, id);
            assert forall|i: int| 0 <= i < self.store@.len() implies valid_url(
                (#[trigger] self.store@[i]).url@,
            ) by {
                let j = choose|j: int|
                    0 <= j < old(self).store@.len() && old(self).store@[j] == self.store@[i];
                assert(valid_url(old(self).store@[j].url@));
            }
        }
        r
    }
}

/// A link appended to the store's records is part of every listing taken
/// afterwards, and the listing grows by exactly one record.
pub proof fn lemma_created_link_listed(links: Seq<Link>, l: Link)
    ensures
        links.push(l).contains(l),
        links.push(l).len() == links.len() + 1,
{
    assert(links.push(l)[links.len() as int] == l);
}

} // verus!

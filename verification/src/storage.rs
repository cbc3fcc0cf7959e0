//! The storage capability and its volatile backend.

use crate::model::{
    added_somewhere, after_create, create_answer, delete_answer, get_answer, has_key, inserted,
    key_index, lemma_inserted_well_formed, lemma_key_index_unique, lemma_newer_count,
    lemma_lookup_after_insert, lemma_lookup_after_remove, lemma_with_url_well_formed,
    lemma_without_well_formed, link_answer, lookup, newer_count,
    retargeted, update_answer, well_formed, with_url, without,
};
use crate::paging::{page_of, page_window};
use crate::service::{Golink, GolinkView};
use crate::text::{same_text, sorts_before, text_sorts_before};
use vstd::prelude::*;

verus! {

/// Why a storage operation did not succeed.
#[derive(Debug)]
pub enum StorageError {
    /// No link is stored under the key.
    NotFound,
    /// A link is already stored under the key.
    AlreadyExists,
    /// The backend itself failed; the text is its own account of the fault.
    DatabaseError(String),
}

/// The result of a storage operation.
pub type StorageResult<T> = Result<T, StorageError>;

/// What every storage backend offers.
///
/// A backend is modelled by its listing: the stored links, newest first. A
/// backend whose `faultless` holds never reports a `DatabaseError`; for any
/// other, a fault may come at any call and leaves the listing as it was,
/// except in `update`, where the new URL may already be stored.
pub trait GoStorage {
    /// The stored links in listing order.
    spec fn listing(&self) -> Seq<GolinkView>;

    /// Whether this backend never fails on its own account.
    spec fn faultless(&self) -> bool;

    /// Stores `golink` unless its short link is taken.
    fn create(&mut self, golink: Golink) -> (r: StorageResult<()>)
        ensures
            well_formed(old(self).listing()),
            well_formed(final(self).listing()),
            final(self).faultless() == old(self).faultless(),
            match r {
                Ok(_) => {
                    &&& !has_key(old(self).listing(), golink@.short_link)
                    &&& added_somewhere(old(self).listing(), golink@, final(self).listing())
                    &&& lookup(final(self).listing(), golink@.short_link) == Some(golink@)
                },
                Err(StorageError::AlreadyExists) => has_key(
                    old(self).listing(),
                    golink@.short_link,
                ) && final(self).listing() == old(self).listing(),
                Err(StorageError::DatabaseError(_)) => {
                    &&& !old(self).faultless()
                    &&& final(self).listing() == old(self).listing()
                },
                Err(StorageError::NotFound) => false,
            },
    ;

    /// The link stored under `short_link`.
    fn get(&self, short_link: &str) -> (r: StorageResult<Golink>)
        ensures
            well_formed(self.listing()),
            match r {
                Ok(g) => lookup(self.listing(), short_link@) == Some(g@),
                Err(StorageError::NotFound) => !has_key(self.listing(), short_link@),
                Err(StorageError::DatabaseError(_)) => !self.faultless(),
                Err(StorageError::AlreadyExists) => false,
            },
    ;

    /// All stored links, newest first.
    fn get_all(&self) -> (r: StorageResult<Vec<Golink>>)
        ensures
            well_formed(self.listing()),
            match r {
                Ok(links) => links.deep_view() == self.listing(),
                Err(StorageError::DatabaseError(_)) => !self.faultless(),
                Err(_) => false,
            },
    ;

    /// One page of the listing, and the number of stored links. The page
    /// number is brought to at least 1 and the page size into the range from 1
    /// to 100; a page behind the end of the listing is empty.
    fn get_paginated(&self, page: usize, page_size: usize) -> (r: StorageResult<
        (Vec<Golink>, usize),
    >)
        ensures
            well_formed(self.listing()),
            match r {
                Ok((links, total)) => {
                    &&& total == self.listing().len()
                    &&& links.deep_view() == page_of(
                        self.listing(),
                        page as int,
                        page_size as int,
                    )
                },
                Err(StorageError::DatabaseError(_)) => !self.faultless(),
                Err(_) => false,
            },
    ;

    /// Replaces the URL of the link stored under `short_link` and returns the
    /// link as it is stored afterwards.
    fn update(&mut self, short_link: &str, url: String) -> (r: StorageResult<Golink>)
        ensures
            well_formed(old(self).listing()),
            well_formed(final(self).listing()),
            final(self).faultless() == old(self).faultless(),
            match r {
                Ok(g) => {
                    &&& has_key(old(self).listing(), short_link@)
                    &&& final(self).listing() == with_url(old(self).listing(), short_link@, url@)
                    &&& Some(g@) == lookup(final(self).listing(), short_link@)
                    &&& g@ == retargeted(lookup(old(self).listing(), short_link@)->Some_0, url@)
                },
                Err(StorageError::NotFound) => {
                    &&& !has_key(old(self).listing(), short_link@)
                    &&& final(self).listing() == old(self).listing()
                },
                Err(StorageError::DatabaseError(_)) => {
                    &&& !old(self).faultless()
                    &&& (final(self).listing() == old(self).listing() || final(self).listing()
                        == with_url(old(self).listing(), short_link@, url@))
                },
                Err(StorageError::AlreadyExists) => false,
            },
    ;

    /// Removes the link stored under `short_link`.
    fn delete(&mut self, short_link: &str) -> (r: StorageResult<()>)
        ensures
            well_formed(old(self).listing()),
            well_formed(final(self).listing()),
            final(self).faultless() == old(self).faultless(),
            match r {
                Ok(_) => {
                    &&& has_key(old(self).listing(), short_link@)
                    &&& final(self).listing() == without(old(self).listing(), short_link@)
                    &&& !has_key(final(self).listing(), short_link@)
                },
                Err(StorageError::NotFound) => {
                    &&& !has_key(old(self).listing(), short_link@)
                    &&& final(self).listing() == old(self).listing()
                },
                Err(StorageError::DatabaseError(_)) => {
                    &&& !old(self).faultless()
                    &&& final(self).listing() == old(self).listing()
                },
                Err(StorageError::AlreadyExists) => false,
            },
    ;

    /// Whether a link is stored under `short_link`.
    fn link_exists(&self, short_link: &str) -> (r: StorageResult<bool>)
        ensures
            well_formed(self.listing()),
            match r {
                Ok(found) => found == has_key(self.listing(), short_link@),
                Err(StorageError::DatabaseError(_)) => !self.faultless(),
                Err(_) => false,
            },
    ;
}

/// The volatile backend: all links in memory, kept in listing order.
pub struct HashMapStorage {
    links: Vec<Golink>,
}

impl View for HashMapStorage {
    type V = Seq<GolinkView>;

    closed spec fn view(&self) -> Seq<GolinkView> {
        self.links.deep_view()
    }
}

impl HashMapStorage {
    #[verifier::type_invariant]
    closed spec fn inv(self) -> bool {
        well_formed(self@)
    }

    /// An empty store.
    pub fn new() -> (r: Self)
        ensures
            r@ == Seq::<GolinkView>::empty(),
    {
        let r = HashMapStorage { links: Vec::new() };
        assert(r@ =~= Seq::<GolinkView>::empty());
        r
    }

    /// Copies of the links at the positions from `start` up to `end`.
    fn copy_range(&self, start: usize, end: usize) -> (r: Vec<Golink>)
        requires
            start <= end <= self@.len(),
        ensures
            r.deep_view() == self@.subrange(start as int, end as int),
    {
        let mut out: Vec<Golink> = Vec::new();
        let mut i: usize = start;
        while i < end
            invariant
                start <= i <= end,
                end <= self.links.len(),
                out.len() == i - start,
                forall|j: int| 0 <= j < out.len() ==> (#[trigger] out@[j])@ == self@[start + j],
            decreases end - i,
        {
            out.push(self.links[i].clone());
            i = i + 1;
        }
        proof {
            assert(out.deep_view() =~= self@.subrange(start as int, end as int));
        }
        out
    }

    /// The position of the link stored under `key`.
    fn position(&self, key: &str) -> (r: Option<usize>)
        ensures
            match r {
                Some(i) => has_key(self@, key@) && i == key_index(self@, key@) && i
                    < self.links.len(),
                None => !has_key(self@, key@),
            },
    {
        proof {
            use_type_invariant(self);
        }
        let mut i: usize = 0;
        while i < self.links.len()
            invariant
                0 <= i <= self.links.len(),
                well_formed(self@),
                forall|j: int| 0 <= j < i ==> (#[trigger] self@[j]).short_link != key@,
            decreases self.links.len() - i,
        {
            if same_text(self.links[i].short_link.as_str(), key) {
                proof {
                    assert(self@[i as int].short_link == key@);
                    lemma_key_index_unique(self@, key@, i as int);
                }
                return Some(i);
            }
            i = i + 1;
        }
        None
    }
}

impl GoStorage for HashMapStorage {
    open spec fn listing(&self) -> Seq<GolinkView> {
        self@
    }

    open spec fn faultless(&self) -> bool {
        true
    }

    fn create(&mut self, golink: Golink) -> (r: StorageResult<()>)
        ensures
            r == create_answer(old(self)@, golink@),
            final(self)@ == after_create(old(self)@, golink@),
    {
        proof {
            use_type_invariant(&*self);
        }
        if self.position(golink.short_link.as_str()).is_some() {
            return Err(StorageError::AlreadyExists);
        }
        let mut p: usize = 0;
        while p < self.links.len() && text_sorts_before(
            golink.created_at.as_str(),
            self.links[p].created_at.as_str(),
        )
            invariant
                0 <= p <= self.links.len(),
                self@ == old(self)@,
                forall|j: int|
                    0 <= j < p ==> sorts_before(
                        golink@.created_at,
                        (#[trigger] self@[j]).created_at,
                    ),
            decreases self.links.len() - p,
        {
            p = p + 1;
        }
        let mut links: Vec<Golink> = Vec::new();
        core::mem::swap(&mut self.links, &mut links);
        links.insert(p, golink);
        proof {
            lemma_newer_count_is(old(self)@, golink@.created_at, p as int);
            lemma_inserted_well_formed(old(self)@, golink@);
            assert(links.deep_view() =~= inserted(old(self)@, golink@));
            lemma_lookup_after_insert(old(self)@, golink@, p as int, golink@.short_link);
        }
        self.links = links;
        Ok(())
    }

    fn get(&self, short_link: &str) -> (r: StorageResult<Golink>)
        ensures
            link_answer(r) == get_answer(self@, short_link@),
    {
        proof {
            use_type_invariant(self);
        }
        match self.position(short_link) {
            Some(i) => Ok(self.links[i].clone()),
            None => Err(StorageError::NotFound),
        }
    }

    fn get_all(&self) -> (r: StorageResult<Vec<Golink>>)
        ensures
            r is Ok,
    {
        proof {
            use_type_invariant(self);
        }
        Ok(self.copy_range(0, self.links.len()))
    }

    fn get_paginated(&self, page: usize, page_size: usize) -> (r: StorageResult<
        (Vec<Golink>, usize),
    >)
        ensures
            r is Ok,
    {
        proof {
            use_type_invariant(self);
        }
        let total = self.links.len();
        let (start, end) = page_window(page, page_size, total);
        Ok((self.copy_range(start, end), total))
    }

    fn update(&mut self, short_link: &str, url: String) -> (r: StorageResult<Golink>)
        ensures
            link_answer(r) == update_answer(old(self)@, short_link@, url@),
            final(self)@ == with_url(old(self)@, short_link@, url@),
    {
        proof {
            use_type_invariant(&*self);
        }
        match self.position(short_link) {
            None => Err(StorageError::NotFound),
            Some(i) => {
                let mut links: Vec<Golink> = Vec::new();
                core::mem::swap(&mut self.links, &mut links);
                links[i].url = url;
                let updated = links[i].clone();
                proof {
                    lemma_with_url_well_formed(old(self)@, short_link@, url@);
                    assert(links.deep_view() =~= with_url(old(self)@, short_link@, url@));
                    lemma_key_index_unique(links.deep_view(), short_link@, i as int);
                }
                self.links = links;
                Ok(updated)
            },
        }
    }

    fn delete(&mut self, short_link: &str) -> (r: StorageResult<()>)
        ensures
            r == delete_answer(old(self)@, short_link@),
            final(self)@ == without(old(self)@, short_link@),
    {
        proof {
            use_type_invariant(&*self);
        }
        match self.position(short_link) {
            None => Err(StorageError::NotFound),
            Some(i) => {
                let mut links: Vec<Golink> = Vec::new();
                core::mem::swap(&mut self.links, &mut links);
                let _ = links.remove(i);
                proof {
                    lemma_without_well_formed(old(self)@, short_link@);
                    lemma_lookup_after_remove(old(self)@, short_link@, short_link@);
                    assert(links.deep_view() =~= without(old(self)@, short_link@));
                }
                self.links = links;
                Ok(())
            },
        }
    }

    fn link_exists(&self, short_link: &str) -> (r: StorageResult<bool>)
        ensures
            r is Ok,
    {
        proof {
            use_type_invariant(self);
        }
        Ok(self.position(short_link).is_some())
    }
}

/// `p` is the number of strictly newer links at the front of `s` if it
/// separates them from the rest.
proof fn lemma_newer_count_is(s: Seq<GolinkView>, created_at: Seq<char>, p: int)
    requires
        0 <= p <= s.len(),
        forall|j: int| 0 <= j < p ==> sorts_before(created_at, (#[trigger] s[j]).created_at),
        p < s.len() ==> !sorts_before(created_at, s[p].created_at),
    ensures
        newer_count(s, created_at) == p,
{
    lemma_newer_count(s, created_at);
    let n = newer_count(s, created_at);
    if n < p {
        assert(sorts_before(created_at, s[n].created_at));
    } else if p < n {
        assert(sorts_before(created_at, s[p].created_at));
    }
}

} // verus!

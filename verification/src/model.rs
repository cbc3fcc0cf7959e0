//! The mathematical model of a store: a listing of links, newest first, and
//! what each storage operation makes of it.

use crate::service::{Golink, GolinkView};
use crate::storage::{StorageError, StorageResult};
use crate::text::{lemma_sorts_before_chain, sorts_before};
use vstd::prelude::*;

verus! {

/// Some link of the listing has the short link `key`.
pub open spec fn has_key(s: Seq<GolinkView>, key: Seq<char>) -> bool {
    exists|i: int| 0 <= i < s.len() && (#[trigger] s[i]).short_link == key
}

/// A position at which the listing holds the short link `key`, where there is one.
pub open spec fn key_index(s: Seq<GolinkView>, key: Seq<char>) -> int {
    choose|i: int| 0 <= i < s.len() && (#[trigger] s[i]).short_link == key
}

/// The link stored under `key`, if any.
pub open spec fn lookup(s: Seq<GolinkView>, key: Seq<char>) -> Option<GolinkView> {
    if has_key(s, key) {
        Some(s[key_index(s, key)])
    } else {
        None
    }
}

/// No two links of the listing share a short link.
pub open spec fn distinct_keys(s: Seq<GolinkView>) -> bool {
    forall|i: int, j: int|
        0 <= i < j < s.len() ==> (#[trigger] s[i]).short_link != (#[trigger] s[j]).short_link
}

/// The listing is in descending order of creation time: no link is followed
/// by one whose timestamp sorts after its own.
pub open spec fn newest_first(s: Seq<GolinkView>) -> bool {
    forall|i: int, j: int|
        0 <= i < j < s.len() ==> !sorts_before(
            (#[trigger] s[i]).created_at,
            (#[trigger] s[j]).created_at,
        )
}

/// What every store guarantees of its listing.
pub open spec fn well_formed(s: Seq<GolinkView>) -> bool {
    distinct_keys(s) && newest_first(s)
}

/// How many links at the front of the listing are strictly newer than
/// `created_at`.
pub open spec fn newer_count(s: Seq<GolinkView>, created_at: Seq<char>) -> int
    decreases s.len(),
{
    if s.len() > 0 && sorts_before(created_at, s[0].created_at) {
        1 + newer_count(s.drop_first(), created_at)
    } else {
        0
    }
}

/// The listing with `g` added: behind the links that are strictly newer, and
/// in front of all others, those with an equal timestamp included.
pub open spec fn inserted(s: Seq<GolinkView>, g: GolinkView) -> Seq<GolinkView> {
    s.insert(newer_count(s, g.created_at), g)
}

/// `after` is `before` with `g` added at some position.
pub open spec fn added_somewhere(
    before: Seq<GolinkView>,
    g: GolinkView,
    after: Seq<GolinkView>,
) -> bool {
    exists|p: int| 0 <= p <= before.len() && after == #[trigger] before.insert(p, g)
}

/// The link `g` with its URL replaced.
pub open spec fn retargeted(g: GolinkView, url: Seq<char>) -> GolinkView {
    GolinkView { url: url, ..g }
}

/// The listing with the URL of the link under `key` replaced; unchanged where
/// there is no such link.
pub open spec fn with_url(s: Seq<GolinkView>, key: Seq<char>, url: Seq<char>) -> Seq<GolinkView> {
    if has_key(s, key) {
        s.update(key_index(s, key), retargeted(s[key_index(s, key)], url))
    } else {
        s
    }
}

/// The listing without the link under `key`; unchanged where there is no such
/// link.
pub open spec fn without(s: Seq<GolinkView>, key: Seq<char>) -> Seq<GolinkView> {
    if has_key(s, key) {
        s.remove(key_index(s, key))
    } else {
        s
    }
}

/// What a backend that cannot fail answers to a create of `g`.
pub open spec fn create_answer(s: Seq<GolinkView>, g: GolinkView) -> StorageResult<()> {
    if has_key(s, g.short_link) {
        Err(StorageError::AlreadyExists)
    } else {
        Ok(())
    }
}

/// The listing after a create of `g` in the volatile backend.
pub open spec fn after_create(s: Seq<GolinkView>, g: GolinkView) -> Seq<GolinkView> {
    if has_key(s, g.short_link) {
        s
    } else {
        inserted(s, g)
    }
}

/// What a backend that cannot fail answers to a read of `key`.
pub open spec fn get_answer(s: Seq<GolinkView>, key: Seq<char>) -> Result<
    GolinkView,
    StorageError,
> {
    match lookup(s, key) {
        Some(g) => Ok(g),
        None => Err(StorageError::NotFound),
    }
}

/// What a backend that cannot fail answers to an update of the URL under `key`.
pub open spec fn update_answer(s: Seq<GolinkView>, key: Seq<char>, url: Seq<char>) -> Result<
    GolinkView,
    StorageError,
> {
    match lookup(s, key) {
        Some(g) => Ok(retargeted(g, url)),
        None => Err(StorageError::NotFound),
    }
}

/// What a backend that cannot fail answers to a delete of `key`.
pub open spec fn delete_answer(s: Seq<GolinkView>, key: Seq<char>) -> StorageResult<()> {
    if has_key(s, key) {
        Ok(())
    } else {
        Err(StorageError::NotFound)
    }
}

/// An answer that carries a link, with the link taken by its view.
pub open spec fn link_answer(r: StorageResult<Golink>) -> Result<GolinkView, StorageError> {
    match r {
        Ok(g) => Ok(g@),
        Err(e) => Err(e),
    }
}

/// The listing after one create for each link of `gs`, in that order.
pub open spec fn after_creates(s: Seq<GolinkView>, gs: Seq<GolinkView>) -> Seq<GolinkView>
    decreases gs.len(),
{
    if gs.len() == 0 {
        s
    } else {
        after_create(after_creates(s, gs.drop_last()), gs.last())
    }
}

/// Whether each of the creates for the links of `gs`, made in that order,
/// succeeds.
pub open spec fn creates_succeed(s: Seq<GolinkView>, gs: Seq<GolinkView>) -> bool
    decreases gs.len(),
{
    gs.len() > 0 ==> creates_succeed(s, gs.drop_last()) && create_answer(
        after_creates(s, gs.drop_last()),
        gs.last(),
    ) is Ok
}

/// Where keys are distinct, a key has one position only.
pub proof fn lemma_key_index_unique(s: Seq<GolinkView>, key: Seq<char>, i: int)
    requires
        distinct_keys(s),
        0 <= i < s.len(),
        s[i].short_link == key,
    ensures
        has_key(s, key),
        key_index(s, key) == i,
{
    let j = key_index(s, key);
    assert(0 <= j < s.len() && s[j].short_link == key);
    if i < j {
        assert(s[i].short_link != s[j].short_link);
    } else if j < i {
        assert(s[j].short_link != s[i].short_link);
    }
}

/// The bounds of `newer_count`, and what it separates.
pub proof fn lemma_newer_count(s: Seq<GolinkView>, created_at: Seq<char>)
    ensures
        0 <= newer_count(s, created_at) <= s.len(),
        forall|i: int|
            0 <= i < newer_count(s, created_at) ==> sorts_before(
                created_at,
                (#[trigger] s[i]).created_at,
            ),
        newer_count(s, created_at) < s.len() ==> !sorts_before(
            created_at,
            s[newer_count(s, created_at)].created_at,
        ),
    decreases s.len(),
{
    if s.len() > 0 && sorts_before(created_at, s[0].created_at) {
        let t = s.drop_first();
        lemma_newer_count(t, created_at);
        let n = newer_count(t, created_at);
        assert forall|i: int| 0 <= i < n + 1 implies sorts_before(
            created_at,
            (#[trigger] s[i]).created_at,
        ) by {
            if i > 0 {
                assert(s[i] == t[i - 1]);
            }
        }
        if n + 1 < s.len() {
            assert(s[n + 1] == t[n]);
        }
    }
}

/// Adding a link under a fresh key keeps the listing well formed.
pub proof fn lemma_inserted_well_formed(s: Seq<GolinkView>, g: GolinkView)
    requires
        well_formed(s),
        !has_key(s, g.short_link),
    ensures
        well_formed(inserted(s, g)),
{
    let p = newer_count(s, g.created_at);
    let t = inserted(s, g);
    lemma_newer_count(s, g.created_at);
    assert forall|i: int, j: int| 0 <= i < j < t.len() implies (#[trigger] t[i]).short_link != (
    #[trigger] t[j]).short_link by {
        let oi = if i < p { i } else { i - 1 };
        let oj = if j < p { j } else { j - 1 };
        if i == p {
            assert(s[oj].short_link != g.short_link);
        } else if j == p {
            assert(s[oi].short_link != g.short_link);
        } else {
            assert(s[oi].short_link != s[oj].short_link);
        }
    }
    assert forall|i: int, j: int| 0 <= i < j < t.len() implies !sorts_before(
        (#[trigger] t[i]).created_at,
        (#[trigger] t[j]).created_at,
    ) by {
        let oi = if i < p { i } else { i - 1 };
        let oj = if j < p { j } else { j - 1 };
        if i == p {
            // `g` is not older than the link at `p`, which is not older than
            // any link behind it.
            if sorts_before(g.created_at, s[oj].created_at) {
                if oj > p {
                    assert(!sorts_before(s[p].created_at, s[oj].created_at));
                    lemma_sorts_before_chain(g.created_at, s[oj].created_at, s[p].created_at);
                }
            }
        } else if j == p {
            assert(sorts_before(g.created_at, s[oi].created_at));
            if sorts_before(s[oi].created_at, g.created_at) {
                crate::text::lemma_sorts_before_asymmetric(s[oi].created_at, g.created_at);
            }
        } else {
            assert(!sorts_before(s[oi].created_at, s[oj].created_at));
        }
    }
}

/// Replacing a URL keeps the listing well formed.
pub proof fn lemma_with_url_well_formed(s: Seq<GolinkView>, key: Seq<char>, url: Seq<char>)
    requires
        well_formed(s),
    ensures
        well_formed(with_url(s, key, url)),
{
    if has_key(s, key) {
        let t = with_url(s, key, url);
        assert forall|i: int, j: int| 0 <= i < j < t.len() implies (#[trigger] t[i]).short_link != (
        #[trigger] t[j]).short_link by {
            assert(s[i].short_link != s[j].short_link);
        }
        assert forall|i: int, j: int| 0 <= i < j < t.len() implies !sorts_before(
            (#[trigger] t[i]).created_at,
            (#[trigger] t[j]).created_at,
        ) by {
            assert(!sorts_before(s[i].created_at, s[j].created_at));
        }
    }
}

/// Removing a link keeps the listing well formed.
pub proof fn lemma_without_well_formed(s: Seq<GolinkView>, key: Seq<char>)
    requires
        well_formed(s),
    ensures
        well_formed(without(s, key)),
{
    if has_key(s, key) {
        let p = key_index(s, key);
        let t = without(s, key);
        assert forall|i: int, j: int| 0 <= i < j < t.len() implies (#[trigger] t[i]).short_link != (
        #[trigger] t[j]).short_link by {
            let oi = if i < p { i } else { i + 1 };
            let oj = if j < p { j } else { j + 1 };
            assert(s[oi].short_link != s[oj].short_link);
        }
        assert forall|i: int, j: int| 0 <= i < j < t.len() implies !sorts_before(
            (#[trigger] t[i]).created_at,
            (#[trigger] t[j]).created_at,
        ) by {
            let oi = if i < p { i } else { i + 1 };
            let oj = if j < p { j } else { j + 1 };
            assert(!sorts_before(s[oi].created_at, s[oj].created_at));
        }
    }
}

/// Adding `g` at any position makes its key present and leaves every other
/// key as it was.
pub proof fn lemma_lookup_after_insert(s: Seq<GolinkView>, g: GolinkView, p: int, key: Seq<char>)
    requires
        well_formed(s),
        !has_key(s, g.short_link),
        0 <= p <= s.len(),
        distinct_keys(s.insert(p, g)),
    ensures
        has_key(s.insert(p, g), key) <==> key == g.short_link || has_key(s, key),
        lookup(s.insert(p, g), key) == if key == g.short_link {
            Some(g)
        } else {
            lookup(s, key)
        },
{
    let t = s.insert(p, g);
    assert(t[p] == g);
    if key == g.short_link {
        lemma_key_index_unique(t, key, p);
    } else if has_key(s, key) {
        let i = key_index(s, key);
        let ti = if i < p { i } else { i + 1 };
        assert(t[ti] == s[i]);
        lemma_key_index_unique(t, key, ti);
    } else if has_key(t, key) {
        let ti = key_index(t, key);
        let i = if ti < p { ti } else { ti - 1 };
        assert(s[i] == t[ti]);
    }
}

/// Replacing the URL under `key` changes the link under `key` and no other.
pub proof fn lemma_lookup_after_update(
    s: Seq<GolinkView>,
    key: Seq<char>,
    url: Seq<char>,
    other: Seq<char>,
)
    requires
        well_formed(s),
    ensures
        has_key(with_url(s, key, url), other) <==> has_key(s, other),
        lookup(with_url(s, key, url), other) == if other == key && has_key(s, key) {
            Some(retargeted(lookup(s, key)->Some_0, url))
        } else {
            lookup(s, other)
        },
{
    let t = with_url(s, key, url);
    lemma_with_url_well_formed(s, key, url);
    if has_key(s, key) {
        let p = key_index(s, key);
        if has_key(s, other) {
            let i = key_index(s, other);
            assert(t[i].short_link == other);
            lemma_key_index_unique(t, other, i);
            if other == key {
                lemma_key_index_unique(s, key, i);
            } else {
                assert(i != p);
            }
        } else if has_key(t, other) {
            let i = key_index(t, other);
            assert(s[i].short_link == other);
        }
    }
}

/// Removing the link under `key` makes `key` absent and leaves every other
/// key as it was.
pub proof fn lemma_lookup_after_remove(s: Seq<GolinkView>, key: Seq<char>, other: Seq<char>)
    requires
        well_formed(s),
    ensures
        has_key(without(s, key), other) <==> other != key && has_key(s, other),
        lookup(without(s, key), other) == if other == key {
            None
        } else {
            lookup(s, other)
        },
{
    let t = without(s, key);
    lemma_without_well_formed(s, key);
    if has_key(s, key) {
        let p = key_index(s, key);
        if has_key(t, other) {
            let ti = key_index(t, other);
            let i = if ti < p { ti } else { ti + 1 };
            assert(s[i] == t[ti]);
            lemma_key_index_unique(s, other, i);
            if other == key {
                lemma_key_index_unique(s, key, p);
            }
        } else if has_key(s, other) && other != key {
            let i = key_index(s, other);
            assert(i != p);
            let ti = if i < p { i } else { i - 1 };
            assert(t[ti] == s[i]);
        }
    }
}

/// A create keeps the listing well formed, whether it is accepted or not.
pub proof fn lemma_after_create_well_formed(s: Seq<GolinkView>, g: GolinkView)
    requires
        well_formed(s),
    ensures
        well_formed(after_create(s, g)),
        after_create(s, g).len() == s.len() + if has_key(s, g.short_link) {
            0int
        } else {
            1int
        },
{
    if !has_key(s, g.short_link) {
        lemma_inserted_well_formed(s, g);
        lemma_newer_count(s, g.created_at);
    }
}

/// After a create the key is present with the link that was created, or,
/// where the key was taken, with the link that held it; every other key is
/// as it was.
pub proof fn lemma_lookup_after_create(s: Seq<GolinkView>, g: GolinkView, key: Seq<char>)
    requires
        well_formed(s),
    ensures
        has_key(after_create(s, g), key) <==> key == g.short_link || has_key(s, key),
        lookup(after_create(s, g), key) == if key == g.short_link && !has_key(s, key) {
            Some(g)
        } else {
            lookup(s, key)
        },
{
    if !has_key(s, g.short_link) {
        lemma_inserted_well_formed(s, g);
        lemma_newer_count(s, g.created_at);
        lemma_lookup_after_insert(s, g, newer_count(s, g.created_at), key);
    }
}

/// A short link can be created once. Where a create was accepted, a second
/// create under the same short link is turned away as a duplicate and changes
/// nothing: the link read back is the first one, with the first URL.
pub proof fn lemma_second_create_is_duplicate(
    s: Seq<GolinkView>,
    first: GolinkView,
    second: GolinkView,
)
    requires
        well_formed(s),
        create_answer(s, first) is Ok,
        second.short_link == first.short_link,
    ensures
        create_answer(after_create(s, first), second) == Err::<(), StorageError>(
            StorageError::AlreadyExists,
        ),
        after_create(after_create(s, first), second) == after_create(s, first),
        get_answer(after_create(after_create(s, first), second), first.short_link) == Ok::<
            GolinkView,
            StorageError,
        >(first),
{
    lemma_lookup_after_create(s, first, first.short_link);
}

/// A link that was created is read back as it was stored, and reading
/// changes nothing, so that every later read gives the same link.
pub proof fn lemma_create_then_get(s: Seq<GolinkView>, g: GolinkView)
    requires
        well_formed(s),
        create_answer(s, g) is Ok,
    ensures
        get_answer(after_create(s, g), g.short_link) == Ok::<GolinkView, StorageError>(g),
{
    lemma_lookup_after_create(s, g, g.short_link);
}

/// An update of a stored link answers with the link as it was but for the
/// new URL, and that is what is read back afterwards; every other link is as
/// it was and none is added. An update of an absent key answers that nothing
/// was found and changes nothing.
pub proof fn lemma_update_changes_url_only(
    s: Seq<GolinkView>,
    key: Seq<char>,
    url: Seq<char>,
    other: Seq<char>,
)
    requires
        well_formed(s),
    ensures
        with_url(s, key, url).len() == s.len(),
        match lookup(s, key) {
            Some(g) => {
                &&& update_answer(s, key, url) == Ok::<GolinkView, StorageError>(
                    GolinkView {
                        id: g.id,
                        short_link: g.short_link,
                        url: url,
                        created_at: g.created_at,
                    },
                )
                &&& get_answer(with_url(s, key, url), key) == update_answer(s, key, url)
            },
            None => {
                &&& update_answer(s, key, url) == Err::<GolinkView, StorageError>(
                    StorageError::NotFound,
                )
                &&& with_url(s, key, url) == s
            },
        },
        other != key ==> get_answer(with_url(s, key, url), other) == get_answer(s, other),
{
    lemma_lookup_after_update(s, key, url, key);
    lemma_lookup_after_update(s, key, url, other);
}

/// After a delete of a stored link a read of its key finds nothing, and
/// every other link is as it was. A delete of an absent key answers that
/// nothing was found and changes nothing.
pub proof fn lemma_delete_then_get(s: Seq<GolinkView>, key: Seq<char>, other: Seq<char>)
    requires
        well_formed(s),
    ensures
        get_answer(without(s, key), key) == Err::<GolinkView, StorageError>(
            StorageError::NotFound,
        ),
        has_key(s, key) ==> delete_answer(s, key) is Ok && without(s, key).len() == s.len() - 1,
        !has_key(s, key) ==> delete_answer(s, key) == Err::<(), StorageError>(
            StorageError::NotFound,
        ) && without(s, key) == s,
        other != key ==> get_answer(without(s, key), other) == get_answer(s, other),
{
    lemma_lookup_after_remove(s, key, key);
    lemma_lookup_after_remove(s, key, other);
}

/// Creates under short links that differ from one another and from those
/// already stored all succeed, in whatever order they arrive, and none is
/// lost: the listing grows by one link for each, and each can be read back.
pub proof fn lemma_creates_with_fresh_keys(s: Seq<GolinkView>, gs: Seq<GolinkView>)
    requires
        well_formed(s),
        distinct_keys(gs),
        forall|i: int| 0 <= i < gs.len() ==> !has_key(s, (#[trigger] gs[i]).short_link),
    ensures
        creates_succeed(s, gs),
        well_formed(after_creates(s, gs)),
        after_creates(s, gs).len() == s.len() + gs.len(),
        forall|i: int|
            0 <= i < gs.len() ==> lookup(after_creates(s, gs), (#[trigger] gs[i]).short_link)
                == Some(gs[i]),
        forall|key: Seq<char>|
            has_key(after_creates(s, gs), key) <==> has_key(s, key) || has_key(gs, key),
    decreases gs.len(),
{
    if gs.len() > 0 {
        let front = gs.drop_last();
        let g = gs.last();
        let t = after_creates(s, front);
        assert forall|i: int| 0 <= i < front.len() implies !has_key(
            s,
            (#[trigger] front[i]).short_link,
        ) by {
            assert(front[i] == gs[i]);
        }
        assert(distinct_keys(front)) by {
            assert forall|i: int, j: int| 0 <= i < j < front.len() implies (
            #[trigger] front[i]).short_link != (#[trigger] front[j]).short_link by {
                assert(front[i] == gs[i] && front[j] == gs[j]);
            }
        }
        lemma_creates_with_fresh_keys(s, front);
        assert(!has_key(front, g.short_link)) by {
            if has_key(front, g.short_link) {
                let i = key_index(front, g.short_link);
                assert(gs[i].short_link != gs[gs.len() - 1].short_link);
            }
        }
        assert(!has_key(t, g.short_link));
        lemma_after_create_well_formed(t, g);
        assert forall|i: int| 0 <= i < gs.len() implies lookup(
            after_creates(s, gs),
            (#[trigger] gs[i]).short_link,
        ) == Some(gs[i]) by {
            lemma_lookup_after_create(t, g, gs[i].short_link);
            if i < gs.len() - 1 {
                assert(front[i] == gs[i]);
                assert(gs[i].short_link != gs[gs.len() - 1].short_link);
            }
        }
        assert forall|key: Seq<char>|
            has_key(after_creates(s, gs), key) <==> has_key(s, key) || has_key(gs, key) by {
            lemma_lookup_after_create(t, g, key);
            if has_key(front, key) {
                let i = key_index(front, key);
                assert(gs[i].short_link == key);
            }
            if has_key(gs, key) && key != g.short_link {
                let i = key_index(gs, key);
                assert(front[i].short_link == key);
            }
            if key == g.short_link {
                assert(gs[gs.len() - 1].short_link == key);
            }
        }
    }
}

} // verus!

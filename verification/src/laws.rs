//! The catalog's laws: properties of the store's transitions that hold
//! for every well-formed store and every record, proved once and for all.

use vstd::prelude::*;

use crate::db::{
    delete_state, has_id, has_url, idx_of_id, idx_of_url, lemma_delete_preserves_wf,
    lemma_upsert_preserves_wf, merged, upsert_row, upsert_state, StoreView,
};
use crate::podcast::PodcastView;

verus! {

/// Exactly one row holds this URL: one does, and any two that do coincide.
pub open spec fn exactly_one_with_url(rows: Seq<PodcastView>, url: Seq<char>) -> bool {
    &&& has_url(rows, url)
    &&& forall|i: int, j: int|
        0 <= i < rows.len() && 0 <= j < rows.len() && (#[trigger] rows[i]).url == url && (
        #[trigger] rows[j]).url == url ==> i == j
}

/// Uniqueness: two upserts of records sharing one URL leave exactly one
/// row with that URL, the second upsert adds no row, and it returns the
/// identifier the first upsert assigned.
pub proof fn lemma_upsert_same_url_unique(s: StoreView, p1: PodcastView, p2: PodcastView)
    requires
        s.wf(),
        p1.url == p2.url,
    ensures
        upsert_state(upsert_state(s, p1), p2).rows.len() == upsert_state(s, p1).rows.len(),
        exactly_one_with_url(upsert_state(upsert_state(s, p1), p2).rows, p2.url),
        upsert_row(upsert_state(s, p1), p2).id == upsert_row(s, p1).id,
{
    lemma_refetch_merges(s, p1, p2);
    let s1 = upsert_state(s, p1);
    let s2 = upsert_state(s1, p2);
    lemma_upsert_preserves_wf(s, p1);
    lemma_upsert_preserves_wf(s1, p2);
    let w = idx_of_url(s1.rows, p2.url);
    assert(0 <= w < s1.rows.len() && s1.rows[w].url == p2.url);
    assert(s2.rows[w].url == p2.url);
}

/// Idempotent re-fetch: upserting a second record with the same URL
/// merges into the row the first upsert touched. The returned record
/// keeps the first record's identifier and URL, every other field comes
/// from the second record, and the store holds it at that URL.
pub proof fn lemma_refetch_merges(s: StoreView, p1: PodcastView, p2: PodcastView)
    requires
        s.wf(),
        p1.url == p2.url,
    ensures
        upsert_row(upsert_state(s, p1), p2) == merged(upsert_row(s, p1), p2),
        has_url(upsert_state(s, p1).rows, p2.url),
        ({
            let s2 = upsert_state(upsert_state(s, p1), p2);
            s2.rows[idx_of_url(s2.rows, p2.url)] == merged(upsert_row(s, p1), p2)
        }),
{
    let s1 = upsert_state(s, p1);
    let r1 = upsert_row(s, p1);
    lemma_upsert_preserves_wf(s, p1);
    if has_url(s.rows, p1.url) {
        let i = idx_of_url(s.rows, p1.url);
        assert(0 <= i < s.rows.len() && s.rows[i].url == p1.url);
        assert(s1.rows[i] == r1);
        assert(has_url(s1.rows, p2.url));
        let w = idx_of_url(s1.rows, p2.url);
        assert(0 <= w < s1.rows.len() && s1.rows[w].url == p2.url);
        assert(w == i);
    } else {
        let n = s.rows.len() as int;
        assert(s1.rows[n] == r1);
        assert(r1.url == p1.url);
        assert(has_url(s1.rows, p2.url));
        let w = idx_of_url(s1.rows, p2.url);
        assert(0 <= w < s1.rows.len() && s1.rows[w].url == p2.url);
        assert(w == n);
    }
    let s2 = upsert_state(s1, p2);
    let r2 = upsert_row(s1, p2);
    lemma_upsert_preserves_wf(s1, p2);
    let v = idx_of_url(s1.rows, p2.url);
    assert(s2.rows[v] == r2);
    let w2 = idx_of_url(s2.rows, p2.url);
    assert(0 <= w2 < s2.rows.len() && s2.rows[w2].url == p2.url);
    assert(s2.rows[w2].id == s2.rows[v].id);
    assert(w2 == v);
}

/// Round trip: the row an upsert returns is stored under its identifier;
/// looking that identifier up yields exactly the returned record.
pub proof fn lemma_upsert_get_round_trip(s: StoreView, p: PodcastView)
    requires
        s.wf(),
    ensures
        has_id(upsert_state(s, p).rows, upsert_row(s, p).id),
        upsert_state(s, p).rows[idx_of_id(upsert_state(s, p).rows, upsert_row(s, p).id)]
            == upsert_row(s, p),
{
    let t = upsert_state(s, p);
    let r = upsert_row(s, p);
    lemma_upsert_preserves_wf(s, p);
    if has_url(s.rows, p.url) {
        let i = idx_of_url(s.rows, p.url);
        assert(0 <= i < s.rows.len() && s.rows[i].url == p.url);
        assert(t.rows[i] == r);
        assert(has_id(t.rows, r.id));
        let w = idx_of_id(t.rows, r.id);
        assert(0 <= w < t.rows.len() && t.rows[w].id == r.id);
        assert(w == i);
    } else {
        let n = s.rows.len() as int;
        assert(t.rows[n] == r);
        assert(has_id(t.rows, r.id));
        let w = idx_of_id(t.rows, r.id);
        assert(0 <= w < t.rows.len() && t.rows[w].id == r.id);
        assert(w == n);
    }
}

/// Delete is final: the deleted identifier is absent afterwards, and a
/// second delete of the same identifier changes nothing.
pub proof fn lemma_delete_idempotent(s: StoreView, id: int)
    requires
        s.wf(),
    ensures
        !has_id(delete_state(s, id).rows, id),
        delete_state(delete_state(s, id), id) == delete_state(s, id),
{
    lemma_delete_preserves_wf(s, id);
}

} // verus!

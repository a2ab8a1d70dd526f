//! The store: keeps one podcast record per feed URL, hands out
//! store-assigned identifiers, and supports upsert, full replace by
//! identifier, delete and lookup.
//!
//! `Database` is the catalog's state with its operations; every operation
//! is specified against [`StoreView`], the mathematical view of that state.

use vstd::prelude::*;

use crate::podcast::{opt_string_clone, Podcast, PodcastView};

verus! {

/// Designates the storage a catalog opens: an ephemeral in-memory
/// database, or a named file on disk.
pub enum Connection {
    Memory,
    File(String),
}

/// Mathematical view of a [`Connection`].
pub ghost enum ConnectionView {
    Memory,
    File(Seq<char>),
}

impl View for Connection {
    type V = ConnectionView;

    open spec fn view(&self) -> ConnectionView {
        match self {
            Connection::Memory => ConnectionView::Memory,
            Connection::File(p) => ConnectionView::File(p@),
        }
    }
}

/// The connection string a [`Connection`] designates: the in-memory
/// designator, or a `file://` URL in read-write-create mode.
pub open spec fn connection_string_view(c: ConnectionView) -> Seq<char> {
    match c {
        ConnectionView::Memory => "sqlite::memory:"@,
        ConnectionView::File(p) => "file://"@ + p + "?mode=rwc"@,
    }
}

/// Renders the connection target as the string the storage engine opens.
pub fn connection_string(c: &Connection) -> (r: String)
    ensures
        r@ == connection_string_view(c@),
{
    match c {
        Connection::Memory => String::from_str("sqlite::memory:"),
        Connection::File(p) => {
            let mut s = String::from_str("file://");
            s.append(p.as_str());
            s.append("?mode=rwc");
            proof {
                assert(s@ =~= "file://"@ + p@ + "?mode=rwc"@);
            }
            s
        },
    }
}

/// Why a write was refused.
#[derive(Debug)]
pub enum StoreError {
    /// No row carries the addressed identifier.
    NotFound { id: i64 },
    /// The write would leave two rows sharing one URL.
    ConstraintViolation { url: String },
}

/// Mathematical view of the store: the rows in insertion order, and the
/// identifier the next inserted row will receive.
#[verifier::ext_equal]
pub ghost struct StoreView {
    pub rows: Seq<PodcastView>,
    pub next_id: int,
}

/// Some row holds this URL.
pub open spec fn has_url(rows: Seq<PodcastView>, url: Seq<char>) -> bool {
    exists|i: int| 0 <= i < rows.len() && (#[trigger] rows[i]).url == url
}

/// The index of the row holding this URL (meaningful when `has_url`).
pub open spec fn idx_of_url(rows: Seq<PodcastView>, url: Seq<char>) -> int {
    choose|i: int| 0 <= i < rows.len() && (#[trigger] rows[i]).url == url
}

/// Some row carries this identifier.
pub open spec fn has_id(rows: Seq<PodcastView>, id: int) -> bool {
    exists|i: int| 0 <= i < rows.len() && (#[trigger] rows[i]).id == id
}

/// The index of the row carrying this identifier (meaningful when `has_id`).
pub open spec fn idx_of_id(rows: Seq<PodcastView>, id: int) -> int {
    choose|i: int| 0 <= i < rows.len() && (#[trigger] rows[i]).id == id
}

/// The record a merge leaves behind: identifier and URL of the existing
/// row, every other field from the supplied record.
pub open spec fn merged(cur: PodcastView, p: PodcastView) -> PodcastView {
    PodcastView { id: cur.id, url: cur.url, ..p }
}

/// A full replace of an existing row would collide on the URL: some other
/// row (a different identifier) already holds the record's URL.
pub open spec fn url_conflict(rows: Seq<PodcastView>, p: PodcastView) -> bool {
    exists|j: int|
        0 <= j < rows.len() && (#[trigger] rows[j]).url == p.url && rows[j].id != p.id
}

impl StoreView {
    /// Well-formedness: identifiers are positive, below the next free one,
    /// and pairwise distinct; URLs are pairwise distinct.
    pub open spec fn wf(self) -> bool {
        &&& 1 <= self.next_id
        &&& forall|i: int|
            0 <= i < self.rows.len() ==> 0 < (#[trigger] self.rows[i]).id < self.next_id
        &&& forall|i: int, j: int|
            0 <= i < self.rows.len() && 0 <= j < self.rows.len() && i != j
                ==> (#[trigger] self.rows[i]).id != (#[trigger] self.rows[j]).id
                && self.rows[i].url != self.rows[j].url
    }
}

/// The store after an upsert: merge into the row with the record's URL if
/// one exists, else append a fresh row under the next free identifier.
pub open spec fn upsert_state(s: StoreView, p: PodcastView) -> StoreView {
    if has_url(s.rows, p.url) {
        let i = idx_of_url(s.rows, p.url);
        StoreView { rows: s.rows.update(i, merged(s.rows[i], p)), next_id: s.next_id }
    } else {
        StoreView {
            rows: s.rows.push(PodcastView { id: s.next_id, ..p }),
            next_id: s.next_id + 1,
        }
    }
}

/// The row an upsert returns: the post-merge state of the touched row.
pub open spec fn upsert_row(s: StoreView, p: PodcastView) -> PodcastView {
    if has_url(s.rows, p.url) {
        merged(s.rows[idx_of_url(s.rows, p.url)], p)
    } else {
        PodcastView { id: s.next_id, ..p }
    }
}

/// The store after a full replace by identifier: the addressed row is
/// overwritten when it exists and no URL collision arises; otherwise the
/// store is unchanged.
pub open spec fn update_state(s: StoreView, p: PodcastView) -> StoreView {
    if has_id(s.rows, p.id) && !url_conflict(s.rows, p) {
        StoreView { rows: s.rows.update(idx_of_id(s.rows, p.id), p), next_id: s.next_id }
    } else {
        s
    }
}

/// The store after a delete by identifier: the addressed row is removed
/// when present; deleting an absent row changes nothing.
pub open spec fn delete_state(s: StoreView, id: int) -> StoreView {
    if has_id(s.rows, id) {
        StoreView { rows: s.rows.remove(idx_of_id(s.rows, id)), next_id: s.next_id }
    } else {
        s
    }
}

/// An upsert leaves the store well-formed.
pub proof fn lemma_upsert_preserves_wf(s: StoreView, p: PodcastView)
    requires
        s.wf(),
    ensures
        upsert_state(s, p).wf(),
{
    let t = upsert_state(s, p);
    if has_url(s.rows, p.url) {
        let i = idx_of_url(s.rows, p.url);
        assert(0 <= i < s.rows.len() && s.rows[i].url == p.url);
        assert forall|a: int| 0 <= a < t.rows.len() implies 0 < (#[trigger] t.rows[a]).id
            < t.next_id by {
            assert(s.rows[a].id == t.rows[a].id);
        }
        assert forall|a: int, b: int|
            0 <= a < t.rows.len() && 0 <= b < t.rows.len() && a != b implies (
        #[trigger] t.rows[a]).id != (#[trigger] t.rows[b]).id && t.rows[a].url
            != t.rows[b].url by {
            assert(t.rows[a].id == s.rows[a].id && t.rows[a].url == s.rows[a].url);
            assert(t.rows[b].id == s.rows[b].id && t.rows[b].url == s.rows[b].url);
        }
    } else {
        let n = s.rows.len() as int;
        assert forall|a: int, b: int|
            0 <= a < t.rows.len() && 0 <= b < t.rows.len() && a != b implies (
        #[trigger] t.rows[a]).id != (#[trigger] t.rows[b]).id && t.rows[a].url
            != t.rows[b].url by {
            if a < n && b < n {
            } else if a == n {
                assert(t.rows[a].id == s.next_id && t.rows[a].url == p.url);
                assert(t.rows[b] == s.rows[b]);
            } else {
                assert(t.rows[b].id == s.next_id && t.rows[b].url == p.url);
                assert(t.rows[a] == s.rows[a]);
            }
        }
    }
}

/// A full replace by identifier leaves the store well-formed.
pub proof fn lemma_update_preserves_wf(s: StoreView, p: PodcastView)
    requires
        s.wf(),
    ensures
        update_state(s, p).wf(),
{
    let t = update_state(s, p);
    if has_id(s.rows, p.id) && !url_conflict(s.rows, p) {
        let i = idx_of_id(s.rows, p.id);
        assert(0 <= i < s.rows.len() && s.rows[i].id == p.id);
        assert forall|a: int, b: int|
            0 <= a < t.rows.len() && 0 <= b < t.rows.len() && a != b implies (
        #[trigger] t.rows[a]).id != (#[trigger] t.rows[b]).id && t.rows[a].url
            != t.rows[b].url by {
            if a == i {
                assert(s.rows[b].id != s.rows[i].id);
                assert(s.rows[b].url != p.url);
            } else if b == i {
                assert(s.rows[a].id != s.rows[i].id);
                assert(s.rows[a].url != p.url);
            }
        }
    }
}

/// A delete leaves the store well-formed, and the addressed identifier is
/// gone afterwards.
pub proof fn lemma_delete_preserves_wf(s: StoreView, id: int)
    requires
        s.wf(),
    ensures
        delete_state(s, id).wf(),
        !has_id(delete_state(s, id).rows, id),
{
    let t = delete_state(s, id);
    if has_id(s.rows, id) {
        let i = idx_of_id(s.rows, id);
        assert(0 <= i < s.rows.len() && s.rows[i].id == id);
        assert forall|a: int| 0 <= a < t.rows.len() implies 0 < (#[trigger] t.rows[a]).id
            < t.next_id by {
            if a < i {
                assert(t.rows[a] == s.rows[a]);
            } else {
                assert(t.rows[a] == s.rows[a + 1]);
            }
        }
        assert forall|a: int, b: int|
            0 <= a < t.rows.len() && 0 <= b < t.rows.len() && a != b implies (
        #[trigger] t.rows[a]).id != (#[trigger] t.rows[b]).id && t.rows[a].url
            != t.rows[b].url by {
            let a0 = if a < i { a } else { a + 1 };
            let b0 = if b < i { b } else { b + 1 };
            assert(t.rows[a] == s.rows[a0]);
            assert(t.rows[b] == s.rows[b0]);
        }
        assert forall|a: int| 0 <= a < t.rows.len() implies (#[trigger] t.rows[a]).id != id by {
            let a0 = if a < i { a } else { a + 1 };
            assert(t.rows[a] == s.rows[a0]);
            assert(a0 != i ==> s.rows[a0].id != s.rows[i].id);
        }
    } else {
        assert forall|a: int| 0 <= a < t.rows.len() implies (#[trigger] t.rows[a]).id != id by {
            assert(!has_id(s.rows, id));
        }
    }
}

/// The catalog of podcast records, one row per feed URL.
pub struct Database {
    rows: Vec<Podcast>,
    next_id: i64,
}

impl View for Database {
    type V = StoreView;

    closed spec fn view(&self) -> StoreView {
        StoreView {
            rows: self.rows.deep_view(),
            next_id: self.next_id as int,
        }
    }
}

impl Database {
    /// A fresh, empty store; the first inserted row receives identifier 1.
    pub fn new() -> (d: Database)
        ensures
            d@ == (StoreView { rows: Seq::<PodcastView>::empty(), next_id: 1 }),
            d@.wf(),
    {
        let d = Database { rows: Vec::new(), next_id: 1 };
        proof {
            assert(d@ =~= StoreView { rows: Seq::<PodcastView>::empty(), next_id: 1 });
        }
        d
    }

    /// How many records the store holds.
    pub fn len(&self) -> (n: usize)
        ensures
            n == self@.rows.len(),
    {
        self.rows.len()
    }

    /// Finds the index of the row holding this URL, if any.
    fn find_url(&self, url: &String) -> (r: Option<usize>)
        requires
            self@.wf(),
        ensures
            match r {
                Some(i) => has_url(self@.rows, url@) && idx_of_url(self@.rows, url@) == i as int
                    && i < self@.rows.len(),
                None => !has_url(self@.rows, url@),
            },
    {
        let n = self.rows.len();
        let mut i: usize = 0;
        while i < n
            invariant
                i <= n,
                n == self.rows.len(),
                self@.wf(),
                forall|k: int| 0 <= k < i ==> (#[trigger] self@.rows[k]).url != url@,
            decreases n - i,
        {
            if self.rows[i].url == *url {
                proof {
                    assert(self@.rows[i as int].url == url@);
                    assert(has_url(self@.rows, url@));
                    let w = idx_of_url(self@.rows, url@);
                    assert(0 <= w < self@.rows.len() && self@.rows[w].url == url@);
                    assert(w == i as int);
                }
                return Some(i);
            }
            i += 1;
        }
        None
    }

    /// Finds the index of the row carrying this identifier, if any.
    fn find_id(&self, id: i64) -> (r: Option<usize>)
        requires
            self@.wf(),
        ensures
            match r {
                Some(i) => has_id(self@.rows, id as int) && idx_of_id(self@.rows, id as int)
                    == i as int && i < self@.rows.len(),
                None => !has_id(self@.rows, id as int),
            },
    {
        let n = self.rows.len();
        let mut i: usize = 0;
        while i < n
            invariant
                i <= n,
                n == self.rows.len(),
                self@.wf(),
                forall|k: int| 0 <= k < i ==> (#[trigger] self@.rows[k]).id != id as int,
            decreases n - i,
        {
            if self.rows[i].id == id {
                proof {
                    assert(self@.rows[i as int].id == id as int);
                    assert(has_id(self@.rows, id as int));
                    let w = idx_of_id(self@.rows, id as int);
                    assert(0 <= w < self@.rows.len() && self@.rows[w].id == id as int);
                    assert(w == i as int);
                }
                return Some(i);
            }
            i += 1;
        }
        None
    }

    /// Would a full replace with this record collide on the URL?
    fn has_conflict(&self, p: &Podcast) -> (r: bool)
        ensures
            r == url_conflict(self@.rows, p@),
    {
        let n = self.rows.len();
        let mut i: usize = 0;
        while i < n
            invariant
                i <= n,
                n == self.rows.len(),
                forall|k: int|
                    0 <= k < i ==> !((#[trigger] self@.rows[k]).url == p@.url && self@.rows[k].id
                        != p@.id),
            decreases n - i,
        {
            if self.rows[i].url == p.url && self.rows[i].id != p.id {
                proof {
                    assert(self@.rows[i as int].url == p@.url && self@.rows[i as int].id != p@.id);
                }
                return true;
            }
            i += 1;
        }
        false
    }

    /// Create-or-merge by URL (upsert): if no row holds the record's URL,
    /// a fresh row is inserted under the next free identifier; otherwise
    /// every field but `id` and `url` of the existing row is overwritten.
    /// Returns the persisted row, identifier included.
    pub fn create_podcast(&mut self, p: &Podcast) -> (r: Podcast)
        requires
            old(self)@.wf(),
            old(self)@.next_id < i64::MAX,
        ensures
            final(self)@ == upsert_state(old(self)@, p@),
            r@ == upsert_row(old(self)@, p@),
            final(self)@.wf(),
    {
        proof {
            lemma_upsert_preserves_wf(old(self)@, p@);
        }
        match self.find_url(&p.url) {
            Some(i) => {
                let cur_id = self.rows[i].id;
                let cur_url = self.rows[i].url.clone();
                let merged_row = Podcast {
                    id: cur_id,
                    title: p.title.clone(),
                    url: cur_url,
                    description: p.description.clone(),
                    enabled: p.enabled,
                    last_checked: p.last_checked,
                    image_url: opt_string_clone(&p.image_url),
                    cache_key: opt_string_clone(&p.cache_key),
                };
                let r = merged_row.clone();
                self.rows[i] = merged_row;
                proof {
                    assert(r@ =~= merged(old(self)@.rows[i as int], p@));
                    assert(self@.rows =~= old(self)@.rows.update(i as int, r@));
                    assert(self@ =~= upsert_state(old(self)@, p@));
                }
                r
            },
            None => {
                let id = self.next_id;
                let new_row = Podcast {
                    id,
                    title: p.title.clone(),
                    url: p.url.clone(),
                    description: p.description.clone(),
                    enabled: p.enabled,
                    last_checked: p.last_checked,
                    image_url: opt_string_clone(&p.image_url),
                    cache_key: opt_string_clone(&p.cache_key),
                };
                let r = new_row.clone();
                self.rows.push(new_row);
                self.next_id = id + 1;
                proof {
                    assert(r@ =~= (PodcastView { id: old(self)@.next_id, ..p@ }));
                    assert(self@.rows =~= old(self)@.rows.push(r@));
                    assert(self@ =~= upsert_state(old(self)@, p@));
                }
                r
            },
        }
    }

    /// Full replace by identifier: overwrites every field of the row
    /// matching `id` (the URL included) with the supplied values. Fails
    /// with `NotFound` when no row carries that identifier, and with
    /// `ConstraintViolation` when the new URL is already held by another
    /// row; either way the store is unchanged.
    pub fn update_podcast(&mut self, p: &Podcast) -> (r: Result<Podcast, StoreError>)
        requires
            old(self)@.wf(),
        ensures
            final(self)@ == update_state(old(self)@, p@),
            final(self)@.wf(),
            final(self)@.rows.len() == old(self)@.rows.len(),
            r is Ok <==> has_id(old(self)@.rows, p@.id) && !url_conflict(old(self)@.rows, p@),
            r matches Ok(q) ==> q@ == p@,
            !has_id(old(self)@.rows, p@.id) ==> (r matches Err(StoreError::NotFound { id }) && id
                == p.id),
            has_id(old(self)@.rows, p@.id) && url_conflict(old(self)@.rows, p@) ==> (r matches Err(
                StoreError::ConstraintViolation { url },
            ) && url@ == p@.url),
    {
        proof {
            lemma_update_preserves_wf(old(self)@, p@);
        }
        match self.find_id(p.id) {
            None => Err(StoreError::NotFound { id: p.id }),
            Some(i) => {
                if self.has_conflict(p) {
                    Err(StoreError::ConstraintViolation { url: p.url.clone() })
                } else {
                    let q = p.clone();
                    self.rows[i] = q;
                    let out = p.clone();
                    proof {
                        assert(self@.rows =~= old(self)@.rows.update(i as int, p@));
                        assert(self@ =~= update_state(old(self)@, p@));
                    }
                    Ok(out)
                }
            },
        }
    }

    /// Removes the row carrying the record's identifier; removing an
    /// absent row is a no-op, not an error.
    pub fn delete_podcast(&mut self, p: &Podcast)
        requires
            old(self)@.wf(),
        ensures
            final(self)@ == delete_state(old(self)@, p@.id),
            final(self)@.wf(),
            !has_id(final(self)@.rows, p@.id),
    {
        proof {
            lemma_delete_preserves_wf(old(self)@, p@.id);
        }
        match self.find_id(p.id) {
            None => {
            },
            Some(i) => {
                self.rows.remove(i);
                proof {
                    assert(self@.rows =~= old(self)@.rows.remove(i as int));
                    assert(self@ =~= delete_state(old(self)@, p@.id));
                }
            },
        }
    }

    /// Looks a record up by identifier. Absence is an expected outcome,
    /// not an error.
    pub fn get_podcast(&self, id: &i64) -> (r: Option<Podcast>)
        requires
            self@.wf(),
        ensures
            match r {
                Some(q) => has_id(self@.rows, *id as int) && q@ == self@.rows[idx_of_id(
                    self@.rows,
                    *id as int,
                )],
                None => !has_id(self@.rows, *id as int),
            },
    {
        let n = self.rows.len();
        let mut i: usize = 0;
        while i < n
            invariant
                i <= n,
                n == self@.rows.len(),
                self@.wf(),
                n == self.rows.len(),
                self@.rows == self.rows.deep_view(),
                forall|k: int| 0 <= k < i ==> (#[trigger] self@.rows[k]).id != *id as int,
            decreases n - i,
        {
            if self.rows[i].id == *id {
                let q = self.rows[i].clone();
                proof {
                    assert(q@ == self@.rows[i as int]);
                    assert(has_id(self@.rows, *id as int));
                    let w = idx_of_id(self@.rows, *id as int);
                    assert(self@.rows[w].id == *id as int);
                    assert(w == i as int);
                }
                return Some(q);
            }
            i += 1;
        }
        None
    }
}

} // verus!

//! A listener's top tracks: the played tracks ranked by how often that
//! listener played them, one page of them, each with its artwork identifier.
use crate::artwork::{artwork_id, image_url};
use crate::error::ServiceError;
use vstd::multiset::Multiset;
use vstd::prelude::*;

verus! {

broadcast use vstd::seq_lib::group_to_multiset_ensures, vstd::multiset::group_multiset_axioms;

/// A catalog track.
#[derive(Debug, Clone)]
pub struct Music {
    pub music_id: String,
    pub artist: String,
    pub title: String,
    pub album: String,
    pub genre: String,
    pub times_played: i32,
}

/// A play-log entry joined to the track it counts plays of.
#[derive(Debug, Clone)]
pub struct PlayRecord {
    pub user_id: String,
    pub user_times_played: i32,
    pub music: Music,
}

/// One item of a top-tracks answer.
#[derive(Debug, Clone)]
pub struct MusicResponse {
    pub id: String,
    pub artist: String,
    pub title: String,
    pub album: String,
    pub genre: String,
    pub times_played: i32,
    pub image_url: String,
}

/// What a top-tracks request asks for. A present but non-positive
/// `page_length` means "no limit".
#[derive(Debug, Clone)]
pub struct TopTracksQueryParams {
    pub user_id: String,
    pub start_index: i64,
    pub page_length: Option<i64>,
}

/// A row counts for `user` when it is theirs and they played the track at least once.
pub open spec fn qualifies(user: Seq<char>) -> spec_fn(PlayRecord) -> bool {
    |r: PlayRecord| r.user_id@ == user && r.user_times_played >= 1
}

/// The rows that count for `user`, in the order given.
pub open spec fn qualifying(user: Seq<char>, rows: Seq<PlayRecord>) -> Seq<PlayRecord> {
    rows.filter(qualifies(user))
}

/// Play counts never increase along the sequence.
pub open spec fn sorted_by_plays(s: Seq<PlayRecord>) -> bool {
    forall|i: int, j: int|
        0 <= i < j < s.len() ==> s[i].user_times_played >= s[j].user_times_played
}

/// `s` holds exactly the rows of `rows`, ordered by descending play count.
pub open spec fn is_ranking(s: Seq<PlayRecord>, rows: Seq<PlayRecord>) -> bool {
    sorted_by_plays(s) && s.to_multiset() == rows.to_multiset()
}

/// The limit a page length imposes: only a strictly positive one limits.
pub open spec fn limit_of(page_length: Option<i64>) -> Option<i64> {
    match page_length {
        Some(n) => if n > 0 {
            Some(n)
        } else {
            None
        },
        None => None,
    }
}

/// What is left of `s` after skipping `start` items and applying the limit.
pub open spec fn page_window<T>(s: Seq<T>, start: int, page_length: Option<i64>) -> Seq<T> {
    let rest = if start < s.len() {
        s.subrange(start, s.len() as int)
    } else {
        Seq::empty()
    };
    match limit_of(page_length) {
        Some(n) => if n < rest.len() {
            rest.take(n as int)
        } else {
            rest
        },
        None => rest,
    }
}

/// `r` is the answer item for track `m`.
pub open spec fn responds_to(r: MusicResponse, m: Music) -> bool {
    &&& r.id == m.music_id
    &&& r.artist == m.artist
    &&& r.title == m.title
    &&& r.album == m.album
    &&& r.genre == m.genre
    &&& r.times_played == m.times_played
    &&& r.image_url@ == artwork_id(m.artist@, m.album@)
}

/// `v` answers the rows of `page`, item by item, in the same order.
pub open spec fn responses_of(v: Seq<MusicResponse>, page: Seq<PlayRecord>) -> bool {
    v.len() == page.len() && forall|i: int| 0 <= i < v.len() ==> responds_to(v[i], page[i].music)
}

/// The limit to apply for a requested page length, if any.
pub fn effective_limit(page_length: Option<i64>) -> (r: Option<i64>)
    ensures
        r == limit_of(page_length),
{
    match page_length {
        Some(n) => if n > 0 {
            Some(n)
        } else {
            None
        },
        None => None,
    }
}

/// Keeps the rows that count for `user` and orders them by descending play count.
pub fn rank_plays(user: &String, rows: Vec<PlayRecord>) -> (r: Vec<PlayRecord>)
    ensures
        is_ranking(r@, qualifying(user@, rows@)),
{
    let ghost all = rows@;
    let mut rest = rows;
    let mut out: Vec<PlayRecord> = Vec::new();
    while rest.len() > 0
        invariant
            sorted_by_plays(out@),
            qualifying(user@, all).to_multiset() == qualifying(user@, rest@).to_multiset().add(
                out@.to_multiset(),
            ),
        decreases rest.len(),
    {
        let ghost rest_before = rest@;
        let x = match rest.pop() {
            Some(x) => x,
            None => { return out; },
        };
        proof {
            assert(rest_before =~= rest@.push(x));
            rest@.lemma_filter_push(x, qualifies(user@));
        }
        if x.user_id == *user && x.user_times_played >= 1 {
            let mut pos: usize = 0;
            while pos < out.len() && out[pos].user_times_played > x.user_times_played
                invariant
                    pos <= out.len(),
                    forall|k: int| 0 <= k < pos ==> out@[k].user_times_played > x.user_times_played,
                decreases out.len() - pos,
            {
                pos += 1;
            }
            let ghost before = out@;
            let ghost xg = x;
            out.insert(pos, x);
            proof {
                let a = before.subrange(0, pos as int);
                let b = before.subrange(pos as int, before.len() as int);
                assert(before =~= a + b);
                assert(out@ =~= (a + seq![xg]) + b);
                vstd::seq_lib::lemma_multiset_commutative(a, b);
                vstd::seq_lib::lemma_multiset_commutative(a + seq![xg], b);
                vstd::seq_lib::lemma_multiset_commutative(a, seq![xg]);
                assert(seq![xg] =~= Seq::<PlayRecord>::empty().push(xg));
                assert(out@.to_multiset() =~= before.to_multiset().insert(xg));
                assert(qualifying(user@, rest_before) == qualifying(user@, rest@).push(xg));
                assert(qualifying(user@, all).to_multiset() =~= qualifying(user@, rest@).to_multiset().add(
                    out@.to_multiset()));
                assert(sorted_by_plays(out@)) by {
                    assert forall|i: int, j: int| 0 <= i < j < out@.len() implies
                        out@[i].user_times_played >= out@[j].user_times_played by {
                        if j < pos {
                        } else if j == pos {
                        } else if i < pos {
                            assert(out@[i] == before[i]);
                            assert(out@[j] == before[j - 1]);
                            if pos < before.len() {
                                assert(before[pos as int].user_times_played <= xg.user_times_played);
                            }
                        } else if i == pos {
                            assert(before[pos as int].user_times_played <= xg.user_times_played);
                        } else {
                            assert(out@[i] == before[i - 1]);
                            assert(out@[j] == before[j - 1]);
                        }
                    }
                }
            }
        } else {
            proof {
                assert(qualifying(user@, rest_before) == qualifying(user@, rest@));
            }
        }
    }
    proof {
        assert(qualifying(user@, rest@) =~= Seq::<PlayRecord>::empty());
        assert(Seq::<PlayRecord>::empty().to_multiset() =~= Multiset::empty());
        assert(qualifying(user@, all).to_multiset() =~= out@.to_multiset());
    }
    out
}

/// Skips `start_index` items, then keeps at most the limit that `page_length` sets.
pub fn paginate<T>(items: Vec<T>, start_index: i64, page_length: Option<i64>) -> (r: Vec<T>)
    requires
        start_index >= 0,
    ensures
        r@ == page_window(items@, start_index as int, page_length),
{
    let mut items = items;
    let len = items.len();
    if start_index as u64 >= len as u64 {
        return Vec::new();
    }
    let mut rest = items.split_off(start_index as usize);
    match effective_limit(page_length) {
        Some(n) => {
            if (n as u64) < rest.len() as u64 {
                rest.truncate(n as usize);
            }
        },
        None => {},
    }
    rest
}

/// The answer item for a track: its fields and its artwork identifier.
pub fn to_response(entry: &Music) -> (r: MusicResponse)
    ensures
        responds_to(r, *entry),
{
    MusicResponse {
        id: entry.music_id.clone(),
        artist: entry.artist.clone(),
        title: entry.title.clone(),
        album: entry.album.clone(),
        genre: entry.genre.clone(),
        times_played: entry.times_played,
        image_url: image_url(&entry.artist, &entry.album),
    }
}

/// A window of a sorted sequence is sorted.
pub proof fn lemma_page_sorted(s: Seq<PlayRecord>, start: int, page_length: Option<i64>)
    requires
        sorted_by_plays(s),
        start >= 0,
    ensures
        sorted_by_plays(page_window(s, start, page_length)),
{
    let p = page_window(s, start, page_length);
    assert forall|i: int, j: int| 0 <= i < j < p.len() implies p[i].user_times_played
        >= p[j].user_times_played by {
        assert(p[i] == s[start + i]);
        assert(p[j] == s[start + j]);
    }
}

/// The size of a window depends only on the length of what it is taken from.
pub proof fn lemma_page_len<A, B>(s: Seq<A>, t: Seq<B>, start: int, page_length: Option<i64>)
    requires
        s.len() == t.len(),
        start >= 0,
    ensures
        page_window(s, start, page_length).len() == page_window(t, start, page_length).len(),
{
}

/// A start at or past the end leaves an empty window, whatever the page length.
pub proof fn lemma_start_past_end<T>(s: Seq<T>, start: int, page_length: Option<i64>)
    requires
        start >= s.len(),
    ensures
        page_window(s, start, page_length).len() == 0,
{
}

/// A page length of zero or below cuts nothing: the window is everything
/// after the start, as with no page length at all.
pub proof fn lemma_non_positive_length_keeps_rest<T>(s: Seq<T>, start: int, n: i64)
    requires
        0 <= start,
        n <= 0,
    ensures
        page_window(s, start, Some(n)) == page_window(s, start, None),
        start < s.len() ==> page_window(s, start, Some(n)) == s.subrange(start, s.len() as int),
{
}

/// A listener's top tracks: the rows that count for them, ranked by
/// descending play count, one page of them, each answered with its artwork
/// identifier. An empty page is `NotFound`, which is no failure of the store.
pub fn get_top_tracks(params: &TopTracksQueryParams, rows: Vec<PlayRecord>) -> (r: Result<
    Vec<MusicResponse>,
    ServiceError,
>)
    requires
        params.start_index >= 0,
    ensures
        r is Ok <==> page_window(
            qualifying(params.user_id@, rows@),
            params.start_index as int,
            params.page_length,
        ).len() > 0,
        r matches Err(e) ==> e is NotFound,
        params.start_index >= qualifying(params.user_id@, rows@).len() ==> r matches Err(
            ServiceError::NotFound,
        ),
        r matches Ok(v) ==> exists|s: Seq<PlayRecord>|
            {
                &&& is_ranking(s, qualifying(params.user_id@, rows@))
                &&& sorted_by_plays(page_window(s, params.start_index as int, params.page_length))
                &&& responses_of(
                    v@,
                    page_window(s, params.start_index as int, params.page_length),
                )
            },
{
    let ghost q = qualifying(params.user_id@, rows@);
    let ranked = rank_plays(&params.user_id, rows);
    let ghost s = ranked@;
    proof {
        assert(s.len() == q.len()) by {
            assert(s.to_multiset().len() == q.to_multiset().len());
        }
        lemma_page_len(s, q, params.start_index as int, params.page_length);
        lemma_page_sorted(s, params.start_index as int, params.page_length);
        if params.start_index >= q.len() {
            lemma_start_past_end(q, params.start_index as int, params.page_length);
        }
    }
    let page = paginate(ranked, params.start_index, params.page_length);
    if page.len() == 0 {
        return Err(ServiceError::NotFound);
    }
    let mut out: Vec<MusicResponse> = Vec::new();
    let mut i: usize = 0;
    while i < page.len()
        invariant
            i <= page.len(),
            out@.len() == i,
            forall|k: int| 0 <= k < i ==> responds_to(out@[k], page@[k].music),
        decreases page.len() - i,
    {
        out.push(to_response(&page[i].music));
        i += 1;
    }
    Ok(out)
}

} // verus!

//! The feed algorithm: a ranked, paginated read of the post index,
//! newest first by index time with the content identifier as tie-break,
//! and an opaque `<millis>::<cid>` cursor for the next page.

use vstd::prelude::*;

use crate::algos::XrpcError;
use crate::data::{Post, PostIndex, PostModel, unique_uris};
use crate::lexicon::feed::{Feed, OutputSchema, QueryParams};
use crate::strutil::{dec_of, dec_of_i64, digit_of, find_sep, i64_to_dec, lemma_dec_chars,
    lemma_dec_i64_round_trip, lemma_find_sep_at, lemma_lex_lt_trichotomy, lex_lt, parse_dec_i64,
    str_find_sep, str_lt, str_parse_i64, views_of};

verus! {

/// The page cursor a string denotes: the index time in milliseconds
/// before the first `::`, the content identifier after it. `None` is a
/// malformed cursor.
pub open spec fn cursor_spec(s: Seq<char>) -> Option<(i64, Seq<char>)> {
    match find_sep(s) {
        None => None,
        Some(i) => match parse_dec_i64(s.take(i)) {
            Some(t) => Some((t, s.skip(i + 2))),
            None => None,
        },
    }
}

/// The cursor naming a row: its index time and content identifier.
pub open spec fn cursor_render(row: PostModel) -> Seq<char> {
    dec_of_i64(row.indexed_at as int) + seq![':', ':'] + row.cid
}

/// A served cursor reads back as exactly the bound it names: rendering a
/// row's cursor and parsing it again yields the row's index time and
/// content identifier, so a follow-up request continues exactly below
/// that row.
pub proof fn lemma_cursor_round_trip(row: PostModel)
    ensures
        cursor_spec(cursor_render(row)) == Some((row.indexed_at, row.cid)),
{
    let d = dec_of_i64(row.indexed_at as int);
    let s = cursor_render(row);
    assert(digit_of(':') is None);
    assert forall|j: int| 0 <= j < d.len() implies d[j] != ':' by {
        if row.indexed_at >= 0 {
            lemma_dec_chars(row.indexed_at as int);
            assert(digit_of(d[j]) is Some);
        } else {
            let mag = -(row.indexed_at as int);
            lemma_dec_chars(mag);
            if j >= 1 {
                assert(d[j] == dec_of(mag)[j - 1]);
                assert(digit_of(d[j]) is Some);
            }
        }
    }
    assert(s[d.len() as int] == ':');
    assert(s[d.len() as int + 1] == ':');
    assert(forall|j: int| 0 <= j < d.len() ==> s[j] == d[j]);
    lemma_find_sep_at(s, d.len() as int);
    assert(s.take(d.len() as int) =~= d);
    lemma_dec_i64_round_trip(row.indexed_at);
    assert(s.skip(d.len() as int + 2) =~= row.cid);
}

/// Whether a row lies strictly below the cursor bound: older, or as old
/// with a smaller content identifier.
pub open spec fn below_bound(row: PostModel, bound: Option<(i64, Seq<char>)>) -> bool {
    match bound {
        None => true,
        Some((t, c)) => row.indexed_at < t || (row.indexed_at == t && lex_lt(row.cid, c)),
    }
}

/// The serving order: `a` comes before `b` when it is newer, or as new
/// with a greater content identifier, or equal there with a greater URI.
pub open spec fn row_before(a: PostModel, b: PostModel) -> bool {
    ||| a.indexed_at > b.indexed_at
    ||| (a.indexed_at == b.indexed_at && lex_lt(b.cid, a.cid))
    ||| (a.indexed_at == b.indexed_at && a.cid == b.cid && lex_lt(b.uri, a.uri))
}

/// The serving order is irreflexive.
pub proof fn lemma_row_before_irrefl(a: PostModel)
    ensures
        !row_before(a, a),
{
    lemma_lex_lt_trichotomy(a.cid, a.cid);
    lemma_lex_lt_trichotomy(a.uri, a.uri);
}

/// The serving order is transitive.
pub proof fn lemma_row_before_trans(a: PostModel, b: PostModel, c: PostModel)
    requires
        row_before(a, b),
        row_before(b, c),
    ensures
        row_before(a, c),
{
    lemma_lex_lt_trichotomy(a.cid, b.cid);
    lemma_lex_lt_trichotomy(b.cid, c.cid);
    if a.indexed_at == b.indexed_at && b.indexed_at == c.indexed_at {
        if lex_lt(b.cid, a.cid) && lex_lt(c.cid, b.cid) {
            crate::strutil::lemma_lex_lt_trans(c.cid, b.cid, a.cid);
        }
        if lex_lt(b.uri, a.uri) && lex_lt(c.uri, b.uri) {
            crate::strutil::lemma_lex_lt_trans(c.uri, b.uri, a.uri);
        }
    }
}

/// On rows with distinct URIs the serving order is strict and total.
pub proof fn lemma_row_order_total(a: PostModel, b: PostModel)
    requires
        a.uri != b.uri,
    ensures
        row_before(a, b) <==> !row_before(b, a),
{
    lemma_lex_lt_trichotomy(a.cid, b.cid);
    lemma_lex_lt_trichotomy(a.uri, b.uri);
}

/// What a served page is: at most `limit` rows, each a stored row below
/// the bound, strictly descending in the serving order; a page shorter
/// than the limit holds every candidate; and any candidate left out only
/// happens on a full page, ranked below its last row.
pub open spec fn is_feed_page(
    rows: Seq<PostModel>,
    bound: Option<(i64, Seq<char>)>,
    limit: int,
    page: Seq<PostModel>,
) -> bool {
    &&& page.len() <= limit
    &&& forall|i: int|
        0 <= i < page.len() ==> rows.contains(#[trigger] page[i]) && below_bound(page[i], bound)
    &&& forall|i: int, j: int| 0 <= i < j < page.len() ==> row_before(#[trigger] page[i], #[trigger] page[j])
    &&& forall|k: int|
        0 <= k < rows.len() && below_bound(#[trigger] rows[k], bound) && !page.contains(rows[k])
            ==> page.len() == limit && (page.len() > 0 ==> row_before(page.last(), rows[k]))
}

/// The URIs of a page, in order.
pub open spec fn uris_of(page: Seq<PostModel>) -> Seq<Seq<char>> {
    page.map(|i: int, p: PostModel| p.uri)
}

/// A successful response: some served page of the index below the bound,
/// rendered as its URIs, with the last row's cursor (none when empty).
pub open spec fn good_feed_output(
    rows: Seq<PostModel>,
    bound: Option<(i64, Seq<char>)>,
    limit: int,
    out: crate::lexicon::feed::OutputSchemaModel,
) -> bool {
    exists|page: Seq<PostModel>|
        {
            &&& #[trigger] is_feed_page(rows, bound, limit, page)
            &&& out.feed == uris_of(page)
            &&& out.cursor == (if page.len() == 0 {
                None
            } else {
                Some(cursor_render(page.last()))
            })
        }
}

/// Read a cursor string.
fn parse_cursor(s: &str) -> (r: Option<(i64, String)>)
    ensures
        ({
            let sp = cursor_spec(s@);
            match (r, sp) {
                (Some((t, c)), Some((st, sc))) => t == st && c@ == sc,
                (None, None) => true,
                _ => false,
            }
        }),
{
    match str_find_sep(s) {
        None => None,
        Some(i) => {
            let n = s.unicode_len();
            let head = s.substring_char(0, i);
            proof {
                assert(head@ =~= s@.take(i as int));
            }
            match str_parse_i64(head) {
                None => None,
                Some(t) => {
                    let tail = s.substring_char(i + 2, n);
                    proof {
                        assert(tail@ =~= s@.skip(i as int + 2));
                    }
                    Some((t, String::from_str(tail)))
                },
            }
        },
    }
}

/// Whether `a` comes before `b` in the serving order.
fn row_newer(a: &Post, b: &Post) -> (r: bool)
    ensures
        r == row_before(a@, b@),
{
    if a.indexed_at > b.indexed_at {
        true
    } else if a.indexed_at < b.indexed_at {
        false
    } else if str_lt(b.cid.as_str(), a.cid.as_str()) {
        true
    } else if crate::strutil::str_eq(a.cid.as_str(), b.cid.as_str()) {
        str_lt(b.uri.as_str(), a.uri.as_str())
    } else {
        false
    }
}

/// Copy one row.
fn clone_post(p: &Post) -> (r: Post)
    ensures
        r@ == p@,
{
    Post {
        uri: String::from_str(p.uri.as_str()),
        cid: String::from_str(p.cid.as_str()),
        author: String::from_str(p.author.as_str()),
        indexed_at: p.indexed_at,
    }
}

/// Whether a row lies strictly below the bound.
fn below_bound_exec(row: &Post, bound: &Option<(i64, String)>) -> (r: bool)
    ensures
        r == below_bound(
            row@,
            match *bound {
                Some((t, ref c)) => Some((t, c@)),
                None => None,
            },
        ),
{
    match bound {
        None => true,
        Some((t, c)) => row.indexed_at < *t || (row.indexed_at == *t && str_lt(
            row.cid.as_str(),
            c.as_str(),
        )),
    }
}

/// The one registered algorithm.
pub struct Handler;

impl Handler {
    /// The short name the registry lists this algorithm under.
    pub fn short_name(&self) -> (r: &'static str)
        ensures
            r@ == "eueoeo"@,
    {
        "eueoeo"
    }

    /// Serve one page of the feed: the most recent indexed posts below
    /// the cursor bound, newest first, at most `limit` of them, plus the
    /// cursor of the last returned row. A cursor that does not split on
    /// `::` into a decimal time and an identifier is an invalid request.
    pub fn handle(&self, index: &PostIndex, params: &QueryParams) -> (r: Result<
        OutputSchema,
        XrpcError,
    >)
        ensures
            ({
                let rows = index.rows_model();
                let cb = match params.cursor {
                    Some(c) => match cursor_spec(c@) {
                        Some(b) => Ok(Some(b)),
                        None => Err(XrpcError::InvalidRequest),
                    },
                    None => Ok(None),
                };
                match cb {
                    Err(e) => r == Err::<OutputSchema, _>(e),
                    Ok(bound) => r matches Ok(out) && good_feed_output(
                        rows,
                        bound,
                        params.limit as int,
                        out@,
                    ),
                }
            }),
    {
        let bound: Option<(i64, String)> = match &params.cursor {
            None => None,
            Some(c) => {
                match parse_cursor(c.as_str()) {
                    Some(b) => Some(b),
                    None => {
                        return Err(XrpcError::InvalidRequest);
                    },
                }
            },
        };
        let ghost bound_m: Option<(i64, Seq<char>)> = match bound {
            Some((t, ref c)) => Some((t, c@)),
            None => None,
        };
        let all = index.snapshot();
        let ghost rows = index.rows_model();
        let n = all.len();
        let mut cands: Vec<Post> = Vec::new();
        let mut i: usize = 0;
        while i < n
            invariant
                0 <= i <= n,
                n == all@.len(),
                views_of(all@) == rows,
                rows.len() == n,
                unique_uris(rows),
                forall|k: int| 0 <= k < n ==> rows[k] == (#[trigger] all@[k])@,
                bound_m == (match bound {
                    Some((t, ref c)) => Some((t, c@)),
                    None => None::<(i64, Seq<char>)>,
                }),
                forall|j: int|
                    0 <= j < cands@.len() ==> below_bound(
                        (#[trigger] cands@[j])@,
                        bound_m,
                    ),
                forall|j: int|
                    0 <= j < cands@.len() ==> exists|k: int|
                        0 <= k < i && rows[k] == (#[trigger] cands@[j])@,
                forall|k: int|
                    0 <= k < i && below_bound(#[trigger] rows[k], bound_m) ==> views_of(
                        cands@,
                    ).contains(rows[k]),
                forall|j1: int, j2: int|
                    0 <= j1 < j2 < cands@.len() ==> (#[trigger] cands@[j1])@.uri != (
                    #[trigger] cands@[j2])@.uri,
            decreases n - i,
        {
            let ghost pre = cands@;
            if below_bound_exec(&all[i], &bound) {
                cands.push(clone_post(&all[i]));
                proof {
                    assert(cands@[pre.len() as int]@ == rows[i as int]);
                    assert forall|j: int| 0 <= j < pre.len() implies (
                    #[trigger] pre[j])@.uri != rows[i as int].uri by {
                        let k = choose|k: int| 0 <= k < i && rows[k] == (#[trigger] pre[j])@;
                        assert(rows[k].uri != rows[i as int].uri);
                    }
                    assert(forall|j: int| 0 <= j < pre.len() ==> cands@[j] == #[trigger] pre[j]);
                    assert forall|k: int|
                        0 <= k < i + 1 && below_bound(
                            #[trigger] rows[k],
                            bound_m,
                        ) implies views_of(cands@).contains(rows[k]) by {
                        if k < i {
                            let j = choose|j: int|
                                0 <= j < pre.len() && #[trigger] views_of(pre)[j] == rows[k];
                            assert(views_of(cands@)[j] == rows[k]);
                        } else {
                            assert(views_of(cands@)[pre.len() as int] == rows[k]);
                        }
                    }
                }
            } else {
                proof {
                    assert forall|k: int|
                        0 <= k < i + 1 && below_bound(
                            #[trigger] rows[k],
                            bound_m,
                        ) implies views_of(cands@).contains(rows[k]) by {
                        if k < i {
                        } else {
                            assert(!below_bound(rows[i as int], bound_m));
                        }
                    }
                }
            }
            i += 1;
        }
        let ghost cands0 = views_of(cands@);
        proof {
            assert forall|j1: int, j2: int|
                0 <= j1 < j2 < cands0.len() implies (#[trigger] cands0[j1]).uri != (
            #[trigger] cands0[j2]).uri by {
                assert(cands0[j1] == cands@[j1]@);
                assert(cands0[j2] == cands@[j2]@);
            }
        }
        let limit = params.limit as usize;
        let mut page_rows: Vec<Post> = Vec::new();
        let mut rem = cands;
        proof {
            assert forall|k: int| 0 <= k < cands0.len() implies views_of(rem@).contains(
                #[trigger] cands0[k],
            ) by {
                assert(views_of(rem@)[k] == cands0[k]);
            }
        }
        while page_rows.len() < limit && rem.len() > 0
            invariant
                views_of(page_rows@).len() + views_of(rem@).len() <= cands0.len(),
                page_rows@.len() <= limit,
                forall|j: int|
                    0 <= j < page_rows@.len() ==> rows.contains((#[trigger] page_rows@[j])@)
                        && below_bound(page_rows@[j]@, bound_m),
                forall|j: int|
                    0 <= j < rem@.len() ==> rows.contains((#[trigger] rem@[j])@) && below_bound(
                        rem@[j]@,
                        bound_m,
                    ),
                forall|j1: int, j2: int|
                    0 <= j1 < j2 < page_rows@.len() ==> row_before(
                        (#[trigger] page_rows@[j1])@,
                        (#[trigger] page_rows@[j2])@,
                    ),
                forall|a: int, b: int|
                    0 <= a < page_rows@.len() && 0 <= b < rem@.len() ==> row_before(
                        (#[trigger] page_rows@[a])@,
                        (#[trigger] rem@[b])@,
                    ),
                forall|k: int|
                    0 <= k < cands0.len() ==> views_of(page_rows@).contains(
                        #[trigger] cands0[k],
                    ) || views_of(rem@).contains(cands0[k]),
                forall|j1: int, j2: int|
                    0 <= j1 < j2 < rem@.len() ==> (#[trigger] rem@[j1])@.uri != (
                    #[trigger] rem@[j2])@.uri,
                forall|a: int, b: int|
                    0 <= a < page_rows@.len() && 0 <= b < rem@.len() ==> (
                    #[trigger] page_rows@[a])@.uri != (#[trigger] rem@[b])@.uri,
            decreases limit - page_rows@.len(),
        {
            let m = rem.len();
            let mut best: usize = 0;
            let mut j: usize = 1;
            proof {
                lemma_row_before_irrefl(rem@[0]@);
            }
            while j < m
                invariant
                    0 <= best < j <= m,
                    m == rem@.len(),
                    m >= 1,
                    forall|k: int|
                        0 <= k < j ==> !row_before(
                            (#[trigger] rem@[k])@,
                            rem@[best as int]@,
                        ),
                decreases m - j,
            {
                if row_newer(&rem[j], &rem[best]) {
                    proof {
                        assert forall|k: int| 0 <= k < j + 1 implies !row_before(
                            (#[trigger] rem@[k])@,
                            rem@[j as int]@,
                        ) by {
                            if k < j {
                                if row_before(rem@[k]@, rem@[j as int]@) {
                                    lemma_row_before_trans(
                                        rem@[k]@,
                                        rem@[j as int]@,
                                        rem@[best as int]@,
                                    );
                                }
                            } else {
                                lemma_row_before_irrefl(rem@[j as int]@);
                            }
                        }
                    }
                    best = j;
                }
                j += 1;
            }
            let ghost pre_page = page_rows@;
            let ghost pre_rem = rem@;
            let picked = clone_post(&rem[best]);
            let ghost picked_m = picked@;
            page_rows.push(picked);
            rem.remove(best);
            proof {
                assert(forall|k: int|
                    0 <= k < pre_page.len() ==> page_rows@[k] == #[trigger] pre_page[k]);
                assert(page_rows@[pre_page.len() as int]@ == picked_m);
                assert(forall|k: int|
                    0 <= k < rem@.len() ==> #[trigger] rem@[k] == (if k < best as int {
                        pre_rem[k]
                    } else {
                        pre_rem[k + 1]
                    }));
                assert forall|b: int| 0 <= b < rem@.len() implies row_before(
                    picked_m,
                    (#[trigger] rem@[b])@,
                ) by {
                    let orig = if b < best as int {
                        b
                    } else {
                        b + 1
                    };
                    assert(rem@[b] == pre_rem[orig]);
                    assert(!row_before(pre_rem[orig]@, picked_m));
                    lemma_row_order_total(picked_m, pre_rem[orig]@);
                }
                assert forall|j1: int, j2: int|
                    0 <= j1 < j2 < page_rows@.len() implies row_before(
                    (#[trigger] page_rows@[j1])@,
                    (#[trigger] page_rows@[j2])@,
                ) by {
                    if j2 == pre_page.len() as int {
                        assert(page_rows@[j1] == pre_page[j1]);
                        assert(row_before(pre_page[j1]@, pre_rem[best as int]@));
                    }
                }
                assert forall|j1: int, j2: int|
                    0 <= j1 < j2 < rem@.len() implies (#[trigger] rem@[j1])@.uri != (
                #[trigger] rem@[j2])@.uri by {
                    let o1 = if j1 < best as int { j1 } else { j1 + 1 };
                    let o2 = if j2 < best as int { j2 } else { j2 + 1 };
                    assert(rem@[j1] == pre_rem[o1]);
                    assert(rem@[j2] == pre_rem[o2]);
                }
                assert forall|a: int, b: int|
                    0 <= a < page_rows@.len() && 0 <= b < rem@.len() implies (
                #[trigger] page_rows@[a])@.uri != (#[trigger] rem@[b])@.uri by {
                    let o = if b < best as int { b } else { b + 1 };
                    assert(rem@[b] == pre_rem[o]);
                    if a < pre_page.len() as int {
                        assert(page_rows@[a] == pre_page[a]);
                    } else {
                        assert(page_rows@[a]@ == pre_rem[best as int]@);
                        assert(pre_rem[best as int]@.uri != pre_rem[o]@.uri);
                    }
                }
                assert forall|k: int|
                    0 <= k < cands0.len() implies views_of(page_rows@).contains(
                    #[trigger] cands0[k],
                ) || views_of(rem@).contains(cands0[k]) by {
                    if views_of(pre_page).contains(cands0[k]) {
                        let a = choose|a: int|
                            0 <= a < pre_page.len() && #[trigger] views_of(pre_page)[a]
                                == cands0[k];
                        assert(views_of(page_rows@)[a] == cands0[k]);
                    } else {
                        let a = choose|a: int|
                            0 <= a < pre_rem.len() && #[trigger] views_of(pre_rem)[a]
                                == cands0[k];
                        if a == best as int {
                            assert(views_of(page_rows@)[pre_page.len() as int] == cands0[k]);
                        } else if a < best as int {
                            assert(views_of(rem@)[a] == cands0[k]);
                        } else {
                            assert(views_of(rem@)[a - 1] == cands0[k]);
                        }
                    }
                }
            }
        }
        let ghost page = views_of(page_rows@);
        proof {
            assert forall|k: int|
                0 <= k < rows.len() && below_bound(#[trigger] rows[k], bound_m) && !page.contains(
                    rows[k],
                ) implies page.len() == limit && (page.len() > 0 ==> row_before(
                page.last(),
                rows[k],
            )) by {
                assert(cands0.contains(rows[k]));
                let a = choose|a: int|
                    0 <= a < views_of(rem@).len() && #[trigger] views_of(rem@)[a] == rows[k];
                assert(rem@.len() > 0);
                assert(page.len() == limit);
                if page.len() > 0 {
                    assert(row_before(page_rows@[page.len() - 1]@, rem@[a]@));
                }
            }
            assert(is_feed_page(rows, bound_m, limit as int, page));
        }
        let mut feed: Vec<Feed> = Vec::new();
        let np = page_rows.len();
        let mut k: usize = 0;
        while k < np
            invariant
                0 <= k <= np,
                np == page_rows@.len(),
                page == views_of(page_rows@),
                feed@.len() == k,
                forall|j: int| 0 <= j < k ==> (#[trigger] feed@[j])@ == page[j].uri,
            decreases np - k,
        {
            feed.push(Feed { post: String::from_str(page_rows[k].uri.as_str()) });
            k += 1;
        }
        let cursor: Option<String> = if np == 0 {
            None
        } else {
            let last = &page_rows[np - 1];
            let mut c = i64_to_dec(last.indexed_at);
            c.append("::");
            proof {
                reveal_strlit("::");
                assert("::"@ =~= seq![':', ':']);
            }
            c.append(last.cid.as_str());
            proof {
                assert(c@ =~= cursor_render(page.last()));
            }
            Some(c)
        };
        let out = OutputSchema { cursor, feed };
        proof {
            assert(out@.feed =~= uris_of(page));
            assert(out@.feed == uris_of(page));
            assert(out@.cursor == (if page.len() == 0 {
                None
            } else {
                Some(cursor_render(page.last()))
            }));
            if params.cursor is Some {
                let c = params.cursor->Some_0;
                assert(cursor_spec(c@) is Some);
                assert(bound_m == Some(cursor_spec(c@)->Some_0));
            }
            assert(is_feed_page(rows, bound_m, params.limit as int, page));
            let cb: Result<Option<(i64, Seq<char>)>, XrpcError> = match &params.cursor {
                Some(c) => match cursor_spec(c@) {
                    Some(b) => Ok(Some(b)),
                    None => Err(XrpcError::InvalidRequest),
                },
                None => Ok(None),
            };
            assert(cb == Ok::<Option<(i64, Seq<char>)>, XrpcError>(bound_m));
            assert(good_feed_output(rows, bound_m, params.limit as int, out@)) by {
                assert(is_feed_page(rows, bound_m, params.limit as int, page));
            }
        }
        Ok(out)
    }
}

/// Pages do not overlap: feeding the returned cursor back in yields rows
/// strictly below the previous page's last row, so no row appears twice.
pub proof fn lemma_pages_disjoint(
    rows: Seq<PostModel>,
    bound: Option<(i64, Seq<char>)>,
    limit: int,
    first: Seq<PostModel>,
    second: Seq<PostModel>,
)
    requires
        unique_uris(rows),
        is_feed_page(rows, bound, limit, first),
        first.len() > 0,
        is_feed_page(
            rows,
            Some((first.last().indexed_at, first.last().cid)),
            limit,
            second,
        ),
    ensures
        forall|i: int, j: int|
            0 <= i < first.len() && 0 <= j < second.len() ==> (#[trigger] first[i]).uri != (
            #[trigger] second[j]).uri,
{
    let last = first.last();
    assert forall|i: int, j: int|
        0 <= i < first.len() && 0 <= j < second.len() implies (#[trigger] first[i]).uri != (
    #[trigger] second[j]).uri by {
        let a = first[i];
        let b = second[j];
        assert(below_bound(b, Some((last.indexed_at, last.cid))));
        if a.uri == b.uri {
            let ka = choose|k: int| 0 <= k < rows.len() && #[trigger] rows[k] == a;
            let kb = choose|k: int| 0 <= k < rows.len() && #[trigger] rows[k] == b;
            assert(rows[ka].uri == rows[kb].uri);
            assert(a == b);
            if i < first.len() - 1 {
                assert(row_before(a, last));
            }
            lemma_lex_lt_trichotomy(b.cid, last.cid);
        }
    }
}

} // verus!

//! The derived post index: the persisted rows keyed by URI, with an
//! idempotent insert (a duplicate URI changes nothing) and a delete whose
//! combination with insert is replay-safe.

use vstd::prelude::*;

use crate::strutil::{str_eq, views_of};

verus! {

/// One indexed post row.
#[derive(Debug, Clone)]
pub struct Post {
    pub uri: String,
    pub cid: String,
    pub author: String,
    /// Index time as milliseconds since the epoch.
    pub indexed_at: i64,
}

/// Model of a [`Post`] row.
pub struct PostModel {
    pub uri: Seq<char>,
    pub cid: Seq<char>,
    pub author: Seq<char>,
    pub indexed_at: i64,
}

impl View for Post {
    type V = PostModel;

    open spec fn view(&self) -> PostModel {
        PostModel {
            uri: self.uri@,
            cid: self.cid@,
            author: self.author@,
            indexed_at: self.indexed_at,
        }
    }
}

/// Insert-if-absent: what the store's conflict-ignoring insert does.
pub open spec fn upsert_map(m: Map<Seq<char>, PostModel>, row: PostModel) -> Map<
    Seq<char>,
    PostModel,
> {
    if m.contains_key(row.uri) {
        m
    } else {
        m.insert(row.uri, row)
    }
}

/// No row uses a URI twice.
pub open spec fn unique_uris(rows: Seq<PostModel>) -> bool {
    forall|i: int, j: int|
        0 <= i < rows.len() && 0 <= j < rows.len() && i != j ==> (#[trigger] rows[i]).uri != (
        #[trigger] rows[j]).uri
}

/// The rows as a map keyed by URI.
pub open spec fn map_of(rows: Seq<PostModel>) -> Map<Seq<char>, PostModel>
    decreases rows.len(),
{
    if rows.len() == 0 {
        Map::empty()
    } else {
        map_of(rows.drop_last()).insert(rows.last().uri, rows.last())
    }
}

/// Membership and reading of [`map_of`].
pub proof fn lemma_map_of(rows: Seq<PostModel>)
    ensures
        forall|k: Seq<char>|
            #[trigger] map_of(rows).contains_key(k) <==> exists|i: int|
                0 <= i < rows.len() && (#[trigger] rows[i]).uri == k,
        unique_uris(rows) ==> forall|i: int|
            0 <= i < rows.len() ==> map_of(rows).contains_key((#[trigger] rows[i]).uri) && map_of(
                rows,
            )[rows[i].uri] == rows[i],
    decreases rows.len(),
{
    if rows.len() > 0 {
        let t = rows.drop_last();
        lemma_map_of(t);
        assert(forall|i: int| 0 <= i < t.len() ==> t[i] == #[trigger] rows[i]);
        assert forall|k: Seq<char>| #[trigger]
            map_of(rows).contains_key(k) implies exists|i: int|
            0 <= i < rows.len() && (#[trigger] rows[i]).uri == k by {
            if k == rows.last().uri {
                assert(rows[rows.len() - 1].uri == k);
            } else {
                assert(map_of(t).contains_key(k));
                let i = choose|i: int| 0 <= i < t.len() && (#[trigger] t[i]).uri == k;
                assert(rows[i].uri == k);
            }
        }
        assert forall|k: Seq<char>| (exists|i: int|
            0 <= i < rows.len() && (#[trigger] rows[i]).uri == k) implies #[trigger] map_of(
            rows,
        ).contains_key(k) by {
            let i = choose|i: int| 0 <= i < rows.len() && (#[trigger] rows[i]).uri == k;
            if i < rows.len() - 1 {
                assert(t[i].uri == k);
                assert(exists|j: int| 0 <= j < t.len() && (#[trigger] t[j]).uri == k);
                assert(map_of(t).contains_key(k));
            }
        }
        if unique_uris(rows) {
            assert(unique_uris(t));
            assert forall|i: int| 0 <= i < rows.len() implies map_of(rows).contains_key(
                (#[trigger] rows[i]).uri,
            ) && map_of(rows)[rows[i].uri] == rows[i] by {
                if i < rows.len() - 1 {
                    assert(rows[i].uri != rows.last().uri);
                    assert(map_of(t)[t[i].uri] == t[i]);
                }
            }
        }
    }
}

/// The derived index of matching posts, keyed by URI.
#[derive(Debug)]
pub struct PostIndex {
    rows: Vec<Post>,
}

impl View for PostIndex {
    type V = Map<Seq<char>, PostModel>;

    closed spec fn view(&self) -> Map<Seq<char>, PostModel> {
        map_of(views_of(self.rows@))
    }
}

impl PostIndex {
    /// The stored rows, one per URI.
    pub closed spec fn rows_model(&self) -> Seq<PostModel> {
        views_of(self.rows@)
    }

    #[verifier::type_invariant]
    closed spec fn inv(&self) -> bool {
        unique_uris(views_of(self.rows@))
    }

    /// An empty index.
    pub fn new() -> (r: PostIndex)
        ensures
            r@ == Map::<Seq<char>, PostModel>::empty(),
            r.rows_model() == Seq::<PostModel>::empty(),
    {
        proof {
            assert(views_of(Seq::<Post>::empty()) =~= Seq::<PostModel>::empty());
        }
        PostIndex { rows: Vec::new() }
    }

    /// The rows in storage order; they carry exactly the map's contents,
    /// one row per URI.
    pub fn snapshot(&self) -> (r: &Vec<Post>)
        ensures
            views_of(r@) == self.rows_model(),
            unique_uris(self.rows_model()),
            map_of(self.rows_model()) == self@,
    {
        proof {
            use_type_invariant(self);
        }
        &self.rows
    }

    /// How many URIs are indexed.
    pub fn len(&self) -> (r: usize)
        ensures
            r == self.rows_model().len(),
    {
        proof {
            assert(views_of(self.rows@).len() == self.rows@.len());
        }
        self.rows.len()
    }

    /// Insert a row unless its URI is already present; reports whether it
    /// was inserted. A replayed insert of the same URI is a no-op, not an
    /// error.
    pub fn upsert(&mut self, row: Post) -> (r: bool)
        ensures
            r == !old(self)@.contains_key(row.uri@),
            final(self)@ == upsert_map(old(self)@, row@),
    {
        proof {
            use_type_invariant(&*self);
            lemma_map_of(views_of(self.rows@));
        }
        let ghost ms = views_of(self.rows@);
        let n = self.rows.len();
        let mut i: usize = 0;
        while i < n
            invariant
                0 <= i <= n,
                n == self.rows@.len(),
                *self == *old(self),
                ms == views_of(self.rows@),
                ms.len() == n,
                forall|k: int| 0 <= k < n ==> (#[trigger] ms[k]) == self.rows@[k]@,
                forall|k: int| 0 <= k < i ==> (#[trigger] ms[k]).uri != row.uri@,
            decreases n - i,
        {
            if str_eq(self.rows[i].uri.as_str(), row.uri.as_str()) {
                proof {
                    lemma_map_of(ms);
                    assert(ms[i as int].uri == row.uri@);
                    assert(exists|j: int|
                        0 <= j < ms.len() && (#[trigger] ms[j]).uri == row.uri@);
                    assert(old(self)@.contains_key(row.uri@));
                }
                return false;
            }
            i += 1;
        }
        proof {
            lemma_map_of(ms);
            if self@.contains_key(row.uri@) {
                let j = choose|j: int| 0 <= j < ms.len() && (#[trigger] ms[j]).uri == row.uri@;
                assert(false);
            }
        }
        let ghost old_rows = self.rows@;
        let mut rows = crate::strutil::take_vec(&mut self.rows);
        rows.push(row);
        proof {
            assert(views_of(rows@) =~= views_of(old_rows).push(rows@.last()@));
            assert(views_of(rows@).drop_last() =~= views_of(old_rows));
            assert(unique_uris(views_of(rows@)));
        }
        self.rows = rows;
        true
    }

    /// Remove the row with this URI if one is present; absence is not an
    /// error.
    pub fn delete(&mut self, uri: &str)
        ensures
            final(self)@ == old(self)@.remove(uri@),
    {
        proof {
            use_type_invariant(&*self);
            lemma_map_of(views_of(self.rows@));
        }
        let ghost ms = views_of(self.rows@);
        let n = self.rows.len();
        let mut i: usize = 0;
        while i < n
            invariant
                0 <= i <= n,
                n == self.rows@.len(),
                *self == *old(self),
                ms == views_of(self.rows@),
                ms.len() == n,
                forall|k: int| 0 <= k < n ==> (#[trigger] ms[k]) == self.rows@[k]@,
                forall|k: int| 0 <= k < i ==> (#[trigger] ms[k]).uri != uri@,
                unique_uris(ms),
            decreases n - i,
        {
            if str_eq(self.rows[i].uri.as_str(), uri) {
                proof {
                    lemma_map_of(ms);
                    assert(ms[i as int].uri == uri@);
                }
                let mut rows = crate::strutil::take_vec(&mut self.rows);
                rows.remove(i);
                proof {
                    assert(views_of(rows@) =~= ms.remove(i as int));
                    lemma_map_of_remove(ms, i as int);
                    assert(unique_uris(views_of(rows@))) by {
                        let t = ms.remove(i as int);
                        assert(forall|a: int|
                            0 <= a < t.len() ==> #[trigger] t[a] == if a < i as int {
                                ms[a]
                            } else {
                                ms[a + 1]
                            });
                    }
                }
                self.rows = rows;
                return ;
            }
            i += 1;
        }
        proof {
            lemma_map_of(ms);
            if self@.contains_key(uri@) {
                let j = choose|j: int| 0 <= j < ms.len() && (#[trigger] ms[j]).uri == uri@;
                assert(false);
            }
            assert(self@ =~= self@.remove(uri@));
        }
    }
}

/// Removing row `i` from unique rows removes exactly its key from the map.
pub proof fn lemma_map_of_remove(rows: Seq<PostModel>, i: int)
    requires
        0 <= i < rows.len(),
        unique_uris(rows),
    ensures
        map_of(rows.remove(i)) == map_of(rows).remove(rows[i].uri),
    decreases rows.len(),
{
    lemma_map_of(rows);
    let t = rows.remove(i);
    assert(unique_uris(t)) by {
        assert(forall|a: int|
            0 <= a < t.len() ==> #[trigger] t[a] == if a < i {
                rows[a]
            } else {
                rows[a + 1]
            });
    }
    lemma_map_of(t);
    assert forall|k: Seq<char>| true implies (#[trigger] map_of(t).contains_key(k) <==> map_of(
        rows,
    ).remove(rows[i].uri).contains_key(k)) && (map_of(t).contains_key(k) ==> map_of(t)[k]
        == map_of(rows).remove(rows[i].uri)[k]) by {
        assert(forall|a: int|
            0 <= a < t.len() ==> #[trigger] t[a] == if a < i {
                rows[a]
            } else {
                rows[a + 1]
            });
        if map_of(t).contains_key(k) {
            let a = choose|a: int| 0 <= a < t.len() && (#[trigger] t[a]).uri == k;
            if a < i {
                assert(rows[a].uri == k);
            } else {
                assert(rows[a + 1].uri == k);
            }
        }
        if map_of(rows).remove(rows[i].uri).contains_key(k) {
            let a = choose|a: int| 0 <= a < rows.len() && (#[trigger] rows[a]).uri == k;
            if a < i {
                assert(t[a].uri == k);
                assert(t[a] == rows[a]);
            } else {
                assert(a != i);
                assert(t[a - 1].uri == k);
                assert(t[a - 1] == rows[a]);
            }
        }
    }
    assert(map_of(t) =~= map_of(rows).remove(rows[i].uri));
}

/// The create/delete law: inserting a row and then deleting its URI leaves
/// no row under that URI, exactly as deleting alone would; and a replayed
/// insert (insert, insert, delete) comes to the very same map — the insert
/// is idempotent and the delete has a single effect.
pub proof fn lemma_create_then_delete(m: Map<Seq<char>, PostModel>, row: PostModel, row2: PostModel)
    requires
        row2.uri == row.uri,
    ensures
        !upsert_map(m, row).remove(row.uri).contains_key(row.uri),
        upsert_map(m, row).remove(row.uri) == m.remove(row.uri),
        upsert_map(upsert_map(m, row), row2) == upsert_map(m, row),
        upsert_map(upsert_map(m, row), row2).remove(row.uri) == m.remove(row.uri),
{
    assert(upsert_map(m, row).remove(row.uri) =~= m.remove(row.uri));
    assert(upsert_map(upsert_map(m, row), row2) =~= upsert_map(m, row));
}

} // verus!

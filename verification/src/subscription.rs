//! The deployment's event handler: per-commit indexing. Each commit's
//! block archive is decoded once; every operation is applied in order —
//! a create of a post whose text matches the configured trigger is
//! indexed idempotently, a delete removes the row, an update is an
//! explicit no-op — and per-record failures are skipped, never escalated.

use vstd::prelude::*;

use crate::atproto_subscription::FirehoseSubscriptionHandler;
use crate::car::{lemma_car_archive_key_len, spec_car_archive};
use crate::data::{Post, PostIndex, PostModel, upsert_map};
use crate::lexicon::subscribe_repos::{blocks_lookup, lemma_blocks_lookup, record_result_of,
    OutputSchema, Record, RecordModel, RepoEventModel, RepoOpAction, RepoOpModel};
use crate::lexicon::{to_uri_seq, with_auth_path_spec, AtUri};
use crate::strutil::{base32_multibase, bytes_to_base32, str_eq, take_vec, views_of};

verus! {

/// A profile pushed to the outbound notification queue.
#[derive(Debug, Clone)]
pub struct UserProfile {
    pub name: String,
    pub avatar: String,
    /// Cache time as seconds since the epoch.
    pub last_cached: i64,
}

/// One durable mutation of the post index, for the storage layer to
/// replay.
#[derive(Debug, Clone)]
pub enum IndexOp {
    Insert(Post),
    Remove(String),
}

/// Model of an [`IndexOp`].
pub enum IndexOpModel {
    Insert(PostModel),
    Remove(Seq<char>),
}

impl View for IndexOp {
    type V = IndexOpModel;

    open spec fn view(&self) -> IndexOpModel {
        match self {
            IndexOp::Insert(p) => IndexOpModel::Insert(p@),
            IndexOp::Remove(u) => IndexOpModel::Remove(u@),
        }
    }
}

/// Replaying recorded mutations over a map, oldest first.
pub open spec fn replay(m: Map<Seq<char>, PostModel>, ops: Seq<IndexOpModel>) -> Map<
    Seq<char>,
    PostModel,
>
    decreases ops.len(),
{
    if ops.len() == 0 {
        m
    } else {
        let prev = replay(m, ops.drop_last());
        match ops.last() {
            IndexOpModel::Insert(row) => upsert_map(prev, row),
            IndexOpModel::Remove(uri) => prev.remove(uri),
        }
    }
}

/// Why a commit could not be handled at all.
#[derive(Debug, Clone, Copy, PartialEq, Eq, Structural)]
pub enum HandlerError {
    /// The commit's block archive failed to decode.
    BlockArchive,
}

/// The canonical URI of the record an operation addresses, derived from
/// the commit's author and the operation's path.
pub open spec fn uri_of(author: Seq<char>, path: Seq<char>) -> Seq<char> {
    to_uri_seq(with_auth_path_spec(author, path))
}

/// What one operation does to the index. A create whose block is missing
/// from the archive, fails to decode, is not a post, or whose text does
/// not match the trigger is skipped; a matching post is inserted
/// idempotently; an update never changes state; a delete removes the row
/// if present.
pub open spec fn apply_op(
    m: Map<Seq<char>, PostModel>,
    author: Seq<char>,
    op: RepoOpModel,
    blocks: Seq<(Seq<u8>, Seq<u8>)>,
    trigger: Seq<char>,
    now: i64,
) -> Map<Seq<char>, PostModel> {
    match op.action {
        RepoOpAction::Create => match op.cid {
            None => m,
            Some(cid) => match blocks_lookup(blocks, cid) {
                None => m,
                Some(bytes) => match record_result_of(bytes) {
                    Ok(RecordModel::Post(p)) => if p.text == trigger {
                        upsert_map(
                            m,
                            PostModel {
                                uri: uri_of(author, op.path),
                                cid: base32_multibase(cid),
                                author: author,
                                indexed_at: now,
                            },
                        )
                    } else {
                        m
                    },
                    _ => m,
                },
            },
        },
        RepoOpAction::Update => m,
        RepoOpAction::Delete => m.remove(uri_of(author, op.path)),
    }
}

/// A whole commit's operations applied in arrival order.
pub open spec fn apply_ops(
    m: Map<Seq<char>, PostModel>,
    author: Seq<char>,
    ops: Seq<RepoOpModel>,
    blocks: Seq<(Seq<u8>, Seq<u8>)>,
    trigger: Seq<char>,
    now: i64,
) -> Map<Seq<char>, PostModel>
    decreases ops.len(),
{
    if ops.len() == 0 {
        m
    } else {
        apply_op(
            apply_ops(m, author, ops.drop_last(), blocks, trigger, now),
            author,
            ops.last(),
            blocks,
            trigger,
            now,
        )
    }
}

/// A create referencing a block identifier absent from its own commit's
/// archive changes nothing in the index.
pub proof fn lemma_missing_block_skipped(
    m: Map<Seq<char>, PostModel>,
    author: Seq<char>,
    op: RepoOpModel,
    blocks: Seq<(Seq<u8>, Seq<u8>)>,
    trigger: Seq<char>,
    now: i64,
)
    requires
        op.action is Create,
        op.cid matches Some(c) && blocks_lookup(blocks, c) is None,
    ensures
        apply_op(m, author, op, blocks, trigger, now) == m,
{
}

/// Create then delete of the same author and path leaves no row for that
/// URI, whatever the create did; and across an at-least-once replay
/// (create, create, delete) the outcome is the same, because the second
/// create is a no-op.
pub proof fn lemma_create_delete_ops(
    m: Map<Seq<char>, PostModel>,
    author: Seq<char>,
    create_op: RepoOpModel,
    delete_op: RepoOpModel,
    blocks: Seq<(Seq<u8>, Seq<u8>)>,
    trigger: Seq<char>,
    now: i64,
)
    requires
        create_op.action is Create,
        delete_op.action is Delete,
        delete_op.path == create_op.path,
    ensures
        ({
            let after_create = apply_op(m, author, create_op, blocks, trigger, now);
            let after_delete = apply_op(after_create, author, delete_op, blocks, trigger, now);
            &&& !after_delete.contains_key(uri_of(author, create_op.path))
            &&& after_delete == m.remove(uri_of(author, create_op.path))
        }),
        ({
            let once = apply_op(m, author, create_op, blocks, trigger, now);
            let twice = apply_op(once, author, create_op, blocks, trigger, now);
            &&& twice == once
            &&& apply_op(twice, author, delete_op, blocks, trigger, now) == m.remove(
                uri_of(author, create_op.path),
            )
        }),
{
    let k = uri_of(author, create_op.path);
    let after_create = apply_op(m, author, create_op, blocks, trigger, now);
    assert(after_create.remove(k) =~= m.remove(k));
    let once = after_create;
    let twice = apply_op(once, author, create_op, blocks, trigger, now);
    assert(twice =~= once);
}

/// The per-commit indexer: the derived index, the configured trigger
/// string, and the mutations not yet drained by the storage layer.
pub struct ServiceSubscriptionHandler {
    pub index: PostIndex,
    pub trigger: String,
    pub pending: Vec<IndexOp>,
}

impl ServiceSubscriptionHandler {
    /// A fresh handler matching posts whose text equals `trigger` exactly.
    pub fn new(trigger: String) -> (r: Self)
        ensures
            r.index@ == Map::<Seq<char>, PostModel>::empty(),
            r.trigger == trigger,
            r.pending@ == Seq::<IndexOp>::empty(),
    {
        ServiceSubscriptionHandler { index: PostIndex::new(), trigger, pending: Vec::new() }
    }

    /// Hand the accumulated mutations to the storage layer.
    pub fn drain_pending(&mut self) -> (r: Vec<IndexOp>)
        ensures
            r@ == old(self).pending@,
            final(self).pending@ == Seq::<IndexOp>::empty(),
            final(self).index == old(self).index,
            final(self).trigger == old(self).trigger,
    {
        take_vec(&mut self.pending)
    }

    /// Handle one decoded event at the given time. Non-commit events and
    /// commits without blocks are no-ops; a commit whose archive does not
    /// decode is the one whole-commit error; otherwise every operation is
    /// applied in order, exactly as [`apply_ops`] says, and the recorded
    /// mutations replay to the same index.
    pub fn handle_event_at(&mut self, event: &OutputSchema, now_ms: i64) -> (r: Result<
        (),
        HandlerError,
    >)
        ensures
            final(self).trigger == old(self).trigger,
            old(self).pending@.is_prefix_of(final(self).pending@),
            replay(
                old(self).index@,
                views_of(final(self).pending@.skip(old(self).pending@.len() as int)),
            ) == final(self).index@,
            match event@ {
                RepoEventModel::Commit(c) => match c.blocks {
                    None => r is Ok && final(self).index@ == old(self).index@,
                    Some(bytes) => match spec_car_archive(bytes) {
                        None => r == Err::<(), HandlerError>(HandlerError::BlockArchive)
                            && final(self).index@ == old(self).index@,
                        Some(blocks) => r is Ok && final(self).index@ == apply_ops(
                            old(self).index@,
                            c.repo,
                            c.ops,
                            blocks,
                            old(self).trigger@,
                            now_ms,
                        ),
                    },
                },
                _ => r is Ok && final(self).index@ == old(self).index@,
            },
    {
        let ghost p0 = self.pending@.len() as int;
        proof {
            assert(self.pending@.skip(p0) =~= Seq::<IndexOp>::empty());
            assert(views_of(Seq::<IndexOp>::empty()) =~= Seq::<IndexOpModel>::empty());
        }
        match event {
            OutputSchema::Commit(commit) => {
                match &commit.blocks {
                    None => Ok(()),
                    Some(raw) => {
                        match raw.parse() {
                            Err(_) => Err(HandlerError::BlockArchive),
                            Ok(blocks) => {
                                let ghost bs = blocks@;
                                proof {
                                    lemma_car_archive_key_len(raw@);
                                }
                                let ghost om = views_of(commit.ops@);
                                let ghost author_m = commit.repo@;
                                let ghost trigger_m = self.trigger@;
                                let n = commit.ops.len();
                                let mut i: usize = 0;
                                proof {
                                    assert(om.take(0) =~= Seq::<RepoOpModel>::empty());
                                }
                                while i < n
                                    invariant
                                        0 <= i <= n,
                                        n == commit.ops@.len(),
                                        om == views_of(commit.ops@),
                                        om.len() == n,
                                        forall|k: int|
                                            0 <= k < n ==> om[k] == (
                                            #[trigger] commit.ops@[k])@,
                                        author_m == commit.repo@,
                                        blocks@ == bs,
                                        forall|k: int|
                                            0 <= k < bs.len() ==> (#[trigger] bs[k]).0.len()
                                                <= 100,
                                        self.trigger == old(self).trigger,
                                        trigger_m == self.trigger@,
                                        p0 == old(self).pending@.len() as int,
                                        old(self).pending@.is_prefix_of(self.pending@),
                                        self.index@ == apply_ops(
                                            old(self).index@,
                                            author_m,
                                            om.take(i as int),
                                            bs,
                                            trigger_m,
                                            now_ms,
                                        ),
                                        replay(
                                            old(self).index@,
                                            views_of(self.pending@.skip(p0)),
                                        ) == self.index@,
                                    decreases n - i,
                                {
                                    let ghost pre_index = self.index@;
                                    let ghost pre_pending = self.pending@;
                                    proof {
                                        assert(om.take(i as int + 1).drop_last() =~= om.take(
                                            i as int,
                                        ));
                                        assert(om.take(i as int + 1).last() == om[i as int]);
                                    }
                                    let op = &commit.ops[i];
                                    match op.action {
                                        RepoOpAction::Create => {
                                            match &op.cid {
                                                None => {},
                                                Some(cid) => {
                                                    match blocks.get(cid) {
                                                        Some(Ok(Record::Post(p))) => {
                                                            if str_eq(
                                                                p.text.as_str(),
                                                                self.trigger.as_str(),
                                                            ) {
                                                                proof {
                                                                    lemma_blocks_lookup(
                                                                        bs,
                                                                        cid@,
                                                                    );
                                                                }
                                                                let uri = AtUri::with_auth_path(
                                                                    String::from_str(
                                                                        commit.repo.as_str(),
                                                                    ),
                                                                    String::from_str(
                                                                        op.path.as_str(),
                                                                    ),
                                                                ).to_string();
                                                                let cid_str = bytes_to_base32(
                                                                    cid,
                                                                );
                                                                let row = Post {
                                                                    uri: String::from_str(
                                                                        uri.as_str(),
                                                                    ),
                                                                    cid: String::from_str(
                                                                        cid_str.as_str(),
                                                                    ),
                                                                    author: String::from_str(
                                                                        commit.repo.as_str(),
                                                                    ),
                                                                    indexed_at: now_ms,
                                                                };
                                                                let row2 = Post {
                                                                    uri,
                                                                    cid: cid_str,
                                                                    author: String::from_str(
                                                                        commit.repo.as_str(),
                                                                    ),
                                                                    indexed_at: now_ms,
                                                                };
                                                                self.index.upsert(row);
                                                                self.pending.push(
                                                                    IndexOp::Insert(row2),
                                                                );
                                                                proof {
                                                                    lemma_replay_step(
                                                                        old(self).index@,
                                                                        views_of(
                                                                            pre_pending.skip(p0),
                                                                        ),
                                                                        self.pending@.last()@,
                                                                    );
                                                                    assert(views_of(
                                                                        self.pending@.skip(p0),
                                                                    ) =~= views_of(
                                                                        pre_pending.skip(p0),
                                                                    ).push(
                                                                        self.pending@.last()@,
                                                                    ));
                                                                }
                                                            }
                                                        },
                                                        _ => {},
                                                    }
                                                },
                                            }
                                        },
                                        RepoOpAction::Update => {},
                                        RepoOpAction::Delete => {
                                            let uri = AtUri::with_auth_path(
                                                String::from_str(commit.repo.as_str()),
                                                String::from_str(op.path.as_str()),
                                            ).to_string();
                                            self.index.delete(uri.as_str());
                                            self.pending.push(IndexOp::Remove(uri));
                                            proof {
                                                lemma_replay_step(
                                                    old(self).index@,
                                                    views_of(pre_pending.skip(p0)),
                                                    self.pending@.last()@,
                                                );
                                                assert(views_of(self.pending@.skip(p0))
                                                    =~= views_of(pre_pending.skip(p0)).push(
                                                    self.pending@.last()@,
                                                ));
                                            }
                                        },
                                    }
                                    i += 1;
                                }
                                proof {
                                    assert(om.take(n as int) =~= om);
                                }
                                Ok(())
                            },
                        }
                    },
                }
            },
            _ => Ok(()),
        }
    }
}

/// Replaying one more mutation applies it to the replayed state.
proof fn lemma_replay_step(
    m: Map<Seq<char>, PostModel>,
    ops: Seq<IndexOpModel>,
    op: IndexOpModel,
)
    ensures
        replay(m, ops.push(op)) == (match op {
            IndexOpModel::Insert(row) => upsert_map(replay(m, ops), row),
            IndexOpModel::Remove(uri) => replay(m, ops).remove(uri),
        }),
{
    assert(ops.push(op).drop_last() =~= ops);
    assert(ops.push(op).last() == op);
}

/// Relies on `chrono::Utc::now` / `timestamp_millis`: the wall-clock time
/// in milliseconds since the epoch; nothing is assumed of its value.
#[verifier::external_body]
fn now_millis() -> i64 {
    chrono::Utc::now().timestamp_millis()
}

impl FirehoseSubscriptionHandler for ServiceSubscriptionHandler {
    fn handle_event(&mut self, event: OutputSchema) -> Result<(), String> {
        let now = now_millis();
        match self.handle_event_at(&event, now) {
            Ok(()) => Ok(()),
            Err(_) => Err(String::from_str("failed to decode commit block archive")),
        }
    }
}

} // verus!

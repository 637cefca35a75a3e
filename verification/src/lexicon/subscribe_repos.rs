//! Repository-event model of the firehose stream: the typed event kinds, the
//! per-operation entries of a commit, the commit's block archive, and the
//! decoders that read them out of generic DAG-CBOR values.

use vstd::prelude::*;

use crate::car::{spec_car_archive, parse_car_archive};
use crate::cbor::{Cbor, CborModel, dict_get, entry_models_of, entries_get, spec_parse_all,
    parse_all, lemma_entry_models_of};
use crate::lexicon::{follow, like, post, repo, repost};
use crate::strutil::{bytes_eq, clone_bytes, str_eq, views_of};

verus! {

/// Query parameters of the stream subscription: the resumption cursor.
#[derive(Debug, Clone)]
pub struct QueryParams {
    pub cursor: Option<u64>,
}

/// Fields common to every sequenced event.
#[derive(Debug, Clone)]
pub struct CommonPart {
    pub seq: u64,
    pub time: String,
}

/// Model of [`CommonPart`].
pub struct CommonPartModel {
    pub seq: u64,
    pub time: Seq<char>,
}

impl View for CommonPart {
    type V = CommonPartModel;

    open spec fn view(&self) -> CommonPartModel {
        CommonPartModel { seq: self.seq, time: self.time@ }
    }
}

/// What one operation of a commit does.
#[derive(Debug, Clone, Copy, PartialEq, Eq, Structural)]
pub enum RepoOpAction {
    Create,
    Update,
    Delete,
}

/// One operation of a commit: its action, the `<collection>/<record-key>`
/// path, and the block identifier for creates and updates.
#[derive(Debug, Clone)]
pub struct RepoOp {
    pub action: RepoOpAction,
    pub path: String,
    pub cid: Option<Vec<u8>>,
}

/// Model of a [`RepoOp`].
pub struct RepoOpModel {
    pub action: RepoOpAction,
    pub path: Seq<char>,
    pub cid: Option<Seq<u8>>,
}

impl View for RepoOp {
    type V = RepoOpModel;

    open spec fn view(&self) -> RepoOpModel {
        RepoOpModel {
            action: self.action,
            path: self.path@,
            cid: match self.cid {
                Some(c) => Some(c@),
                None => None,
            },
        }
    }
}

/// The undecoded block archive of a commit.
#[derive(Debug, Clone)]
pub struct CommitRawBlocks(pub Vec<u8>);

impl View for CommitRawBlocks {
    type V = Seq<u8>;

    open spec fn view(&self) -> Seq<u8> {
        self.0@
    }
}

/// A commit: a batch of operations on one author's repository.
#[derive(Debug, Clone)]
pub struct Commit {
    pub _common: CommonPart,
    pub rebase: bool,
    pub too_big: bool,
    pub repo: String,
    pub commit: Vec<u8>,
    pub prev: Option<Vec<u8>>,
    pub rev: String,
    pub since: Option<String>,
    pub blocks: Option<CommitRawBlocks>,
    pub ops: Vec<RepoOp>,
    pub blobs: Vec<Vec<u8>>,
}

/// Model of a [`Commit`].
pub struct CommitModel {
    pub common: CommonPartModel,
    pub rebase: bool,
    pub too_big: bool,
    pub repo: Seq<char>,
    pub commit: Seq<u8>,
    pub prev: Option<Seq<u8>>,
    pub rev: Seq<char>,
    pub since: Option<Seq<char>>,
    pub blocks: Option<Seq<u8>>,
    pub ops: Seq<RepoOpModel>,
    pub blobs: Seq<Seq<u8>>,
}

impl View for Commit {
    type V = CommitModel;

    open spec fn view(&self) -> CommitModel {
        CommitModel {
            common: self._common@,
            rebase: self.rebase,
            too_big: self.too_big,
            repo: self.repo@,
            commit: self.commit@,
            prev: match self.prev {
                Some(c) => Some(c@),
                None => None,
            },
            rev: self.rev@,
            since: match self.since {
                Some(s) => Some(s@),
                None => None,
            },
            blocks: match self.blocks {
                Some(b) => Some(b@),
                None => None,
            },
            ops: views_of(self.ops@),
            blobs: views_of(self.blobs@),
        }
    }
}

/// An identity event.
#[derive(Debug, Clone)]
pub struct Identity {
    pub _common: CommonPart,
    pub did: String,
    pub handle: Option<String>,
}

/// Model of an [`Identity`] event.
pub struct IdentityModel {
    pub common: CommonPartModel,
    pub did: Seq<char>,
    pub handle: Option<Seq<char>>,
}

impl View for Identity {
    type V = IdentityModel;

    open spec fn view(&self) -> IdentityModel {
        IdentityModel {
            common: self._common@,
            did: self.did@,
            handle: match self.handle {
                Some(h) => Some(h@),
                None => None,
            },
        }
    }
}

/// An account-status event.
#[derive(Debug, Clone)]
pub struct Account {
    pub _common: CommonPart,
    pub did: String,
    pub active: bool,
    pub status: Option<String>,
}

/// Model of an [`Account`] event.
pub struct AccountModel {
    pub common: CommonPartModel,
    pub did: Seq<char>,
    pub active: bool,
    pub status: Option<Seq<char>>,
}

impl View for Account {
    type V = AccountModel;

    open spec fn view(&self) -> AccountModel {
        AccountModel {
            common: self._common@,
            did: self.did@,
            active: self.active,
            status: match self.status {
                Some(s) => Some(s@),
                None => None,
            },
        }
    }
}

/// A handle-change event.
#[derive(Debug, Clone)]
pub struct Handle {
    pub _common: CommonPart,
    pub did: String,
    pub handle: String,
}

/// Model of a [`Handle`] event.
pub struct HandleModel {
    pub common: CommonPartModel,
    pub did: Seq<char>,
    pub handle: Seq<char>,
}

impl View for Handle {
    type V = HandleModel;

    open spec fn view(&self) -> HandleModel {
        HandleModel { common: self._common@, did: self.did@, handle: self.handle@ }
    }
}

/// A migration event.
#[derive(Debug, Clone)]
pub struct Migrate {
    pub _common: CommonPart,
    pub did: String,
    pub migrate_to: Option<String>,
}

/// Model of a [`Migrate`] event.
pub struct MigrateModel {
    pub common: CommonPartModel,
    pub did: Seq<char>,
    pub migrate_to: Option<Seq<char>>,
}

impl View for Migrate {
    type V = MigrateModel;

    open spec fn view(&self) -> MigrateModel {
        MigrateModel {
            common: self._common@,
            did: self.did@,
            migrate_to: match self.migrate_to {
                Some(m) => Some(m@),
                None => None,
            },
        }
    }
}

/// A tombstone event.
#[derive(Debug, Clone)]
pub struct Tombstone {
    pub _common: CommonPart,
    pub did: String,
}

/// Model of a [`Tombstone`] event.
pub struct TombstoneModel {
    pub common: CommonPartModel,
    pub did: Seq<char>,
}

impl View for Tombstone {
    type V = TombstoneModel;

    open spec fn view(&self) -> TombstoneModel {
        TombstoneModel { common: self._common@, did: self.did@ }
    }
}

/// The names an informational event may carry.
#[derive(Debug, Clone, Copy, PartialEq, Eq, Structural)]
pub enum InfoName {
    OutDatedCursor,
}

/// An informational event.
#[derive(Debug, Clone)]
pub struct Info {
    pub name: InfoName,
    pub message: Option<String>,
}

/// Model of an [`Info`] event.
pub struct InfoModel {
    pub name: InfoName,
    pub message: Option<Seq<char>>,
}

impl View for Info {
    type V = InfoModel;

    open spec fn view(&self) -> InfoModel {
        InfoModel {
            name: self.name,
            message: match self.message {
                Some(m) => Some(m@),
                None => None,
            },
        }
    }
}

/// The typed union of repository events.
#[derive(Debug, Clone)]
pub enum OutputSchema {
    Commit(Box<Commit>),
    Identity(Identity),
    Account(Account),
    Handle(Handle),
    Migrate(Migrate),
    Tombstone(Tombstone),
    Info(Info),
}

/// Model of an [`OutputSchema`] event.
pub enum RepoEventModel {
    Commit(CommitModel),
    Identity(IdentityModel),
    Account(AccountModel),
    Handle(HandleModel),
    Migrate(MigrateModel),
    Tombstone(TombstoneModel),
    Info(InfoModel),
}

impl View for OutputSchema {
    type V = RepoEventModel;

    open spec fn view(&self) -> RepoEventModel {
        match self {
            OutputSchema::Commit(c) => RepoEventModel::Commit(c@),
            OutputSchema::Identity(e) => RepoEventModel::Identity(e@),
            OutputSchema::Account(e) => RepoEventModel::Account(e@),
            OutputSchema::Handle(e) => RepoEventModel::Handle(e@),
            OutputSchema::Migrate(e) => RepoEventModel::Migrate(e@),
            OutputSchema::Tombstone(e) => RepoEventModel::Tombstone(e@),
            OutputSchema::Info(e) => RepoEventModel::Info(e@),
        }
    }
}

/// A required text field.
pub open spec fn req_text(ems: Seq<(Seq<char>, CborModel)>, key: Seq<char>) -> Option<Seq<char>> {
    match dict_get(ems, key) {
        Some(CborModel::Text(t)) => Some(t),
        _ => None,
    }
}

/// A required unsigned-integer field.
pub open spec fn req_u64(ems: Seq<(Seq<char>, CborModel)>, key: Seq<char>) -> Option<u64> {
    match dict_get(ems, key) {
        Some(CborModel::UInt(n)) => Some(n),
        _ => None,
    }
}

/// A required boolean field.
pub open spec fn req_bool(ems: Seq<(Seq<char>, CborModel)>, key: Seq<char>) -> Option<bool> {
    match dict_get(ems, key) {
        Some(CborModel::Boolean(b)) => Some(b),
        _ => None,
    }
}

/// A required link field.
pub open spec fn req_link(ems: Seq<(Seq<char>, CborModel)>, key: Seq<char>) -> Option<Seq<u8>> {
    match dict_get(ems, key) {
        Some(CborModel::Link(c)) => Some(c),
        _ => None,
    }
}

/// An optional text field: absent or null is an absent value, any other
/// non-text shape is an error (the outer `None`).
pub open spec fn opt_text(ems: Seq<(Seq<char>, CborModel)>, key: Seq<char>) -> Option<
    Option<Seq<char>>,
> {
    match dict_get(ems, key) {
        None => Some(None),
        Some(CborModel::Null) => Some(None),
        Some(CborModel::Text(t)) => Some(Some(t)),
        Some(_) => None,
    }
}

/// An optional link field: absent or null is an absent value.
pub open spec fn opt_link(ems: Seq<(Seq<char>, CborModel)>, key: Seq<char>) -> Option<
    Option<Seq<u8>>,
> {
    match dict_get(ems, key) {
        None => Some(None),
        Some(CborModel::Null) => Some(None),
        Some(CborModel::Link(c)) => Some(Some(c)),
        Some(_) => None,
    }
}

/// An optional byte-string field: absent or null is an absent value.
pub open spec fn opt_bytes(ems: Seq<(Seq<char>, CborModel)>, key: Seq<char>) -> Option<
    Option<Seq<u8>>,
> {
    match dict_get(ems, key) {
        None => Some(None),
        Some(CborModel::Null) => Some(None),
        Some(CborModel::Bytes(b)) => Some(Some(b)),
        Some(_) => None,
    }
}

/// A link field read leniently: any shape other than a link, including an
/// absent field, is simply an absent value, never an error.
pub open spec fn lenient_link(ems: Seq<(Seq<char>, CborModel)>, key: Seq<char>) -> Option<
    Seq<u8>,
> {
    match dict_get(ems, key) {
        Some(CborModel::Link(c)) => Some(c),
        _ => None,
    }
}

/// A required list field.
pub open spec fn req_list(ems: Seq<(Seq<char>, CborModel)>, key: Seq<char>) -> Option<
    Seq<CborModel>,
> {
    match dict_get(ems, key) {
        Some(CborModel::List(items)) => Some(items),
        _ => None,
    }
}

/// The common part read out of an event map.
pub open spec fn common_of(ems: Seq<(Seq<char>, CborModel)>) -> Option<CommonPartModel> {
    if req_u64(ems, "seq"@) is Some && req_text(ems, "time"@) is Some {
        Some(
            CommonPartModel {
                seq: req_u64(ems, "seq"@)->Some_0,
                time: req_text(ems, "time"@)->Some_0,
            },
        )
    } else {
        None
    }
}

/// The action named by an operation.
pub open spec fn action_of(a: Seq<char>) -> Option<RepoOpAction> {
    if a == "create"@ {
        Some(RepoOpAction::Create)
    } else if a == "update"@ {
        Some(RepoOpAction::Update)
    } else if a == "delete"@ {
        Some(RepoOpAction::Delete)
    } else {
        None
    }
}

/// One operation read out of its map value.
pub open spec fn op_of(v: CborModel) -> Option<RepoOpModel> {
    match v {
        CborModel::Dict(ems) => {
            if req_text(ems, "action"@) is Some && req_text(ems, "path"@) is Some && opt_link(
                ems,
                "cid"@,
            ) is Some && action_of(req_text(ems, "action"@)->Some_0) is Some {
                Some(
                    RepoOpModel {
                        action: action_of(req_text(ems, "action"@)->Some_0)->Some_0,
                        path: req_text(ems, "path"@)->Some_0,
                        cid: opt_link(ems, "cid"@)->Some_0,
                    },
                )
            } else {
                None
            }
        },
        _ => None,
    }
}

/// All operations of a commit, in order; any malformed one fails the event.
pub open spec fn ops_of(items: Seq<CborModel>) -> Option<Seq<RepoOpModel>>
    decreases items.len(),
{
    if items.len() == 0 {
        Some(Seq::empty())
    } else {
        match (op_of(items[0]), ops_of(items.drop_first())) {
            (Some(o), Some(rest)) => Some(seq![o] + rest),
            _ => None,
        }
    }
}

/// A list of links, in order.
pub open spec fn links_of(items: Seq<CborModel>) -> Option<Seq<Seq<u8>>>
    decreases items.len(),
{
    if items.len() == 0 {
        Some(Seq::empty())
    } else {
        match (items[0], links_of(items.drop_first())) {
            (CborModel::Link(c), Some(rest)) => Some(seq![c] + rest),
            _ => None,
        }
    }
}

/// A commit read out of a decoded value.
pub open spec fn commit_of(v: CborModel) -> Option<CommitModel> {
    match v {
        CborModel::Dict(ems) => {
            if common_of(ems) is Some && req_bool(ems, "rebase"@) is Some && req_bool(
                ems,
                "tooBig"@,
            ) is Some && req_text(ems, "repo"@) is Some && req_link(ems, "commit"@) is Some
                && req_text(ems, "rev"@) is Some && opt_text(ems, "since"@) is Some && opt_bytes(
                ems,
                "blocks"@,
            ) is Some && req_list(ems, "ops"@) is Some && req_list(ems, "blobs"@) is Some && ops_of(
                req_list(ems, "ops"@)->Some_0,
            ) is Some && links_of(req_list(ems, "blobs"@)->Some_0) is Some {
                Some(
                    CommitModel {
                        common: common_of(ems)->Some_0,
                        rebase: req_bool(ems, "rebase"@)->Some_0,
                        too_big: req_bool(ems, "tooBig"@)->Some_0,
                        repo: req_text(ems, "repo"@)->Some_0,
                        commit: req_link(ems, "commit"@)->Some_0,
                        prev: lenient_link(ems, "prev"@),
                        rev: req_text(ems, "rev"@)->Some_0,
                        since: opt_text(ems, "since"@)->Some_0,
                        blocks: opt_bytes(ems, "blocks"@)->Some_0,
                        ops: ops_of(req_list(ems, "ops"@)->Some_0)->Some_0,
                        blobs: links_of(req_list(ems, "blobs"@)->Some_0)->Some_0,
                    },
                )
            } else {
                None
            }
        },
        _ => None,
    }
}

/// An identity event read out of a decoded value.
pub open spec fn identity_of(v: CborModel) -> Option<IdentityModel> {
    match v {
        CborModel::Dict(ems) => {
            if common_of(ems) is Some && req_text(ems, "did"@) is Some && opt_text(
                ems,
                "handle"@,
            ) is Some {
                Some(
                    IdentityModel {
                        common: common_of(ems)->Some_0,
                        did: req_text(ems, "did"@)->Some_0,
                        handle: opt_text(ems, "handle"@)->Some_0,
                    },
                )
            } else {
                None
            }
        },
        _ => None,
    }
}

/// An account event read out of a decoded value.
pub open spec fn account_of(v: CborModel) -> Option<AccountModel> {
    match v {
        CborModel::Dict(ems) => {
            if common_of(ems) is Some && req_text(ems, "did"@) is Some && req_bool(
                ems,
                "active"@,
            ) is Some && opt_text(ems, "status"@) is Some {
                Some(
                    AccountModel {
                        common: common_of(ems)->Some_0,
                        did: req_text(ems, "did"@)->Some_0,
                        active: req_bool(ems, "active"@)->Some_0,
                        status: opt_text(ems, "status"@)->Some_0,
                    },
                )
            } else {
                None
            }
        },
        _ => None,
    }
}

/// A handle event read out of a decoded value.
pub open spec fn handle_of(v: CborModel) -> Option<HandleModel> {
    match v {
        CborModel::Dict(ems) => {
            if common_of(ems) is Some && req_text(ems, "did"@) is Some && req_text(
                ems,
                "handle"@,
            ) is Some {
                Some(
                    HandleModel {
                        common: common_of(ems)->Some_0,
                        did: req_text(ems, "did"@)->Some_0,
                        handle: req_text(ems, "handle"@)->Some_0,
                    },
                )
            } else {
                None
            }
        },
        _ => None,
    }
}

/// A migrate event read out of a decoded value.
pub open spec fn migrate_of(v: CborModel) -> Option<MigrateModel> {
    match v {
        CborModel::Dict(ems) => {
            if common_of(ems) is Some && req_text(ems, "did"@) is Some && opt_text(
                ems,
                "migrateTo"@,
            ) is Some {
                Some(
                    MigrateModel {
                        common: common_of(ems)->Some_0,
                        did: req_text(ems, "did"@)->Some_0,
                        migrate_to: opt_text(ems, "migrateTo"@)->Some_0,
                    },
                )
            } else {
                None
            }
        },
        _ => None,
    }
}

/// A tombstone event read out of a decoded value.
pub open spec fn tombstone_of(v: CborModel) -> Option<TombstoneModel> {
    match v {
        CborModel::Dict(ems) => {
            if common_of(ems) is Some && req_text(ems, "did"@) is Some {
                Some(
                    TombstoneModel {
                        common: common_of(ems)->Some_0,
                        did: req_text(ems, "did"@)->Some_0,
                    },
                )
            } else {
                None
            }
        },
        _ => None,
    }
}

/// An informational event read out of a decoded value.
pub open spec fn info_of(v: CborModel) -> Option<InfoModel> {
    match v {
        CborModel::Dict(ems) => {
            if req_text(ems, "name"@) == Some("OutDatedCursor"@) && opt_text(
                ems,
                "message"@,
            ) is Some {
                Some(
                    InfoModel {
                        name: InfoName::OutDatedCursor,
                        message: opt_text(ems, "message"@)->Some_0,
                    },
                )
            } else {
                None
            }
        },
        _ => None,
    }
}

/// Read a required text field.
fn get_req_text(entries: &Vec<(String, Cbor)>, key: &str) -> (r: Option<String>)
    ensures
        ({
            let sp = req_text(entry_models_of(entries@), key@);
            match (r, sp) {
                (Some(t), Some(st)) => t@ == st,
                (None, None) => true,
                _ => false,
            }
        }),
{
    match entries_get(entries, key) {
        Some(Cbor::Text(t)) => Some(String::from_str(t.as_str())),
        _ => None,
    }
}

/// Read a required unsigned-integer field.
fn get_req_u64(entries: &Vec<(String, Cbor)>, key: &str) -> (r: Option<u64>)
    ensures
        r == req_u64(entry_models_of(entries@), key@),
{
    match entries_get(entries, key) {
        Some(Cbor::UInt(n)) => Some(*n),
        _ => None,
    }
}

/// Read a required boolean field.
fn get_req_bool(entries: &Vec<(String, Cbor)>, key: &str) -> (r: Option<bool>)
    ensures
        r == req_bool(entry_models_of(entries@), key@),
{
    match entries_get(entries, key) {
        Some(Cbor::Boolean(b)) => Some(*b),
        _ => None,
    }
}

/// Read a required link field.
fn get_req_link(entries: &Vec<(String, Cbor)>, key: &str) -> (r: Option<Vec<u8>>)
    ensures
        ({
            let sp = req_link(entry_models_of(entries@), key@);
            match (r, sp) {
                (Some(c), Some(sc)) => c@ == sc,
                (None, None) => true,
                _ => false,
            }
        }),
{
    match entries_get(entries, key) {
        Some(Cbor::Link(c)) => Some(clone_bytes(c)),
        _ => None,
    }
}

/// Read an optional text field.
fn get_opt_text(entries: &Vec<(String, Cbor)>, key: &str) -> (r: Option<Option<String>>)
    ensures
        ({
            let sp = opt_text(entry_models_of(entries@), key@);
            match (r, sp) {
                (Some(Some(t)), Some(Some(st))) => t@ == st,
                (Some(None), Some(None)) => true,
                (None, None) => true,
                _ => false,
            }
        }),
{
    match entries_get(entries, key) {
        None => Some(None),
        Some(Cbor::Null) => Some(None),
        Some(Cbor::Text(t)) => Some(Some(String::from_str(t.as_str()))),
        Some(_) => None,
    }
}

/// Read an optional link field.
fn get_opt_link(entries: &Vec<(String, Cbor)>, key: &str) -> (r: Option<Option<Vec<u8>>>)
    ensures
        ({
            let sp = opt_link(entry_models_of(entries@), key@);
            match (r, sp) {
                (Some(Some(c)), Some(Some(sc))) => c@ == sc,
                (Some(None), Some(None)) => true,
                (None, None) => true,
                _ => false,
            }
        }),
{
    match entries_get(entries, key) {
        None => Some(None),
        Some(Cbor::Null) => Some(None),
        Some(Cbor::Link(c)) => Some(Some(clone_bytes(c))),
        Some(_) => None,
    }
}

/// Read an optional byte-string field.
fn get_opt_bytes(entries: &Vec<(String, Cbor)>, key: &str) -> (r: Option<Option<Vec<u8>>>)
    ensures
        ({
            let sp = opt_bytes(entry_models_of(entries@), key@);
            match (r, sp) {
                (Some(Some(b)), Some(Some(sb))) => b@ == sb,
                (Some(None), Some(None)) => true,
                (None, None) => true,
                _ => false,
            }
        }),
{
    match entries_get(entries, key) {
        None => Some(None),
        Some(Cbor::Null) => Some(None),
        Some(Cbor::Bytes(b)) => Some(Some(clone_bytes(b))),
        Some(_) => None,
    }
}

/// Read a link field leniently.
fn get_lenient_link(entries: &Vec<(String, Cbor)>, key: &str) -> (r: Option<Vec<u8>>)
    ensures
        ({
            let sp = lenient_link(entry_models_of(entries@), key@);
            match (r, sp) {
                (Some(c), Some(sc)) => c@ == sc,
                (None, None) => true,
                _ => false,
            }
        }),
{
    match entries_get(entries, key) {
        Some(Cbor::Link(c)) => Some(clone_bytes(c)),
        _ => None,
    }
}

/// Read the common part of an event map.
fn get_common(entries: &Vec<(String, Cbor)>) -> (r: Option<CommonPart>)
    ensures
        ({
            let sp = common_of(entry_models_of(entries@));
            match (r, sp) {
                (Some(c), Some(sc)) => c@ == sc,
                (None, None) => true,
                _ => false,
            }
        }),
{
    match (get_req_u64(entries, "seq"), get_req_text(entries, "time")) {
        (Some(seq), Some(time)) => Some(CommonPart { seq, time }),
        _ => None,
    }
}

/// `ops_of` succeeds exactly when every element is a well-formed operation,
/// and then reads them element-wise.
pub proof fn lemma_ops_of(items: Seq<CborModel>)
    ensures
        ops_of(items) is Some <==> (forall|i: int| 0 <= i < items.len() ==> op_of(#[trigger] items[i]) is Some),
        ops_of(items) is Some ==> ops_of(items)->Some_0.len() == items.len() && (forall|i: int|
            0 <= i < items.len() ==> ops_of(items)->Some_0[i] == op_of(#[trigger] items[i])->Some_0),
    decreases items.len(),
{
    if items.len() > 0 {
        let t = items.drop_first();
        lemma_ops_of(t);
        assert(forall|i: int| 1 <= i < items.len() ==> t[i - 1] == #[trigger] items[i]);
        if op_of(items[0]) is Some && (forall|i: int| 0 <= i < t.len() ==> op_of(
            #[trigger] t[i],
        ) is Some) {
            assert(ops_of(items) is Some);
        }
    }
}

/// `links_of` succeeds exactly when every element is a link, and then reads
/// them element-wise.
pub proof fn lemma_links_of(items: Seq<CborModel>)
    ensures
        links_of(items) is Some <==> (forall|i: int| 0 <= i < items.len() ==> (#[trigger] items[i]) is Link),
        links_of(items) is Some ==> links_of(items)->Some_0.len() == items.len() && (forall|i: int|
            0 <= i < items.len() ==> links_of(items)->Some_0[i] == (#[trigger] items[i])->Link_0),
    decreases items.len(),
{
    if items.len() > 0 {
        let t = items.drop_first();
        lemma_links_of(t);
        assert(forall|i: int| 1 <= i < items.len() ==> t[i - 1] == #[trigger] items[i]);
        if items[0] is Link && (forall|i: int| 0 <= i < t.len() ==> (#[trigger] t[i]) is Link) {
            assert(links_of(items) is Some);
        }
    }
}

/// Read one operation out of its map value.
fn parse_op(v: &Cbor) -> (r: Option<RepoOp>)
    ensures
        ({
            let sp = op_of(v@);
            match (r, sp) {
                (Some(o), Some(so)) => o@ == so,
                (None, None) => true,
                _ => false,
            }
        }),
{
    match v {
        Cbor::Dict(entries) => {
            match (
                get_req_text(entries, "action"),
                get_req_text(entries, "path"),
                get_opt_link(entries, "cid"),
            ) {
                (Some(action_text), Some(path), Some(cid)) => {
                    let action = if str_eq(action_text.as_str(), "create") {
                        Some(RepoOpAction::Create)
                    } else if str_eq(action_text.as_str(), "update") {
                        Some(RepoOpAction::Update)
                    } else if str_eq(action_text.as_str(), "delete") {
                        Some(RepoOpAction::Delete)
                    } else {
                        None
                    };
                    match action {
                        Some(action) => Some(RepoOp { action, path, cid }),
                        None => None,
                    }
                },
                _ => None,
            }
        },
        _ => None,
    }
}

/// Read all operations of a commit.
fn parse_ops(items: &Vec<Cbor>) -> (r: Option<Vec<RepoOp>>)
    ensures
        ({
            let sp = ops_of(crate::cbor::models_of(items@));
            match (r, sp) {
                (Some(ops), Some(sops)) => views_of(ops@) == sops,
                (None, None) => true,
                _ => false,
            }
        }),
{
    let ghost ms = crate::cbor::models_of(items@);
    proof {
        crate::cbor::lemma_models_of(items@);
        lemma_ops_of(ms);
    }
    let mut ops: Vec<RepoOp> = Vec::new();
    let n = items.len();
    let mut i: usize = 0;
    while i < n
        invariant
            0 <= i <= n,
            n == items@.len(),
            ms == crate::cbor::models_of(items@),
            ms.len() == n,
            forall|k: int| 0 <= k < n ==> ms[k] == #[trigger] items@[k].model(),
            ops@.len() == i,
            forall|k: int| 0 <= k < i ==> op_of(#[trigger] ms[k]) is Some,
            forall|k: int| 0 <= k < i ==> (#[trigger] ops@[k])@ == op_of(ms[k])->Some_0,
        decreases n - i,
    {
        match parse_op(&items[i]) {
            Some(op) => {
                ops.push(op);
            },
            None => {
                proof {
                    lemma_ops_of(ms);
                }
                return None;
            },
        }
        i += 1;
    }
    proof {
        lemma_ops_of(ms);
        assert(views_of(ops@) =~= ops_of(ms)->Some_0);
    }
    Some(ops)
}

/// Read all blob links of a commit.
fn parse_links(items: &Vec<Cbor>) -> (r: Option<Vec<Vec<u8>>>)
    ensures
        ({
            let sp = links_of(crate::cbor::models_of(items@));
            match (r, sp) {
                (Some(links), Some(slinks)) => views_of(links@) == slinks,
                (None, None) => true,
                _ => false,
            }
        }),
{
    let ghost ms = crate::cbor::models_of(items@);
    proof {
        crate::cbor::lemma_models_of(items@);
        lemma_links_of(ms);
    }
    let mut links: Vec<Vec<u8>> = Vec::new();
    let n = items.len();
    let mut i: usize = 0;
    while i < n
        invariant
            0 <= i <= n,
            n == items@.len(),
            ms == crate::cbor::models_of(items@),
            ms.len() == n,
            forall|k: int| 0 <= k < n ==> ms[k] == #[trigger] items@[k].model(),
            links@.len() == i,
            forall|k: int| 0 <= k < i ==> (#[trigger] ms[k]) is Link,
            forall|k: int| 0 <= k < i ==> (#[trigger] links@[k])@ == ms[k]->Link_0,
        decreases n - i,
    {
        let item = &items[i];
        proof {
            assert(ms[i as int] == items@[i as int].model());
        }
        match item {
            Cbor::Link(c) => {
                proof {
                    assert(ms[i as int] == CborModel::Link(c@));
                }
                links.push(clone_bytes(c));
            },
            _ => {
                proof {
                    assert(!(ms[i as int] is Link));
                    lemma_links_of(ms);
                }
                return None;
            },
        }
        i += 1;
    }
    proof {
        lemma_links_of(ms);
        assert(views_of(links@) =~= links_of(ms)->Some_0);
    }
    Some(links)
}

impl Commit {
    /// Read a commit out of a decoded value.
    pub fn from_cbor_value(v: &Cbor) -> (r: Option<Commit>)
        ensures
            ({
                let sp = commit_of(v@);
                match (r, sp) {
                    (Some(c), Some(sc)) => c@ == sc,
                    (None, None) => true,
                    _ => false,
                }
            }),
    {
        match v {
            Cbor::Dict(entries) => {
                let common = get_common(entries);
                let rebase = get_req_bool(entries, "rebase");
                let too_big = get_req_bool(entries, "tooBig");
                let repo = get_req_text(entries, "repo");
                let commit = get_req_link(entries, "commit");
                let rev = get_req_text(entries, "rev");
                let since = get_opt_text(entries, "since");
                let blocks = get_opt_bytes(entries, "blocks");
                match (common, rebase, too_big, repo, commit, rev, since, blocks) {
                    (
                        Some(common),
                        Some(rebase),
                        Some(too_big),
                        Some(repo),
                        Some(commit),
                        Some(rev),
                        Some(since),
                        Some(blocks),
                    ) => {
                        let ops_field = match entries_get(entries, "ops") {
                            Some(Cbor::List(items)) => parse_ops(items),
                            _ => None,
                        };
                        let blobs_field = match entries_get(entries, "blobs") {
                            Some(Cbor::List(items)) => parse_links(items),
                            _ => None,
                        };
                        match (ops_field, blobs_field) {
                            (Some(ops), Some(blobs)) => {
                                let prev = get_lenient_link(entries, "prev");
                                Some(
                                    Commit {
                                        _common: common,
                                        rebase,
                                        too_big,
                                        repo,
                                        commit,
                                        prev,
                                        rev,
                                        since: match since {
                                            Some(s) => Some(s),
                                            None => None,
                                        },
                                        blocks: match blocks {
                                            Some(b) => Some(CommitRawBlocks(b)),
                                            None => None,
                                        },
                                        ops,
                                        blobs,
                                    },
                                )
                            },
                            _ => None,
                        }
                    },
                    _ => None,
                }
            },
            _ => None,
        }
    }
}

impl Identity {
    /// Read an identity event out of a decoded value.
    pub fn from_cbor_value(v: &Cbor) -> (r: Option<Identity>)
        ensures
            ({
                let sp = identity_of(v@);
                match (r, sp) {
                    (Some(c), Some(sc)) => c@ == sc,
                    (None, None) => true,
                    _ => false,
                }
            }),
    {
        match v {
            Cbor::Dict(entries) => {
                match (
                    get_common(entries),
                    get_req_text(entries, "did"),
                    get_opt_text(entries, "handle"),
                ) {
                    (Some(common), Some(did), Some(handle)) => Some(
                        Identity { _common: common, did, handle },
                    ),
                    _ => None,
                }
            },
            _ => None,
        }
    }
}

impl Account {
    /// Read an account event out of a decoded value.
    pub fn from_cbor_value(v: &Cbor) -> (r: Option<Account>)
        ensures
            ({
                let sp = account_of(v@);
                match (r, sp) {
                    (Some(c), Some(sc)) => c@ == sc,
                    (None, None) => true,
                    _ => false,
                }
            }),
    {
        match v {
            Cbor::Dict(entries) => {
                match (
                    get_common(entries),
                    get_req_text(entries, "did"),
                    get_req_bool(entries, "active"),
                    get_opt_text(entries, "status"),
                ) {
                    (Some(common), Some(did), Some(active), Some(status)) => Some(
                        Account { _common: common, did, active, status },
                    ),
                    _ => None,
                }
            },
            _ => None,
        }
    }
}

impl Handle {
    /// Read a handle event out of a decoded value.
    pub fn from_cbor_value(v: &Cbor) -> (r: Option<Handle>)
        ensures
            ({
                let sp = handle_of(v@);
                match (r, sp) {
                    (Some(c), Some(sc)) => c@ == sc,
                    (None, None) => true,
                    _ => false,
                }
            }),
    {
        match v {
            Cbor::Dict(entries) => {
                match (
                    get_common(entries),
                    get_req_text(entries, "did"),
                    get_req_text(entries, "handle"),
                ) {
                    (Some(common), Some(did), Some(handle)) => Some(
                        Handle { _common: common, did, handle },
                    ),
                    _ => None,
                }
            },
            _ => None,
        }
    }
}

impl Migrate {
    /// Read a migrate event out of a decoded value.
    pub fn from_cbor_value(v: &Cbor) -> (r: Option<Migrate>)
        ensures
            ({
                let sp = migrate_of(v@);
                match (r, sp) {
                    (Some(c), Some(sc)) => c@ == sc,
                    (None, None) => true,
                    _ => false,
                }
            }),
    {
        match v {
            Cbor::Dict(entries) => {
                match (
                    get_common(entries),
                    get_req_text(entries, "did"),
                    get_opt_text(entries, "migrateTo"),
                ) {
                    (Some(common), Some(did), Some(migrate_to)) => Some(
                        Migrate { _common: common, did, migrate_to },
                    ),
                    _ => None,
                }
            },
            _ => None,
        }
    }
}

impl Tombstone {
    /// Read a tombstone event out of a decoded value.
    pub fn from_cbor_value(v: &Cbor) -> (r: Option<Tombstone>)
        ensures
            ({
                let sp = tombstone_of(v@);
                match (r, sp) {
                    (Some(c), Some(sc)) => c@ == sc,
                    (None, None) => true,
                    _ => false,
                }
            }),
    {
        match v {
            Cbor::Dict(entries) => {
                match (get_common(entries), get_req_text(entries, "did")) {
                    (Some(common), Some(did)) => Some(Tombstone { _common: common, did }),
                    _ => None,
                }
            },
            _ => None,
        }
    }
}

impl Info {
    /// Read an informational event out of a decoded value.
    pub fn from_cbor_value(v: &Cbor) -> (r: Option<Info>)
        ensures
            ({
                let sp = info_of(v@);
                match (r, sp) {
                    (Some(c), Some(sc)) => c@ == sc,
                    (None, None) => true,
                    _ => false,
                }
            }),
    {
        match v {
            Cbor::Dict(entries) => {
                match (get_req_text(entries, "name"), get_opt_text(entries, "message")) {
                    (Some(name), Some(message)) => {
                        if str_eq(name.as_str(), "OutDatedCursor") {
                            Some(Info { name: InfoName::OutDatedCursor, message })
                        } else {
                            None
                        }
                    },
                    _ => None,
                }
            },
            _ => None,
        }
    }
}

/// The application-level record kinds this deployment understands.
#[derive(Debug)]
pub enum Record {
    Post(post::Record),
    RePost(repost::Record),
    Like(like::Record),
    Follow(follow::Record),
    /// Any record whose kind is not modelled here.
    Unknown,
}

/// Model of a [`Record`].
pub enum RecordModel {
    Post(post::RecordModel),
    RePost(repost::RecordModel),
    Like(like::RecordModel),
    Follow(follow::RecordModel),
    Unknown,
}

impl View for Record {
    type V = RecordModel;

    open spec fn view(&self) -> RecordModel {
        match self {
            Record::Post(r) => RecordModel::Post(r@),
            Record::RePost(r) => RecordModel::RePost(r@),
            Record::Like(r) => RecordModel::Like(r@),
            Record::Follow(r) => RecordModel::Follow(r@),
            Record::Unknown => RecordModel::Unknown,
        }
    }
}

/// The strong reference under a `subject` field.
pub open spec fn subject_ref_of(ems: Seq<(Seq<char>, CborModel)>) -> Option<
    repo::StrongRefModel,
> {
    match dict_get(ems, "subject"@) {
        Some(CborModel::Dict(sub)) => repo::strong_ref_of(repo::text_entries_of(sub)),
        _ => None,
    }
}

/// A record read out of a decoded block: dispatch on its `$type` text, with
/// a catch-all for kinds this deployment does not model. `None` is a shape
/// error.
pub open spec fn record_of(v: CborModel) -> Option<RecordModel> {
    match v {
        CborModel::Dict(ems) => {
            match dict_get(ems, "$type"@) {
                Some(CborModel::Text(t)) => {
                    if t == "app.bsky.feed.post"@ {
                        match req_text(ems, "text"@) {
                            Some(x) => Some(RecordModel::Post(post::RecordModel { text: x })),
                            None => None,
                        }
                    } else if t == "app.bsky.feed.repost"@ {
                        match (subject_ref_of(ems), req_text(ems, "createdAt"@)) {
                            (Some(subject), Some(created_at)) => Some(
                                RecordModel::RePost(
                                    repost::RecordModel { subject, created_at },
                                ),
                            ),
                            _ => None,
                        }
                    } else if t == "app.bsky.feed.like"@ {
                        match (subject_ref_of(ems), req_text(ems, "createdAt"@)) {
                            (Some(subject), Some(created_at)) => Some(
                                RecordModel::Like(like::RecordModel { subject, created_at }),
                            ),
                            _ => None,
                        }
                    } else if t == "app.bsky.graph.follow"@ {
                        match (req_text(ems, "subject"@), req_text(ems, "createdAt"@)) {
                            (Some(subject), Some(created_at)) => Some(
                                RecordModel::Follow(
                                    follow::RecordModel { subject, created_at },
                                ),
                            ),
                            _ => None,
                        }
                    } else {
                        Some(RecordModel::Unknown)
                    }
                },
                _ => None,
            }
        },
        _ => None,
    }
}

impl Record {
    /// Read a record out of a decoded block value.
    pub fn from_cbor_value(v: &Cbor) -> (r: Option<Record>)
        ensures
            ({
                let sp = record_of(v@);
                match (r, sp) {
                    (Some(rec), Some(m)) => rec@ == m,
                    (None, None) => true,
                    _ => false,
                }
            }),
    {
        match v {
            Cbor::Dict(entries) => {
                match entries_get(entries, "$type") {
                    Some(Cbor::Text(t)) => {
                        if str_eq(t.as_str(), "app.bsky.feed.post") {
                            match get_req_text(entries, "text") {
                                Some(text) => Some(Record::Post(post::Record { text })),
                                None => None,
                            }
                        } else if str_eq(t.as_str(), "app.bsky.feed.repost") {
                            match (get_subject_ref(entries), get_req_text(entries, "createdAt")) {
                                (Some(subject), Some(created_at)) => Some(
                                    Record::RePost(repost::Record { subject, created_at }),
                                ),
                                _ => None,
                            }
                        } else if str_eq(t.as_str(), "app.bsky.feed.like") {
                            match (get_subject_ref(entries), get_req_text(entries, "createdAt")) {
                                (Some(subject), Some(created_at)) => Some(
                                    Record::Like(like::Record { subject, created_at }),
                                ),
                                _ => None,
                            }
                        } else if str_eq(t.as_str(), "app.bsky.graph.follow") {
                            match (
                                get_req_text(entries, "subject"),
                                get_req_text(entries, "createdAt"),
                            ) {
                                (Some(subject), Some(created_at)) => Some(
                                    Record::Follow(follow::Record { subject, created_at }),
                                ),
                                _ => None,
                            }
                        } else {
                            Some(Record::Unknown)
                        }
                    },
                    _ => None,
                }
            },
            _ => None,
        }
    }
}

/// Read the strong reference under a `subject` field.
fn get_subject_ref(entries: &Vec<(String, Cbor)>) -> (r: Option<repo::StrongRef>)
    ensures
        ({
            let sp = subject_ref_of(entry_models_of(entries@));
            match (r, sp) {
                (Some(x), Some(m)) => x@ == m,
                (None, None) => true,
                _ => false,
            }
        }),
{
    match entries_get(entries, "subject") {
        Some(Cbor::Dict(sub)) => repo::StrongRef::from_cbor_entries(sub),
        _ => None,
    }
}

/// The bytes stored under `key`, taking the later entry when an identifier
/// repeats, as building a map in insertion order would.
pub open spec fn blocks_lookup(s: Seq<(Seq<u8>, Seq<u8>)>, k: Seq<u8>) -> Option<Seq<u8>>
    decreases s.len(),
{
    if s.len() == 0 {
        None
    } else if s.last().0 == k {
        Some(s.last().1)
    } else {
        blocks_lookup(s.drop_last(), k)
    }
}

/// A successful lookup returns the bytes of some stored entry with that
/// key.
pub proof fn lemma_blocks_lookup(s: Seq<(Seq<u8>, Seq<u8>)>, k: Seq<u8>)
    ensures
        blocks_lookup(s, k) matches Some(b) ==> exists|i: int|
            0 <= i < s.len() && #[trigger] s[i] == (k, b),
    decreases s.len(),
{
    if s.len() > 0 {
        if s.last().0 == k {
            assert(s[s.len() - 1] == (k, blocks_lookup(s, k)->Some_0));
        } else {
            let t = s.drop_last();
            lemma_blocks_lookup(t, k);
            if blocks_lookup(s, k) is Some {
                let b = blocks_lookup(s, k)->Some_0;
                let i = choose|i: int| 0 <= i < t.len() && #[trigger] t[i] == (k, b);
                assert(s[i] == t[i]);
            }
        }
    }
}

/// The block archive could not be decoded.
#[derive(Debug, Clone, Copy, PartialEq, Eq, Structural)]
pub struct BlockArchiveError;

/// Why one block failed to decode as a record.
#[derive(Debug)]
pub enum CommitBlockParseError {
    /// The block is a well-formed value, just not of a record shape this
    /// deployment models; the decoded value is carried for diagnostics.
    InvalidParseTargetType(Cbor),
    /// The block is not a well-formed value at all; the raw bytes are
    /// carried for diagnostics.
    UnknownError(Vec<u8>),
}

/// Model of a [`CommitBlockParseError`].
pub enum CommitBlockParseErrorModel {
    InvalidParseTargetType(CborModel),
    UnknownError(Seq<u8>),
}

impl View for CommitBlockParseError {
    type V = CommitBlockParseErrorModel;

    open spec fn view(&self) -> CommitBlockParseErrorModel {
        match self {
            CommitBlockParseError::InvalidParseTargetType(v) => {
                CommitBlockParseErrorModel::InvalidParseTargetType(v@)
            },
            CommitBlockParseError::UnknownError(b) => {
                CommitBlockParseErrorModel::UnknownError(b@)
            },
        }
    }
}

/// The three-tier reading of one block: a modelled record, or a well-formed
/// value of the wrong shape, or undecodable bytes. A whole commit never
/// fails because one block does.
pub open spec fn record_result_of(bytes: Seq<u8>) -> Result<
    RecordModel,
    CommitBlockParseErrorModel,
> {
    match spec_parse_all(bytes) {
        Some(v) => match record_of(v) {
            Some(m) => Ok(m),
            None => Err(CommitBlockParseErrorModel::InvalidParseTargetType(v)),
        },
        None => Err(CommitBlockParseErrorModel::UnknownError(bytes)),
    }
}

/// The decoded block archive of one commit: a lookup table from content
/// identifier to block bytes, commit-scoped.
#[derive(Debug)]
pub struct CommitBlocks {
    entries: Vec<(Vec<u8>, Vec<u8>)>,
}

impl View for CommitBlocks {
    type V = Seq<(Seq<u8>, Seq<u8>)>;

    closed spec fn view(&self) -> Seq<(Seq<u8>, Seq<u8>)> {
        crate::car::block_models_of(self.entries@)
    }
}

impl CommitRawBlocks {
    /// Decode the raw archive bytes into the commit's lookup table.
    pub fn parse(&self) -> (r: Result<CommitBlocks, BlockArchiveError>)
        ensures
            ({
                let sp = spec_car_archive(self.0@);
                match (r, sp) {
                    (Ok(b), Some(sb)) => b@ == sb,
                    (Err(_), None) => true,
                    _ => false,
                }
            }),
    {
        match parse_car_archive(&self.0) {
            Some(entries) => Ok(CommitBlocks { entries }),
            None => Err(BlockArchiveError),
        }
    }
}

impl CommitBlocks {
    /// Look one operation's block up and read it as a record, with the
    /// three-tier fallback of [`record_result_of`]. `None` means the
    /// identifier is not in this archive.
    pub fn get(&self, key: &Vec<u8>) -> (r: Option<Result<Record, CommitBlockParseError>>)
        ensures
            ({
                match blocks_lookup(self@, key@) {
                    None => r is None,
                    Some(bytes) => r matches Some(res) && (match (res, record_result_of(bytes)) {
                        (Ok(rec), Ok(m)) => rec@ == m,
                        (Err(e), Err(me)) => e@ == me,
                        _ => false,
                    }),
                }
            }),
    {
        proof {
            crate::car::lemma_block_models_of(self.entries@);
        }
        let ghost ms = self@;
        let n = self.entries.len();
        let mut i: usize = n;
        proof {
            assert(ms.take(n as int) =~= ms);
        }
        while i > 0
            invariant
                0 <= i <= n,
                n == self.entries@.len(),
                ms == self@,
                ms.len() == n,
                forall|k: int| 0 <= k < n ==> ms[k] == (
                #[trigger] self.entries@[k].0@,
                self.entries@[k].1@,
                ),
                blocks_lookup(ms, key@) == blocks_lookup(ms.take(i as int), key@),
            decreases i,
        {
            i -= 1;
            proof {
                assert(ms.take(i as int + 1).last() == ms[i as int]);
                assert(ms.take(i as int + 1).drop_last() =~= ms.take(i as int));
            }
            if bytes_eq(&self.entries[i].0, key) {
                let bytes = &self.entries[i].1;
                match parse_all(bytes) {
                    Some(v) => {
                        match Record::from_cbor_value(&v) {
                            Some(rec) => {
                                return Some(Ok(rec));
                            },
                            None => {
                                return Some(
                                    Err(CommitBlockParseError::InvalidParseTargetType(v)),
                                );
                            },
                        }
                    },
                    None => {
                        return Some(
                            Err(CommitBlockParseError::UnknownError(clone_bytes(bytes))),
                        );
                    },
                }
            }
        }
        proof {
            assert(ms.take(0) =~= Seq::empty());
        }
        None
    }

    /// The identifiers of every block in the archive, in wire order.
    pub fn keys(&self) -> (r: Vec<Vec<u8>>)
        ensures
            r@.len() == self@.len(),
            forall|i: int| 0 <= i < self@.len() ==> (#[trigger] r@[i])@ == self@[i].0,
    {
        proof {
            crate::car::lemma_block_models_of(self.entries@);
        }
        let mut out: Vec<Vec<u8>> = Vec::new();
        let n = self.entries.len();
        let mut i: usize = 0;
        while i < n
            invariant
                0 <= i <= n,
                n == self.entries@.len(),
                self@.len() == n,
                forall|k: int| 0 <= k < n ==> self@[k] == (
                #[trigger] self.entries@[k].0@,
                self.entries@[k].1@,
                ),
                out@.len() == i,
                forall|k: int| 0 <= k < i ==> (#[trigger] out@[k])@ == self@[k].0,
            decreases n - i,
        {
            out.push(clone_bytes(&self.entries[i].0));
            i += 1;
        }
        out
    }
}

/// Why an event body failed to decode.
#[derive(Debug, Clone, PartialEq)]
pub enum EventParseError {
    /// The envelope named a kind this deployment does not know; the tag is
    /// carried along.
    UnknownTag(String),
    /// The body is not a well-formed value of the tagged kind.
    InvalidBody,
}

/// Model of an [`EventParseError`].
pub enum EventParseErrorModel {
    UnknownTag(Seq<char>),
    InvalidBody,
}

impl View for EventParseError {
    type V = EventParseErrorModel;

    open spec fn view(&self) -> EventParseErrorModel {
        match self {
            EventParseError::UnknownTag(t) => EventParseErrorModel::UnknownTag(t@),
            EventParseError::InvalidBody => EventParseErrorModel::InvalidBody,
        }
    }
}

/// Dispatch a typed body by its envelope tag: a known tag decodes the body
/// as that kind of event, any other tag is an error naming the tag.
pub open spec fn event_of(tag: Seq<char>, body: Seq<u8>) -> Result<
    RepoEventModel,
    EventParseErrorModel,
> {
    if tag == "#commit"@ {
        match spec_parse_all(body) {
            Some(v) => match commit_of(v) {
                Some(m) => Ok(RepoEventModel::Commit(m)),
                None => Err(EventParseErrorModel::InvalidBody),
            },
            None => Err(EventParseErrorModel::InvalidBody),
        }
    } else if tag == "#identity"@ {
        match spec_parse_all(body) {
            Some(v) => match identity_of(v) {
                Some(m) => Ok(RepoEventModel::Identity(m)),
                None => Err(EventParseErrorModel::InvalidBody),
            },
            None => Err(EventParseErrorModel::InvalidBody),
        }
    } else if tag == "#account"@ {
        match spec_parse_all(body) {
            Some(v) => match account_of(v) {
                Some(m) => Ok(RepoEventModel::Account(m)),
                None => Err(EventParseErrorModel::InvalidBody),
            },
            None => Err(EventParseErrorModel::InvalidBody),
        }
    } else if tag == "#handle"@ {
        match spec_parse_all(body) {
            Some(v) => match handle_of(v) {
                Some(m) => Ok(RepoEventModel::Handle(m)),
                None => Err(EventParseErrorModel::InvalidBody),
            },
            None => Err(EventParseErrorModel::InvalidBody),
        }
    } else if tag == "#migrate"@ {
        match spec_parse_all(body) {
            Some(v) => match migrate_of(v) {
                Some(m) => Ok(RepoEventModel::Migrate(m)),
                None => Err(EventParseErrorModel::InvalidBody),
            },
            None => Err(EventParseErrorModel::InvalidBody),
        }
    } else if tag == "#tombstone"@ {
        match spec_parse_all(body) {
            Some(v) => match tombstone_of(v) {
                Some(m) => Ok(RepoEventModel::Tombstone(m)),
                None => Err(EventParseErrorModel::InvalidBody),
            },
            None => Err(EventParseErrorModel::InvalidBody),
        }
    } else if tag == "#info"@ {
        match spec_parse_all(body) {
            Some(v) => match info_of(v) {
                Some(m) => Ok(RepoEventModel::Info(m)),
                None => Err(EventParseErrorModel::InvalidBody),
            },
            None => Err(EventParseErrorModel::InvalidBody),
        }
    } else {
        Err(EventParseErrorModel::UnknownTag(tag))
    }
}

impl OutputSchema {
    /// Decode the typed body of an envelope by its tag. The result is
    /// exactly what [`event_of`] says: a known tag either decodes or is an
    /// invalid body; an unknown tag is reported by name.
    pub fn from_cbor(tag: &str, body: &Vec<u8>) -> (r: Result<OutputSchema, EventParseError>)
        ensures
            ({
                let sp = event_of(tag@, body@);
                match (r, sp) {
                    (Ok(e), Ok(se)) => e@ == se,
                    (Err(e), Err(se)) => e@ == se,
                    _ => false,
                }
            }),
    {
        if str_eq(tag, "#commit") {
            match parse_all(body) {
                Some(v) => match Commit::from_cbor_value(&v) {
                    Some(c) => Ok(OutputSchema::Commit(Box::new(c))),
                    None => Err(EventParseError::InvalidBody),
                },
                None => Err(EventParseError::InvalidBody),
            }
        } else if str_eq(tag, "#identity") {
            match parse_all(body) {
                Some(v) => match Identity::from_cbor_value(&v) {
                    Some(c) => Ok(OutputSchema::Identity(c)),
                    None => Err(EventParseError::InvalidBody),
                },
                None => Err(EventParseError::InvalidBody),
            }
        } else if str_eq(tag, "#account") {
            match parse_all(body) {
                Some(v) => match Account::from_cbor_value(&v) {
                    Some(c) => Ok(OutputSchema::Account(c)),
                    None => Err(EventParseError::InvalidBody),
                },
                None => Err(EventParseError::InvalidBody),
            }
        } else if str_eq(tag, "#handle") {
            match parse_all(body) {
                Some(v) => match Handle::from_cbor_value(&v) {
                    Some(c) => Ok(OutputSchema::Handle(c)),
                    None => Err(EventParseError::InvalidBody),
                },
                None => Err(EventParseError::InvalidBody),
            }
        } else if str_eq(tag, "#migrate") {
            match parse_all(body) {
                Some(v) => match Migrate::from_cbor_value(&v) {
                    Some(c) => Ok(OutputSchema::Migrate(c)),
                    None => Err(EventParseError::InvalidBody),
                },
                None => Err(EventParseError::InvalidBody),
            }
        } else if str_eq(tag, "#tombstone") {
            match parse_all(body) {
                Some(v) => match Tombstone::from_cbor_value(&v) {
                    Some(c) => Ok(OutputSchema::Tombstone(c)),
                    None => Err(EventParseError::InvalidBody),
                },
                None => Err(EventParseError::InvalidBody),
            }
        } else if str_eq(tag, "#info") {
            match parse_all(body) {
                Some(v) => match Info::from_cbor_value(&v) {
                    Some(c) => Ok(OutputSchema::Info(c)),
                    None => Err(EventParseError::InvalidBody),
                },
                None => Err(EventParseError::InvalidBody),
            }
        } else {
            Err(EventParseError::UnknownTag(String::from_str(tag)))
        }
    }
}

} // verus!

//! The repost record kind.

use vstd::prelude::*;

use crate::lexicon::repo::{StrongRef, StrongRefModel};

verus! {

/// A repost of the referenced record.
#[derive(Debug, Clone)]
pub struct Record {
    pub subject: StrongRef,
    pub created_at: String,
}

/// Model of a repost record.
pub struct RecordModel {
    pub subject: StrongRefModel,
    pub created_at: Seq<char>,
}

impl View for Record {
    type V = RecordModel;

    open spec fn view(&self) -> RecordModel {
        RecordModel { subject: self.subject@, created_at: self.created_at@ }
    }
}

} // verus!

//! The follow record kind.

use vstd::prelude::*;

verus! {

/// A follow of another account, named by its identifier.
#[derive(Debug, Clone)]
pub struct Record {
    pub subject: String,
    pub created_at: String,
}

/// Model of a follow record.
pub struct RecordModel {
    pub subject: Seq<char>,
    pub created_at: Seq<char>,
}

impl View for Record {
    type V = RecordModel;

    open spec fn view(&self) -> RecordModel {
        RecordModel { subject: self.subject@, created_at: self.created_at@ }
    }
}

} // verus!

//! The post record kind.

use vstd::prelude::*;

verus! {

/// A post: only the text is read by this deployment.
#[derive(Debug, Clone)]
pub struct Record {
    pub text: String,
}

/// Model of a post record.
pub struct RecordModel {
    pub text: Seq<char>,
}

impl View for Record {
    type V = RecordModel;

    open spec fn view(&self) -> RecordModel {
        RecordModel { text: self.text@ }
    }
}

} // verus!

//! The stage a group has reached on its way to shipment.
use vstd::prelude::*;

use crate::words::random_uuid_text;

verus! {

/// The stages of a group, in the order in which they are reached.
#[derive(Clone, Copy, Debug, PartialEq, Eq, Structural, PartialOrd, Ord, Hash)]
pub enum Status {
    Open,
    Check,
    Confirm,
    Measure,
    BoxContents,
    CaseLabel,
    Staged,
    Shipped,
}

impl Default for Status {
    /// A new group starts open.
    fn default() -> (r: Status)
        ensures
            r == Status::Open,
    {
        Status::Open
    }
}

impl Status {
    /// The position of the stage, from 0 for `Open` to 7 for `Shipped`.
    pub open spec fn stage(self) -> nat {
        match self {
            Status::Open => 0,
            Status::Check => 1,
            Status::Confirm => 2,
            Status::Measure => 3,
            Status::BoxContents => 4,
            Status::CaseLabel => 5,
            Status::Staged => 6,
            Status::Shipped => 7,
        }
    }

    /// The stage's name, as the status store and the operator see it.
    pub fn name(&self) -> (r: &'static str)
        ensures
            *self == Status::Open ==> r@ == "Open"@,
            *self == Status::Check ==> r@ == "Check"@,
            *self == Status::Confirm ==> r@ == "Confirm"@,
            *self == Status::Measure ==> r@ == "Measure"@,
            *self == Status::BoxContents ==> r@ == "BoxContents"@,
            *self == Status::CaseLabel ==> r@ == "CaseLabel"@,
            *self == Status::Staged ==> r@ == "Staged"@,
            *self == Status::Shipped ==> r@ == "Shipped"@,
    {
        match self {
            Status::Open => "Open",
            Status::Check => "Check",
            Status::Confirm => "Confirm",
            Status::Measure => "Measure",
            Status::BoxContents => "BoxContents",
            Status::CaseLabel => "CaseLabel",
            Status::Staged => "Staged",
            Status::Shipped => "Shipped",
        }
    }

    /// The stage that follows; `Shipped` is the last and stays.
    pub fn next(self) -> (r: Status)
        ensures
            self == Status::Shipped ==> r == Status::Shipped,
            self != Status::Shipped ==> r.stage() == self.stage() + 1,
    {
        match self {
            Status::Open => Status::Check,
            Status::Check => Status::Confirm,
            Status::Confirm => Status::Measure,
            Status::Measure => Status::BoxContents,
            Status::BoxContents => Status::CaseLabel,
            Status::CaseLabel => Status::Staged,
            Status::Staged => Status::Shipped,
            Status::Shipped => Status::Shipped,
        }
    }

    /// True for the last stage.
    pub fn is_terminal(&self) -> (r: bool)
        ensures
            r == (*self == Status::Shipped),
    {
        match self {
            Status::Shipped => true,
            _ => false,
        }
    }

    /// The file name of a status record of group `branch`: the group name,
    /// an underscore, a token that keeps repeated records apart, and `.json`.
    pub fn record_name(branch: &str, token: &str) -> (r: String)
        ensures
            r@ == branch@ + seq!['_'] + token@ + seq!['.', 'j', 's', 'o', 'n'],
    {
        let mut name = String::from_str(branch);
        name.append("_");
        name.append(token);
        name.append(".json");
        proof {
            reveal_strlit("_");
            reveal_strlit(".json");
        }
        name
    }

    /// Names a new status record of group `branch` with a fresh random token.
    pub fn fresh_record_name(branch: &str) -> (r: String)
        ensures
            exists|token: Seq<char>|
                token.len() == 36 && r@ == branch@ + seq!['_'] + token + seq![
                    '.',
                    'j',
                    's',
                    'o',
                    'n',
                ],
    {
        let token = random_uuid_text();
        let r = Status::record_name(branch, token.as_str());
        assert(token@.len() == 36);
        r
    }
}

} // verus!

//! Splitting part of a group into a new group without losing ledger balance.
use vstd::prelude::*;

use crate::entry::{lemma_views_push, texts, views, Entry};
use crate::ledger::{as_negated, by_fnsku, negated, select_by_fnsku};
use crate::status::Status;

verus! {

/// How the listed SKUs pick the entries that move.
#[derive(Clone, Copy, Debug, PartialEq, Eq, Structural)]
pub enum Selection {
    /// The entries of the listed SKUs move.
    Selected,
    /// The entries of every SKU that is not listed move.
    Unselected,
}

/// Why a branch was refused. Nothing is written when one is returned.
#[derive(Clone, Copy, Debug, PartialEq, Eq, Structural)]
pub enum BranchError {
    /// No group is active.
    NoActiveGroup,
    /// The listed SKUs pick no entry.
    NothingSelected,
    /// Every entry is listed, so none is left to move.
    EverythingSelected,
}

/// What a branch writes: the new group, the current group with the negation
/// of what moved appended, and the new group's status.
#[derive(Debug)]
pub struct Branching {
    pub branch: Vec<Entry>,
    pub trunk: Vec<Entry>,
    pub status: Status,
}

/// Selects which entries are listed for a given selection mode.
pub open spec fn moves_listed(mode: Selection) -> bool {
    mode == Selection::Selected
}

/// Moves the entries picked by `fnskus` and `mode` out of the current group.
///
/// The new group holds the moving entries; the current group keeps all its
/// entries and gains their negation, so its net quantities drop by exactly
/// what moved. The new group starts `Open`.
pub fn branch(current: Option<&Vec<Entry>>, fnskus: &Vec<String>, mode: Selection) -> (r: Result<
    Branching,
    BranchError,
>)
    ensures
        current is None ==> r == Err::<Branching, BranchError>(BranchError::NoActiveGroup),
        current is Some ==> {
            let s = views(current->0@);
            let moving = by_fnsku(s, texts(fnskus@), moves_listed(mode));
            &&& moving.len() == 0 && mode == Selection::Selected ==> r == Err::<
                Branching,
                BranchError,
            >(BranchError::NothingSelected)
            &&& moving.len() == 0 && mode == Selection::Unselected ==> r == Err::<
                Branching,
                BranchError,
            >(BranchError::EverythingSelected)
            &&& moving.len() > 0 ==> (r matches Ok(b) && views(b.branch@) == moving && views(
                b.trunk@,
            ) == s + negated(moving) && b.status == Status::Open)
        },
{
    let entries = match current {
        None => {
            return Err(BranchError::NoActiveGroup);
        },
        Some(e) => e,
    };
    let listed = match mode {
        Selection::Selected => true,
        Selection::Unselected => false,
    };
    let moving = select_by_fnsku(entries, fnskus, listed);
    if moving.len() == 0 {
        assert(views(moving@).len() == 0);
        return match mode {
            Selection::Selected => Err(BranchError::NothingSelected),
            Selection::Unselected => Err(BranchError::EverythingSelected),
        };
    }
    assert(views(moving@).len() > 0);
    let credit = as_negated(&moving);
    let mut trunk: Vec<Entry> = Vec::new();
    let mut i: usize = 0;
    while i < entries.len()
        invariant
            i <= entries.len(),
            views(trunk@) == views(entries@).take(i as int),
        decreases entries.len() - i,
    {
        let e = entries[i].clone();
        proof {
            lemma_views_push(trunk@, e);
            assert(views(entries@)[i as int] == e@);
        }
        trunk.push(e);
        assert(views(trunk@) =~= views(entries@).take(i + 1));
        i = i + 1;
    }
    let mut j: usize = 0;
    while j < credit.len()
        invariant
            j <= credit.len(),
            views(trunk@) == views(entries@) + views(credit@).take(j as int),
        decreases credit.len() - j,
    {
        let e = credit[j].clone();
        proof {
            lemma_views_push(trunk@, e);
            assert(views(credit@)[j as int] == e@);
        }
        trunk.push(e);
        assert(views(trunk@) =~= views(entries@) + views(credit@).take(j + 1));
        j = j + 1;
    }
    assert(views(credit@).take(credit.len() as int) =~= views(credit@));
    Ok(Branching { branch: moving, trunk, status: Status::Open })
}

} // verus!

//! The way to a declaration: one entry after the other below a trusted directory.
//!
//! Where an entry is missing, nothing was provisioned and the capture is off. Whatever is
//! there has to be safe: an entry that cannot be opened, a directory that others can
//! write, or a file that is no declaration is an error, never off.
use vstd::prelude::*;

use crate::provisioning::ProvisioningError;
use crate::startup::{
    check_component, check_declaration_stat, check_depth, check_directory, safe_directory,
    stat_error, valid_component, Budget, FileStat,
};
use crate::text::part_views;

verus! {

/// What came of opening an entry, without following a link.
#[derive(Clone, Copy, Debug, PartialEq, Eq, Structural)]
pub enum Found {
    /// There is no such entry.
    Missing,
    /// The entry could not be opened.
    Failed,
    /// The entry is open.
    Entry(FileStat),
}

/// What an entry calls for.
#[derive(Clone, Copy, Debug, PartialEq, Eq, Structural)]
pub enum WalkStep {
    /// Nothing was provisioned.
    Off,
    /// Go on below the entry.
    Enter,
    /// The entry is the declaration. It is to be read as long as it is this file.
    Pin(FileStat),
}

/// A walk that stands before one of its entries.
pub struct PathWalk {
    parts: Vec<Vec<u8>>,
    owner: u32,
    position: usize,
}

/// Where a walk stands.
pub struct WalkView {
    pub parts: Seq<Seq<u8>>,
    pub owner: u32,
    pub position: int,
}

impl View for PathWalk {
    type V = WalkView;

    closed spec fn view(&self) -> WalkView {
        WalkView {
            parts: part_views(self.parts@),
            owner: self.owner,
            position: self.position as int,
        }
    }
}

impl WalkView {
    /// The walk has an entry before it.
    pub open spec fn wf(self) -> bool {
        0 <= self.position < self.parts.len() <= 8
    }

    /// The entry has to be a directory: it is not the last one.
    pub open spec fn enters(self) -> bool {
        self.position + 1 != self.parts.len()
    }

    /// Why the entry is not opened.
    pub open spec fn refusal(self, budget: Budget, now_ns: u64) -> Option<ProvisioningError> {
        if now_ns >= budget.until_ns {
            Some(ProvisioningError::Expired)
        } else if !valid_component(self.parts[self.position]) {
            Some(ProvisioningError::PathComponent)
        } else {
            None
        }
    }

    /// What an entry calls for.
    pub open spec fn answer(self, found: Found) -> Result<WalkStep, ProvisioningError> {
        match found {
            Found::Missing => Ok(WalkStep::Off),
            Found::Failed => Err(ProvisioningError::Open),
            Found::Entry(value) => if self.enters() {
                if safe_directory(value, self.owner) {
                    Ok(WalkStep::Enter)
                } else {
                    Err(ProvisioningError::UnsafeDirectory)
                }
            } else {
                match stat_error(value, self.owner) {
                    Some(e) => Err(e),
                    None => Ok(WalkStep::Pin(value)),
                }
            },
        }
    }

    /// The walk one entry further.
    pub open spec fn further(self) -> WalkView {
        WalkView { position: self.position + 1, ..self }
    }

    /// What a walk comes to over some entries, as far as they lead.
    pub open spec fn outcome(self, found: Seq<Found>) -> Result<WalkStep, ProvisioningError>
        decreases found.len(),
    {
        if found.len() == 0 {
            Ok(WalkStep::Enter)
        } else {
            match self.answer(found[0]) {
                Ok(WalkStep::Enter) => self.further().outcome(found.drop_first()),
                answer => answer,
            }
        }
    }
}

impl PathWalk {
    /// A walk below a trusted directory.
    pub fn new(parts: Vec<Vec<u8>>, owner: u32, root: FileStat) -> (r: Result<
        PathWalk,
        ProvisioningError,
    >)
        ensures
            match r {
                Ok(walk) => {
                    &&& safe_directory(root, owner)
                    &&& walk@.wf()
                    &&& walk@ == (WalkView { parts: part_views(parts@), owner, position: 0 })
                },
                Err(e) => if !safe_directory(root, owner) {
                    e == ProvisioningError::UnsafeDirectory
                } else {
                    !(1 <= parts@.len() <= 8) && e == ProvisioningError::PathDepth
                },
            },
    {
        check_directory(root, owner)?;
        check_depth(parts.len())?;
        Ok(PathWalk { parts, owner, position: 0 })
    }

    /// Whether the entry may be opened now, and whether it is to be opened as a directory.
    pub fn next(&self, budget: Budget, now_ns: u64) -> (r: Result<bool, ProvisioningError>)
        requires
            self@.wf(),
        ensures
            r == (match self@.refusal(budget, now_ns) {
                Some(e) => Err::<bool, ProvisioningError>(e),
                None => Ok(self@.enters()),
            }),
    {
        budget.check(now_ns)?;
        check_component(self.parts[self.position].as_slice())?;
        Ok(self.position + 1 != self.parts.len())
    }

    /// The name of the entry.
    pub fn part(&self) -> (part: &Vec<u8>)
        requires
            self@.wf(),
        ensures
            part@ == self@.parts[self@.position],
    {
        &self.parts[self.position]
    }

    /// The entry was opened, or was not.
    pub fn opened(&mut self, found: Found) -> (r: Result<WalkStep, ProvisioningError>)
        requires
            old(self)@.wf(),
        ensures
            final(self)@.wf(),
            r == old(self)@.answer(found),
            final(self)@ == (if r == Ok::<WalkStep, ProvisioningError>(WalkStep::Enter) {
                old(self)@.further()
            } else {
                old(self)@
            }),
    {
        let value: FileStat = match found {
            Found::Missing => {
                return Ok(WalkStep::Off);
            },
            Found::Failed => {
                return Err(ProvisioningError::Open);
            },
            Found::Entry(value) => value,
        };
        if self.position + 1 != self.parts.len() {
            check_directory(value, self.owner)?;
            self.position = self.position + 1;
            Ok(WalkStep::Enter)
        } else {
            check_declaration_stat(value, self.owner)?;
            Ok(WalkStep::Pin(value))
        }
    }
}

/// Every entry above the `k`th is a safe directory.
pub open spec fn safe_above(found: Seq<Found>, owner: u32, k: int) -> bool {
    forall|j: int|
        0 <= j < k ==> (#[trigger] found[j] matches Found::Entry(value) && safe_directory(
            value,
            owner,
        ))
}

/// The `k`th entry is missing, and every entry above it is a safe directory.
pub open spec fn missing_at(found: Seq<Found>, owner: u32, k: int) -> bool {
    0 <= k < found.len() && found[k] is Missing && safe_above(found, owner, k)
}

/// A walk is off exactly where one of its entries is missing and every entry above that
/// one is a safe directory. Nothing that exists turns a capture off.
pub proof fn law_only_what_is_missing_is_off(walk: WalkView, found: Seq<Found>)
    requires
        walk.wf(),
        walk.position + found.len() <= walk.parts.len(),
    ensures
        walk.outcome(found) == Ok::<WalkStep, ProvisioningError>(WalkStep::Off) <==> exists|k: int|
            missing_at(found, walk.owner, k),
    decreases found.len(),
{
    if found.len() > 0 {
        let rest = found.drop_first();
        let owner = walk.owner;
        assert(forall|j: int| 0 < j < found.len() ==> #[trigger] found[j] == rest[j - 1]);
        if walk.answer(found[0]) == Ok::<WalkStep, ProvisioningError>(WalkStep::Enter) {
            if rest.len() > 0 {
                law_only_what_is_missing_is_off(walk.further(), rest);
            }
            if exists|k: int| missing_at(rest, owner, k) {
                let k = choose|k: int| missing_at(rest, owner, k);
                assert(missing_at(found, owner, k + 1));
            }
            if exists|k: int| missing_at(found, owner, k) {
                let k = choose|k: int| missing_at(found, owner, k);
                assert(k > 0);
                assert forall|j: int| 0 <= j < k - 1 implies (
                #[trigger] rest[j] matches Found::Entry(value) && safe_directory(value, owner)) by {
                    assert(rest[j] == found[j + 1]);
                }
                assert(missing_at(rest, owner, k - 1));
            }
        } else if found[0] is Missing {
            assert(missing_at(found, owner, 0));
        } else if exists|k: int| missing_at(found, owner, k) {
            let k = choose|k: int| missing_at(found, owner, k);
            assert(k > 0);
            assert(found[0] matches Found::Entry(value) && safe_directory(value, owner));
            assert(walk.enters());
        }
    }
}

} // verus!

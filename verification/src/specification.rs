//! Hard-fork selection: which revision of the EVM rules is active.

use vstd::prelude::*;

verus! {

pub const SPEC_ID_FRONTIER: u8 = 0;
pub const SPEC_ID_FRONTIER_THAWING: u8 = 1;
pub const SPEC_ID_HOMESTEAD: u8 = 2;
pub const SPEC_ID_DAO_FORK: u8 = 3;
pub const SPEC_ID_TANGERINE: u8 = 4;
pub const SPEC_ID_SPURIOUS_DRAGON: u8 = 5;
pub const SPEC_ID_BYZANTIUM: u8 = 6;
pub const SPEC_ID_CONSTANTINOPLE: u8 = 7;
pub const SPEC_ID_PETERSBURG: u8 = 8;
pub const SPEC_ID_ISTANBUL: u8 = 9;
pub const SPEC_ID_MUIR_GLACIER: u8 = 10;
pub const SPEC_ID_BERLIN: u8 = 11;
pub const SPEC_ID_LONDON: u8 = 12;
pub const SPEC_ID_ARROW_GLACIER: u8 = 13;
pub const SPEC_ID_GRAY_GLACIER: u8 = 14;
pub const SPEC_ID_MERGE: u8 = 15;
pub const SPEC_ID_LATEST: u8 = 16;

/// A named snapshot of the EVM rules, in activation order. A numerically
/// larger fork includes every rule change of the smaller ones.
#[derive(Debug, Copy, Clone, PartialEq, Eq, Structural)]
#[allow(non_camel_case_types)]
pub enum SpecId {
    FRONTIER,
    FRONTIER_THAWING,
    HOMESTEAD,
    DAO_FORK,
    TANGERINE,
    SPURIOUS_DRAGON,
    BYZANTIUM,
    CONSTANTINOPLE,
    PETERSBURG,
    ISTANBUL,
    MUIR_GLACIER,
    BERLIN,
    LONDON,
    ARROW_GLACIER,
    GRAY_GLACIER,
    MERGE,
    LATEST,
}

impl SpecId {
    /// The position of this fork in activation order.
    pub open spec fn id_spec(self) -> u8 {
        match self {
            SpecId::FRONTIER => SPEC_ID_FRONTIER,
            SpecId::FRONTIER_THAWING => SPEC_ID_FRONTIER_THAWING,
            SpecId::HOMESTEAD => SPEC_ID_HOMESTEAD,
            SpecId::DAO_FORK => SPEC_ID_DAO_FORK,
            SpecId::TANGERINE => SPEC_ID_TANGERINE,
            SpecId::SPURIOUS_DRAGON => SPEC_ID_SPURIOUS_DRAGON,
            SpecId::BYZANTIUM => SPEC_ID_BYZANTIUM,
            SpecId::CONSTANTINOPLE => SPEC_ID_CONSTANTINOPLE,
            SpecId::PETERSBURG => SPEC_ID_PETERSBURG,
            SpecId::ISTANBUL => SPEC_ID_ISTANBUL,
            SpecId::MUIR_GLACIER => SPEC_ID_MUIR_GLACIER,
            SpecId::BERLIN => SPEC_ID_BERLIN,
            SpecId::LONDON => SPEC_ID_LONDON,
            SpecId::ARROW_GLACIER => SPEC_ID_ARROW_GLACIER,
            SpecId::GRAY_GLACIER => SPEC_ID_GRAY_GLACIER,
            SpecId::MERGE => SPEC_ID_MERGE,
            SpecId::LATEST => SPEC_ID_LATEST,
        }
    }

    pub fn id(self) -> (r: u8)
        ensures
            r == self.id_spec(),
    {
        match self {
            SpecId::FRONTIER => SPEC_ID_FRONTIER,
            SpecId::FRONTIER_THAWING => SPEC_ID_FRONTIER_THAWING,
            SpecId::HOMESTEAD => SPEC_ID_HOMESTEAD,
            SpecId::DAO_FORK => SPEC_ID_DAO_FORK,
            SpecId::TANGERINE => SPEC_ID_TANGERINE,
            SpecId::SPURIOUS_DRAGON => SPEC_ID_SPURIOUS_DRAGON,
            SpecId::BYZANTIUM => SPEC_ID_BYZANTIUM,
            SpecId::CONSTANTINOPLE => SPEC_ID_CONSTANTINOPLE,
            SpecId::PETERSBURG => SPEC_ID_PETERSBURG,
            SpecId::ISTANBUL => SPEC_ID_ISTANBUL,
            SpecId::MUIR_GLACIER => SPEC_ID_MUIR_GLACIER,
            SpecId::BERLIN => SPEC_ID_BERLIN,
            SpecId::LONDON => SPEC_ID_LONDON,
            SpecId::ARROW_GLACIER => SPEC_ID_ARROW_GLACIER,
            SpecId::GRAY_GLACIER => SPEC_ID_GRAY_GLACIER,
            SpecId::MERGE => SPEC_ID_MERGE,
            SpecId::LATEST => SPEC_ID_LATEST,
        }
    }

    pub fn try_from_u8(spec_id: u8) -> (r: Option<SpecId>)
        ensures
            spec_id <= SPEC_ID_LATEST <==> r is Some,
            r is Some ==> r->0.id_spec() == spec_id,
    {
        match spec_id {
            SPEC_ID_FRONTIER => Some(SpecId::FRONTIER),
            SPEC_ID_FRONTIER_THAWING => Some(SpecId::FRONTIER_THAWING),
            SPEC_ID_HOMESTEAD => Some(SpecId::HOMESTEAD),
            SPEC_ID_DAO_FORK => Some(SpecId::DAO_FORK),
            SPEC_ID_TANGERINE => Some(SpecId::TANGERINE),
            SPEC_ID_SPURIOUS_DRAGON => Some(SpecId::SPURIOUS_DRAGON),
            SPEC_ID_BYZANTIUM => Some(SpecId::BYZANTIUM),
            SPEC_ID_CONSTANTINOPLE => Some(SpecId::CONSTANTINOPLE),
            SPEC_ID_PETERSBURG => Some(SpecId::PETERSBURG),
            SPEC_ID_ISTANBUL => Some(SpecId::ISTANBUL),
            SPEC_ID_MUIR_GLACIER => Some(SpecId::MUIR_GLACIER),
            SPEC_ID_BERLIN => Some(SpecId::BERLIN),
            SPEC_ID_LONDON => Some(SpecId::LONDON),
            SPEC_ID_ARROW_GLACIER => Some(SpecId::ARROW_GLACIER),
            SPEC_ID_GRAY_GLACIER => Some(SpecId::GRAY_GLACIER),
            SPEC_ID_MERGE => Some(SpecId::MERGE),
            SPEC_ID_LATEST => Some(SpecId::LATEST),
            _ => None,
        }
    }

    /// Whether the rule change introduced by `self` is active under the
    /// (numeric) fork `spec_id`.
    pub open spec fn enabled_in_spec(self, spec_id: u8) -> bool {
        spec_id >= self.id_spec()
    }

    pub fn enabled_in(self, spec_id: u8) -> (r: bool)
        ensures
            r == self.enabled_in_spec(spec_id),
    {
        spec_id >= self.id()
    }
}

/// Compile-time fork selector: a zero-sized type per fork, so a caller can
/// monomorphize the dispatch loop for one revision of the rules.
pub trait Spec: Sized {
    spec fn spec_id_spec() -> SpecId;

    fn spec_id() -> (r: SpecId)
        ensures
            r == Self::spec_id_spec(),
    ;
}

pub struct FrontierSpec;

pub struct HomesteadSpec;

pub struct TangerineSpec;

pub struct SpuriousDragonSpec;

pub struct ByzantiumSpec;

pub struct PetersburgSpec;

pub struct IstanbulSpec;

pub struct BerlinSpec;

pub struct LondonSpec;

pub struct MergeSpec;

pub struct LatestSpec;

impl Spec for FrontierSpec {
    open spec fn spec_id_spec() -> SpecId {
        SpecId::FRONTIER
    }

    fn spec_id() -> SpecId {
        SpecId::FRONTIER
    }
}

impl Spec for HomesteadSpec {
    open spec fn spec_id_spec() -> SpecId {
        SpecId::HOMESTEAD
    }

    fn spec_id() -> SpecId {
        SpecId::HOMESTEAD
    }
}

impl Spec for TangerineSpec {
    open spec fn spec_id_spec() -> SpecId {
        SpecId::TANGERINE
    }

    fn spec_id() -> SpecId {
        SpecId::TANGERINE
    }
}

impl Spec for SpuriousDragonSpec {
    open spec fn spec_id_spec() -> SpecId {
        SpecId::SPURIOUS_DRAGON
    }

    fn spec_id() -> SpecId {
        SpecId::SPURIOUS_DRAGON
    }
}

impl Spec for ByzantiumSpec {
    open spec fn spec_id_spec() -> SpecId {
        SpecId::BYZANTIUM
    }

    fn spec_id() -> SpecId {
        SpecId::BYZANTIUM
    }
}

impl Spec for PetersburgSpec {
    open spec fn spec_id_spec() -> SpecId {
        SpecId::PETERSBURG
    }

    fn spec_id() -> SpecId {
        SpecId::PETERSBURG
    }
}

impl Spec for IstanbulSpec {
    open spec fn spec_id_spec() -> SpecId {
        SpecId::ISTANBUL
    }

    fn spec_id() -> SpecId {
        SpecId::ISTANBUL
    }
}

impl Spec for BerlinSpec {
    open spec fn spec_id_spec() -> SpecId {
        SpecId::BERLIN
    }

    fn spec_id() -> SpecId {
        SpecId::BERLIN
    }
}

impl Spec for LondonSpec {
    open spec fn spec_id_spec() -> SpecId {
        SpecId::LONDON
    }

    fn spec_id() -> SpecId {
        SpecId::LONDON
    }
}

impl Spec for MergeSpec {
    open spec fn spec_id_spec() -> SpecId {
        SpecId::MERGE
    }

    fn spec_id() -> SpecId {
        SpecId::MERGE
    }
}

impl Spec for LatestSpec {
    open spec fn spec_id_spec() -> SpecId {
        SpecId::LATEST
    }

    fn spec_id() -> SpecId {
        SpecId::LATEST
    }
}

} // verus!

//! The status of a group of units.
use vstd::prelude::*;

use crate::text::opt_text;

verus! {

/// What became of a group.
#[derive(Debug, Clone, Copy, PartialEq, Eq, Structural)]
pub enum SpuGroupStatusResolution {
    Init,
    Invalid,
    Reserved,
}

/// The status of a group: what became of it, and why where there is something to say.
#[derive(Debug, Clone, PartialEq, Eq)]
pub struct SpuGroupStatus {
    pub resolution: SpuGroupStatusResolution,
    pub reason: Option<String>,
}

impl SpuGroupStatusResolution {
    pub open spec fn name(self) -> Seq<char> {
        match self {
            SpuGroupStatusResolution::Init => "Init"@,
            SpuGroupStatusResolution::Invalid => "Invalid"@,
            SpuGroupStatusResolution::Reserved => "Reserved"@,
        }
    }

    /// The name of the resolution.
    pub fn text(&self) -> (s: &'static str)
        ensures
            s@ == self.name(),
    {
        match self {
            SpuGroupStatusResolution::Init => "Init",
            SpuGroupStatusResolution::Invalid => "Invalid",
            SpuGroupStatusResolution::Reserved => "Reserved",
        }
    }
}

impl Default for SpuGroupStatusResolution {
    fn default() -> (r: SpuGroupStatusResolution)
        ensures
            r == SpuGroupStatusResolution::Init,
    {
        SpuGroupStatusResolution::Init
    }
}

impl Default for SpuGroupStatus {
    fn default() -> (s: SpuGroupStatus)
        ensures
            s.resolution == SpuGroupStatusResolution::Init,
            s.reason is None,
    {
        SpuGroupStatus { resolution: SpuGroupStatusResolution::default(), reason: None }
    }
}

impl SpuGroupStatus {
    /// The status of a group that cannot be set up.
    pub fn invalid(reason: String) -> (s: SpuGroupStatus)
        ensures
            s.resolution == SpuGroupStatusResolution::Invalid,
            opt_text(s.reason) == Some(reason@),
    {
        SpuGroupStatus { resolution: SpuGroupStatusResolution::Invalid, reason: Some(reason) }
    }

    /// The status of a group whose identifiers are its own.
    pub fn reserved() -> (s: SpuGroupStatus)
        ensures
            s.resolution == SpuGroupStatusResolution::Reserved,
            s.reason is None,
    {
        SpuGroupStatus { resolution: SpuGroupStatusResolution::Reserved, reason: None }
    }

    /// Whether the identifiers of the group are its own already.
    pub fn is_already_valid(&self) -> (r: bool)
        ensures
            r == (self.resolution == SpuGroupStatusResolution::Reserved),
    {
        self.resolution == SpuGroupStatusResolution::Reserved
    }

    /// The name of the resolution.
    pub fn text(&self) -> (s: &'static str)
        ensures
            s@ == self.resolution.name(),
    {
        self.resolution.text()
    }
}

/// Different resolutions have different names, and the names are those of the cluster.
pub proof fn law_resolutions_have_their_names(a: SpuGroupStatusResolution, b: SpuGroupStatusResolution)
    ensures
        a.name() == b.name() ==> a == b,
        a == SpuGroupStatusResolution::Init ==> a.name() == "Init"@,
        a == SpuGroupStatusResolution::Invalid ==> a.name() == "Invalid"@,
        a == SpuGroupStatusResolution::Reserved ==> a.name() == "Reserved"@,
{
    reveal_strlit("Init");
    reveal_strlit("Invalid");
    reveal_strlit("Reserved");
    assert("Init"@.len() == 4 && "Invalid"@.len() == 7 && "Reserved"@.len() == 8);
}

} // verus!

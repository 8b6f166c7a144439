//! What weapon abilities and opponent abilities share.
use vstd::prelude::*;
use vstd::string::StringExecFns;

verus! {

/// Which rolls an ability allows to be rolled again, from the least to the most
/// permissive.
#[derive(Debug, Clone, Copy, PartialEq, Eq, Structural, PartialOrd, Ord)]
pub enum RerollType {
    /// Rolls of one.
    Ones,
    /// Rolls that fail before modifiers are counted.
    Failed,
    /// Any roll that fails.
    Any,
}

impl RerollType {
    /// The place in the order of precedence: a higher rank is more permissive.
    pub open spec fn rank(self) -> int {
        match self {
            RerollType::Ones => 0,
            RerollType::Failed => 1,
            RerollType::Any => 2,
        }
    }

    /// Whether `self` is more permissive than `other`.
    pub fn outranks(self, other: RerollType) -> (r: bool)
        ensures
            r == (self.rank() > other.rank()),
    {
        match (self, other) {
            (RerollType::Any, RerollType::Ones) => true,
            (RerollType::Any, RerollType::Failed) => true,
            (RerollType::Failed, RerollType::Ones) => true,
            _ => false,
        }
    }

    /// The display name: `Ones`, `Failed` or `Any`.
    pub fn to_string(&self) -> (r: String)
        ensures
            r@ == (match *self {
                RerollType::Ones => "Ones"@,
                RerollType::Failed => "Failed"@,
                RerollType::Any => "Any"@,
            }),
    {
        match self {
            RerollType::Ones => String::from_str("Ones"),
            RerollType::Failed => String::from_str("Failed"),
            RerollType::Any => String::from_str("Any"),
        }
    }
}

} // verus!

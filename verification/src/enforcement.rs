//! Whether expired metadata stops a repository from loading.

use vstd::prelude::*;

verus! {

/// Whether a repository refuses expired metadata (`Safe`) or ignores
/// expiration dates (`Unsafe`).
#[derive(Debug, Clone, Copy, PartialEq, Eq, Structural)]
pub enum ExpirationEnforcement {
    /// Expirations are enforced. Only this mode gives the guarantees of TUF.
    Safe,
    /// Expirations are not enforced. Meant for offline use, where stale
    /// metadata is better than none.
    Unsafe,
}

impl ExpirationEnforcement {
    /// `true` stands for `Safe`, `false` for `Unsafe`.
    pub open spec fn of_bool(b: bool) -> ExpirationEnforcement {
        if b {
            ExpirationEnforcement::Safe
        } else {
            ExpirationEnforcement::Unsafe
        }
    }

    /// Whether expirations are enforced.
    pub open spec fn enforced(self) -> bool {
        self == ExpirationEnforcement::Safe
    }
}

/// The default mode is `Safe`.
impl Default for ExpirationEnforcement {
    fn default() -> (r: Self)
        ensures
            r == ExpirationEnforcement::Safe,
    {
        ExpirationEnforcement::Safe
    }
}

impl From<bool> for ExpirationEnforcement {
    fn from(b: bool) -> (r: Self) {
        if b {
            ExpirationEnforcement::Safe
        } else {
            ExpirationEnforcement::Unsafe
        }
    }
}

impl vstd::std_specs::convert::FromSpecImpl<bool> for ExpirationEnforcement {
    open spec fn obeys_from_spec() -> bool {
        true
    }

    open spec fn from_spec(b: bool) -> ExpirationEnforcement {
        ExpirationEnforcement::of_bool(b)
    }
}

impl From<ExpirationEnforcement> for bool {
    fn from(ee: ExpirationEnforcement) -> (r: Self) {
        ee == ExpirationEnforcement::Safe
    }
}

impl vstd::std_specs::convert::FromSpecImpl<ExpirationEnforcement> for bool {
    open spec fn obeys_from_spec() -> bool {
        true
    }

    open spec fn from_spec(ee: ExpirationEnforcement) -> bool {
        ee.enforced()
    }
}

/// Turning a flag into a mode and back gives the flag again.
pub proof fn lemma_bool_round_trip(b: bool)
    ensures
        ExpirationEnforcement::of_bool(b).enforced() == b,
{
}

/// Turning a mode into a flag and back gives the mode again.
pub proof fn lemma_enforcement_round_trip(ee: ExpirationEnforcement)
    ensures
        ExpirationEnforcement::of_bool(ee.enforced()) == ee,
{
}

} // verus!

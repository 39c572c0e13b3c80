//! Map metadata and the arithmetic that maps use on it.
use vstd::prelude::*;

use crate::error::SystemError;

verus! {

/// The attributes a map is created with.
#[derive(Debug, Clone, Copy, PartialEq, Eq, Structural)]
pub struct BpfMapMeta {
    /// Size in bytes of a key.
    pub key_size: u32,
    /// Size in bytes of a value.
    pub value_size: u32,
    /// The most entries the map is meant to hold.
    pub max_entries: u32,
}

/// Update flag: create a new entry or update an existing one.
pub const BPF_ANY: u64 = 0;
/// Update flag: create a new entry only; the key must not exist.
pub const BPF_NOEXIST: u64 = 1;
/// Update flag: update an existing entry only; the key must exist.
pub const BPF_EXIST: u64 = 2;
/// Update flag: take the value's spin lock; hash maps here have none to take.
pub const BPF_F_LOCK: u64 = 4;

/// What an update of a key answers: with both `BPF_NOEXIST` and `BPF_EXIST` in
/// `flags` the flags are invalid (`EINVAL`); under `BPF_NOEXIST` an existing key
/// is refused (`EEXIST`); under `BPF_EXIST` an absent key is refused (`ENOENT`);
/// a new key in a map already holding `max_entries` entries is refused (`E2BIG`);
/// otherwise the update is made. Other flag bits are not consulted.
pub open spec fn update_outcome(exists: bool, count: nat, max_entries: u32, flags: u64) -> Result<
    (),
    SystemError,
> {
    let f = flags % 4;
    if f == 3 {
        Err(SystemError::EINVAL)
    } else if f == BPF_NOEXIST && exists {
        Err(SystemError::EEXIST)
    } else if f == BPF_EXIST && !exists {
        Err(SystemError::ENOENT)
    } else if !exists && count >= max_entries {
        Err(SystemError::E2BIG)
    } else {
        Ok(())
    }
}

/// The least multiple of `align` that is at least `x`.
pub open spec fn round_up_spec(x: int, align: int) -> int {
    ((x + align - 1) / align) * align
}

/// Rounds `x` up to the next multiple of the power of two `align`.
pub fn round_up(x: usize, align: usize) -> (r: usize)
    requires
        align > 0,
        align & ((align - 1) as usize) == 0,
        x + align - 1 <= usize::MAX,
    ensures
        r == round_up_spec(x as int, align as int),
        r % align == 0,
        x <= r < x + align,
{
    let q = (x + (align - 1)) / align;
    proof {
        vstd::arithmetic::div_mod::lemma_fundamental_div_mod((x + align - 1) as int, align as int);
        vstd::arithmetic::mul::lemma_mul_is_commutative(q as int, align as int);
        vstd::arithmetic::div_mod::lemma_mod_multiples_basic(q as int, align as int);
    }
    assert(q * align <= x + align - 1) by (nonlinear_arith)
        requires
            q as int == (x + align - 1) as int / align as int,
            align > 0,
    ;
    q * align
}

} // verus!

//! The host clock, voting-period durations and absolute expirations.
//!
//! The host supplies a monotonically non-decreasing block height and a
//! wall-clock timestamp once per call; they are the only clocks the
//! engine trusts. A duration is anchored to the block a proposal is
//! created in and resolved once into an absolute expiration.

use vstd::prelude::*;

verus! {

/// The height and time the host vouches for during one call.
///
/// The timestamp counts nanoseconds.
#[derive(Clone, Copy, Debug, PartialEq, Eq, Structural)]
pub struct BlockInfo {
    pub height: u64,
    pub time: u64,
}

/// A voting period: a block-height delta or a wall-clock delta in
/// seconds.
#[derive(Clone, Copy, Debug, PartialEq, Eq, Structural)]
pub enum Duration {
    Height(u64),
    Time(u64),
}

/// An absolute point after which a proposal takes no further votes.
///
/// `AtTime` counts nanoseconds, like [`BlockInfo::time`].
#[derive(Clone, Copy, Debug, PartialEq, Eq, Structural)]
pub enum Expiration {
    AtHeight(u64),
    AtTime(u64),
    Never,
}

/// Nanoseconds per second.
pub const NANOS_PER_SECOND: u64 = 1_000_000_000;

/// The sum of two values, capped at the top of the 64-bit range.
pub open spec fn spec_saturating_add(a: u64, b: u64) -> u64 {
    if a + b <= u64::MAX {
        (a + b) as u64
    } else {
        u64::MAX
    }
}

/// `seconds` turned into nanoseconds, capped at the top of the 64-bit
/// range.
pub open spec fn spec_saturating_nanos(seconds: u64) -> u64 {
    if seconds * NANOS_PER_SECOND <= u64::MAX {
        (seconds * NANOS_PER_SECOND) as u64
    } else {
        u64::MAX
    }
}

impl Duration {
    /// The expiration of this duration anchored at the given block.
    /// An overflowing sum saturates, which pushes the expiration to the
    /// end of the representable range.
    pub open spec fn spec_after(self, block: BlockInfo) -> Expiration {
        match self {
            Duration::Height(h) => Expiration::AtHeight(spec_saturating_add(block.height, h)),
            Duration::Time(s) => Expiration::AtTime(
                spec_saturating_add(block.time, spec_saturating_nanos(s)),
            ),
        }
    }

    /// Resolves the duration into an absolute expiration, anchored at
    /// the given block.
    pub fn after(&self, block: &BlockInfo) -> (r: Expiration)
        ensures
            r == self.spec_after(*block),
    {
        match self {
            Duration::Height(h) => Expiration::AtHeight(block.height.saturating_add(*h)),
            Duration::Time(s) => {
                let nanos: u64 = match s.checked_mul(NANOS_PER_SECOND) {
                    Some(n) => n,
                    None => u64::MAX,
                };
                Expiration::AtTime(block.time.saturating_add(nanos))
            },
        }
    }
}

impl Expiration {
    /// Whether the expiration has been reached at the given block: the
    /// block's height or time is at or past the stored point.
    pub open spec fn spec_is_expired(self, block: BlockInfo) -> bool {
        match self {
            Expiration::AtHeight(h) => block.height >= h,
            Expiration::AtTime(t) => block.time >= t,
            Expiration::Never => false,
        }
    }

    pub fn is_expired(&self, block: &BlockInfo) -> (r: bool)
        ensures
            r == self.spec_is_expired(*block),
    {
        match self {
            Expiration::AtHeight(h) => block.height >= *h,
            Expiration::AtTime(t) => block.time >= *t,
            Expiration::Never => false,
        }
    }

    /// Whether two expirations use the same unit and this one is at or
    /// before the other. Expirations of different units, and `Never`
    /// against anything, do not compare at all.
    pub open spec fn spec_comparable_and_le(self, other: Expiration) -> Option<bool> {
        match (self, other) {
            (Expiration::AtHeight(a), Expiration::AtHeight(b)) => Some(a <= b),
            (Expiration::AtTime(a), Expiration::AtTime(b)) => Some(a <= b),
            _ => None,
        }
    }

    /// Compares two expirations of the same unit; `None` for an
    /// incompatible pair.
    pub fn comparable_and_le(&self, other: &Expiration) -> (r: Option<bool>)
        ensures
            r == self.spec_comparable_and_le(*other),
    {
        match (self, other) {
            (Expiration::AtHeight(a), Expiration::AtHeight(b)) => Some(*a <= *b),
            (Expiration::AtTime(a), Expiration::AtTime(b)) => Some(*a <= *b),
            _ => None,
        }
    }
}

} // verus!

use vstd::prelude::*;

verus! {

/// A Minecraft protocol release, in chronological order.
///
/// Only the relative order of releases matters to the lobby logic: every
/// version-dependent decision is a comparison against a known release.
#[derive(Debug, Clone, Copy, PartialEq, Eq, Hash, Structural)]
pub enum ProtocolVersion {
    V1_7_2,
    V1_7_6,
    V1_8,
    V1_9,
    V1_9_1,
    V1_9_2,
    V1_9_4,
    V1_10,
    V1_11,
    V1_11_1,
    V1_12,
    V1_12_1,
    V1_12_2,
    V1_13,
    V1_13_1,
    V1_13_2,
    V1_14,
    V1_14_1,
    V1_14_2,
    V1_14_3,
    V1_14_4,
    V1_15,
    V1_15_1,
    V1_15_2,
    V1_16,
    V1_16_1,
    V1_16_2,
    V1_16_3,
    V1_16_4,
    V1_17,
    V1_17_1,
    V1_18,
    V1_18_2,
    V1_19,
    V1_19_1,
    V1_19_3,
    V1_19_4,
    V1_20,
    V1_20_2,
    V1_20_3,
    V1_20_5,
    V1_21,
    V1_21_2,
    V1_21_4,
    V1_21_5,
    V1_21_6,
    V1_21_7,
    V1_21_9,
    V1_21_11,
    V26_1,
}

impl ProtocolVersion {
    /// Position of the release in chronological order.
    pub open spec fn rank(self) -> int {
        match self {
            ProtocolVersion::V1_7_2 => 0,
            ProtocolVersion::V1_7_6 => 1,
            ProtocolVersion::V1_8 => 2,
            ProtocolVersion::V1_9 => 3,
            ProtocolVersion::V1_9_1 => 4,
            ProtocolVersion::V1_9_2 => 5,
            ProtocolVersion::V1_9_4 => 6,
            ProtocolVersion::V1_10 => 7,
            ProtocolVersion::V1_11 => 8,
            ProtocolVersion::V1_11_1 => 9,
            ProtocolVersion::V1_12 => 10,
            ProtocolVersion::V1_12_1 => 11,
            ProtocolVersion::V1_12_2 => 12,
            ProtocolVersion::V1_13 => 13,
            ProtocolVersion::V1_13_1 => 14,
            ProtocolVersion::V1_13_2 => 15,
            ProtocolVersion::V1_14 => 16,
            ProtocolVersion::V1_14_1 => 17,
            ProtocolVersion::V1_14_2 => 18,
            ProtocolVersion::V1_14_3 => 19,
            ProtocolVersion::V1_14_4 => 20,
            ProtocolVersion::V1_15 => 21,
            ProtocolVersion::V1_15_1 => 22,
            ProtocolVersion::V1_15_2 => 23,
            ProtocolVersion::V1_16 => 24,
            ProtocolVersion::V1_16_1 => 25,
            ProtocolVersion::V1_16_2 => 26,
            ProtocolVersion::V1_16_3 => 27,
            ProtocolVersion::V1_16_4 => 28,
            ProtocolVersion::V1_17 => 29,
            ProtocolVersion::V1_17_1 => 30,
            ProtocolVersion::V1_18 => 31,
            ProtocolVersion::V1_18_2 => 32,
            ProtocolVersion::V1_19 => 33,
            ProtocolVersion::V1_19_1 => 34,
            ProtocolVersion::V1_19_3 => 35,
            ProtocolVersion::V1_19_4 => 36,
            ProtocolVersion::V1_20 => 37,
            ProtocolVersion::V1_20_2 => 38,
            ProtocolVersion::V1_20_3 => 39,
            ProtocolVersion::V1_20_5 => 40,
            ProtocolVersion::V1_21 => 41,
            ProtocolVersion::V1_21_2 => 42,
            ProtocolVersion::V1_21_4 => 43,
            ProtocolVersion::V1_21_5 => 44,
            ProtocolVersion::V1_21_6 => 45,
            ProtocolVersion::V1_21_7 => 46,
            ProtocolVersion::V1_21_9 => 47,
            ProtocolVersion::V1_21_11 => 48,
            ProtocolVersion::V26_1 => 49,
        }
    }

    /// Executable counterpart of [`ProtocolVersion::rank`].
    pub fn order(self) -> (r: u8)
        ensures
            r as int == self.rank(),
    {
        match self {
            ProtocolVersion::V1_7_2 => 0,
            ProtocolVersion::V1_7_6 => 1,
            ProtocolVersion::V1_8 => 2,
            ProtocolVersion::V1_9 => 3,
            ProtocolVersion::V1_9_1 => 4,
            ProtocolVersion::V1_9_2 => 5,
            ProtocolVersion::V1_9_4 => 6,
            ProtocolVersion::V1_10 => 7,
            ProtocolVersion::V1_11 => 8,
            ProtocolVersion::V1_11_1 => 9,
            ProtocolVersion::V1_12 => 10,
            ProtocolVersion::V1_12_1 => 11,
            ProtocolVersion::V1_12_2 => 12,
            ProtocolVersion::V1_13 => 13,
            ProtocolVersion::V1_13_1 => 14,
            ProtocolVersion::V1_13_2 => 15,
            ProtocolVersion::V1_14 => 16,
            ProtocolVersion::V1_14_1 => 17,
            ProtocolVersion::V1_14_2 => 18,
            ProtocolVersion::V1_14_3 => 19,
            ProtocolVersion::V1_14_4 => 20,
            ProtocolVersion::V1_15 => 21,
            ProtocolVersion::V1_15_1 => 22,
            ProtocolVersion::V1_15_2 => 23,
            ProtocolVersion::V1_16 => 24,
            ProtocolVersion::V1_16_1 => 25,
            ProtocolVersion::V1_16_2 => 26,
            ProtocolVersion::V1_16_3 => 27,
            ProtocolVersion::V1_16_4 => 28,
            ProtocolVersion::V1_17 => 29,
            ProtocolVersion::V1_17_1 => 30,
            ProtocolVersion::V1_18 => 31,
            ProtocolVersion::V1_18_2 => 32,
            ProtocolVersion::V1_19 => 33,
            ProtocolVersion::V1_19_1 => 34,
            ProtocolVersion::V1_19_3 => 35,
            ProtocolVersion::V1_19_4 => 36,
            ProtocolVersion::V1_20 => 37,
            ProtocolVersion::V1_20_2 => 38,
            ProtocolVersion::V1_20_3 => 39,
            ProtocolVersion::V1_20_5 => 40,
            ProtocolVersion::V1_21 => 41,
            ProtocolVersion::V1_21_2 => 42,
            ProtocolVersion::V1_21_4 => 43,
            ProtocolVersion::V1_21_5 => 44,
            ProtocolVersion::V1_21_6 => 45,
            ProtocolVersion::V1_21_7 => 46,
            ProtocolVersion::V1_21_9 => 47,
            ProtocolVersion::V1_21_11 => 48,
            ProtocolVersion::V26_1 => 49,
        }
    }

    /// `true` when `self` is `other` or a later release.
    pub fn is_after_inclusive(self, other: ProtocolVersion) -> (b: bool)
        ensures
            b == (self.rank() >= other.rank()),
    {
        self.order() >= other.order()
    }

    /// `true` when `self` is `other` or an earlier release.
    pub fn is_before_inclusive(self, other: ProtocolVersion) -> (b: bool)
        ensures
            b == (self.rank() <= other.rank()),
    {
        self.order() <= other.order()
    }

    /// `true` when `low <= self <= high` in release order.
    pub fn between_inclusive(self, low: ProtocolVersion, high: ProtocolVersion) -> (b: bool)
        ensures
            b == (low.rank() <= self.rank() && self.rank() <= high.rank()),
    {
        self.is_after_inclusive(low) && self.is_before_inclusive(high)
    }

    /// The oldest release the server speaks.
    pub fn oldest() -> (v: ProtocolVersion)
        ensures
            forall|o: ProtocolVersion| v.rank() <= #[trigger] o.rank(),
    {
        ProtocolVersion::V1_7_2
    }

    /// The newest release the server speaks.
    pub fn latest() -> (v: ProtocolVersion)
        ensures
            forall|o: ProtocolVersion| #[trigger] o.rank() <= v.rank(),
    {
        ProtocolVersion::V26_1
    }
}

/// Connection phase of a client.
#[derive(Debug, Clone, Copy, PartialEq, Eq, Hash, Structural)]
pub enum State {
    Handshake,
    Status,
    Login,
    Configuration,
    Play,
}

} // verus!

use vstd::prelude::*;

verus! {

/// Size in bytes of one kernel sector, the unit of the block-device counters.
pub const SECTOR_SIZE: u64 = 512;

/// Number of bytes in one mebibyte.
pub const MIB: u64 = 1048576;

/// A count of 512-byte kernel sectors.
#[derive(Clone, Copy, Debug, PartialEq, Eq, Structural)]
pub struct SectorCount(pub u64);

/// Read and written sector totals, either a snapshot of cumulative counters
/// or the difference between two snapshots.
#[derive(Clone, Copy, Debug, PartialEq, Eq, Structural)]
pub struct IOStats {
    pub read: SectorCount,
    pub written: SectorCount,
}

/// Sectors in `mib` mebibytes.
pub open spec fn sectors_of_mib(mib: nat) -> nat {
    mib * MIB as nat / SECTOR_SIZE as nat
}

impl SectorCount {
    /// The number of bytes these sectors span.
    pub fn as_bytes(self) -> (r: u64)
        requires
            self.0 * SECTOR_SIZE <= u64::MAX,
        ensures
            r == self.0 * SECTOR_SIZE,
    {
        self.0 * SECTOR_SIZE
    }

    /// The number of sectors in `value` mebibytes.
    pub fn from_mib(value: u64) -> (r: SectorCount)
        requires
            value * MIB <= u64::MAX,
        ensures
            r.0 == sectors_of_mib(value as nat),
    {
        SectorCount(value * MIB / SECTOR_SIZE)
    }

    /// The sum of two counts.
    pub fn add(self, rhs: SectorCount) -> (r: SectorCount)
        requires
            self.0 + rhs.0 <= u64::MAX,
        ensures
            r.0 == self.0 + rhs.0,
    {
        SectorCount(self.0 + rhs.0)
    }
}

impl IOStats {
    /// Whether no counter of `self` is below the matching counter of `earlier`.
    pub open spec fn spec_not_before(self, earlier: IOStats) -> bool {
        earlier.read.0 <= self.read.0 && earlier.written.0 <= self.written.0
    }

    /// Whether no counter of `self` is below the matching counter of `earlier`.
    pub fn not_before(&self, earlier: &IOStats) -> (r: bool)
        ensures
            r == self.spec_not_before(*earlier),
    {
        earlier.read.0 <= self.read.0 && earlier.written.0 <= self.written.0
    }

    /// The counters of `self` less those of `earlier`.
    pub open spec fn spec_sub(self, earlier: IOStats) -> IOStats {
        IOStats {
            read: SectorCount((self.read.0 - earlier.read.0) as u64),
            written: SectorCount((self.written.0 - earlier.written.0) as u64),
        }
    }

    /// The sectors read and written between the snapshot `earlier` and `self`.
    pub fn sub(&self, earlier: &IOStats) -> (r: IOStats)
        requires
            self.spec_not_before(*earlier),
        ensures
            r == self.spec_sub(*earlier),
            r.read.0 == self.read.0 - earlier.read.0,
            r.written.0 == self.written.0 - earlier.written.0,
    {
        IOStats {
            read: SectorCount(self.read.0 - earlier.read.0),
            written: SectorCount(self.written.0 - earlier.written.0),
        }
    }
}

/// Converting a mebibyte count to sectors and the sectors to bytes gives the
/// mebibyte count in bytes: no byte is lost to rounding.
pub proof fn lemma_mib_bytes_round_trip(mib: u64)
    requires
        mib * MIB <= u64::MAX,
    ensures
        sectors_of_mib(mib as nat) * SECTOR_SIZE == mib * MIB,
{
    assert(mib * MIB == (mib * 2048) * 512) by (nonlinear_arith);
    assert((mib * 2048) * 512 / 512 == mib * 2048) by (nonlinear_arith);
}

} // verus!

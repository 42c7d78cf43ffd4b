use vstd::prelude::*;
use vstd::string::*;

use crate::record::{parse_stat_record, stat_record, StatError};
use crate::units::{IOStats, SectorCount};

verus! {

/// Whether `s` begins with `p`.
pub open spec fn has_prefix(s: Seq<char>, p: Seq<char>) -> bool {
    p.len() <= s.len() && s.take(p.len() as int) == p
}

/// Whether a block device of this name is left out of the totals: device-mapper
/// devices (`dm-` prefix) and loopback devices (`loop` prefix) are virtual.
pub open spec fn ignored_device(name: Seq<char>) -> bool {
    has_prefix(name, seq!['d', 'm', '-']) || has_prefix(name, seq!['l', 'o', 'o', 'p'])
}

/// Whether `s` begins with `p`.
pub fn starts_with(s: &str, p: &str) -> (r: bool)
    ensures
        r == has_prefix(s@, p@),
{
    let n = s.unicode_len();
    let m = p.unicode_len();
    if m > n {
        return false;
    }
    let mut i: usize = 0;
    while i < m
        invariant
            m == p@.len(),
            n == s@.len(),
            m <= n,
            i <= m,
            forall|k: int| 0 <= k < i ==> s@[k] == p@[k],
        decreases m - i,
    {
        if s.get_char(i) != p.get_char(i) {
            assert(s@.take(m as int)[i as int] != p@[i as int]);
            return false;
        }
        i = i + 1;
    }
    assert(s@.take(m as int) =~= p@);
    true
}

/// Whether a block device of this name is left out of the totals.
pub fn is_ignored_device(name: &str) -> (r: bool)
    ensures
        r == ignored_device(name@),
{
    let dm = "dm-";
    let lp = "loop";
    proof {
        reveal_strlit("dm-");
        reveal_strlit("loop");
        assert(dm@ =~= seq!['d', 'm', '-']);
        assert(lp@ =~= seq!['l', 'o', 'o', 'p']);
    }
    starts_with(name, dm) || starts_with(name, lp)
}

/// Sectors read over all of `devices`.
pub open spec fn total_read(devices: Seq<IOStats>) -> nat
    decreases devices.len(),
{
    if devices.len() == 0 {
        0
    } else {
        total_read(devices.drop_last()) + devices.last().read.0 as nat
    }
}

/// Sectors written over all of `devices`.
pub open spec fn total_written(devices: Seq<IOStats>) -> nat
    decreases devices.len(),
{
    if devices.len() == 0 {
        0
    } else {
        total_written(devices.drop_last()) + devices.last().written.0 as nat
    }
}

proof fn lemma_totals_prefix_le(devices: Seq<IOStats>, j: int)
    requires
        0 <= j <= devices.len(),
    ensures
        total_read(devices.take(j)) <= total_read(devices),
        total_written(devices.take(j)) <= total_written(devices),
    decreases devices.len(),
{
    if j < devices.len() {
        assert(devices.drop_last().take(j) =~= devices.take(j));
        lemma_totals_prefix_le(devices.drop_last(), j);
    } else {
        assert(devices.take(j) =~= devices);
    }
}

/// Sums the per-device counters into one snapshot; fails with `TotalOverflow`
/// exactly when a total does not fit in 64 bits.
pub fn aggregate(devices: &Vec<IOStats>) -> (r: Result<IOStats, StatError>)
    ensures
        r is Ok <==> total_read(devices@) <= u64::MAX && total_written(devices@) <= u64::MAX,
        r matches Ok(t) ==> t.read.0 == total_read(devices@) && t.written.0 == total_written(
            devices@,
        ),
        r matches Err(e) ==> e == StatError::TotalOverflow,
{
    let mut read = SectorCount(0);
    let mut written = SectorCount(0);
    let mut i: usize = 0;
    while i < devices.len()
        invariant
            i <= devices@.len(),
            read.0 == total_read(devices@.take(i as int)),
            written.0 == total_written(devices@.take(i as int)),
        decreases devices@.len() - i,
    {
        let d = devices[i];
        assert(devices@.take(i + 1).drop_last() =~= devices@.take(i as int));
        if read.0 > u64::MAX - d.read.0 || written.0 > u64::MAX - d.written.0 {
            proof {
                lemma_totals_prefix_le(devices@, i + 1);
            }
            return Err(StatError::TotalOverflow);
        }
        read = read.add(d.read);
        written = written.add(d.written);
        i = i + 1;
    }
    assert(devices@.take(i as int) =~= devices@);
    Ok(IOStats { read, written })
}

/// The parsed records, or the error of the first record that does not parse.
pub open spec fn parse_all(records: Seq<Seq<u8>>) -> Result<Seq<IOStats>, StatError>
    decreases records.len(),
{
    if records.len() == 0 {
        Ok(seq![])
    } else {
        match parse_all(records.drop_last()) {
            Err(e) => Err(e),
            Ok(p) => match stat_record(records.last()) {
                Err(e) => Err(e),
                Ok(s) => Ok(p.push(s)),
            },
        }
    }
}

/// The snapshot that the statistics records of the physical devices give.
pub open spec fn snapshot(records: Seq<Seq<u8>>) -> Result<IOStats, StatError> {
    match parse_all(records) {
        Err(e) => Err(e),
        Ok(devices) => if total_read(devices) <= u64::MAX && total_written(devices) <= u64::MAX {
            Ok(
                IOStats {
                    read: SectorCount(total_read(devices) as u64),
                    written: SectorCount(total_written(devices) as u64),
                },
            )
        } else {
            Err(StatError::TotalOverflow)
        },
    }
}

/// Parses the statistics record of each physical device and sums them into
/// one snapshot; any record that does not parse fails the whole sample.
pub fn sample_records(records: &Vec<Vec<u8>>) -> (r: Result<IOStats, StatError>)
    ensures
        r == snapshot(records@.map_values(|v: Vec<u8>| v@)),
{
    let ghost views = records@.map_values(|v: Vec<u8>| v@);
    let mut devices: Vec<IOStats> = Vec::new();
    let mut i: usize = 0;
    while i < records.len()
        invariant
            i <= records@.len(),
            views == records@.map_values(|v: Vec<u8>| v@),
            parse_all(views.take(i as int)) == Ok::<Seq<IOStats>, StatError>(devices@),
        decreases records@.len() - i,
    {
        assert(views.take(i + 1).drop_last() =~= views.take(i as int));
        match parse_stat_record(records[i].as_slice()) {
            Ok(s) => devices.push(s),
            Err(e) => {
                proof {
                    lemma_parse_all_err_stays(views, i + 1);
                }
                return Err(e);
            },
        }
        i = i + 1;
    }
    assert(views.take(i as int) =~= views);
    aggregate(&devices)
}

proof fn lemma_parse_all_err_stays(records: Seq<Seq<u8>>, j: int)
    requires
        0 <= j <= records.len(),
        parse_all(records.take(j)) is Err,
    ensures
        parse_all(records) == parse_all(records.take(j)),
    decreases records.len(),
{
    if j < records.len() {
        assert(records.drop_last().take(j) =~= records.take(j));
        lemma_parse_all_err_stays(records.drop_last(), j);
    } else {
        assert(records.take(j) =~= records);
    }
}

} // verus!

use vstd::prelude::*;

use crate::render::{alert_class, format_io_stats, io_text, AlertClass, FormattedIOStats};
use crate::sampler::snapshot;
use crate::units::{IOStats, SectorCount};

verus! {

/// One polling step: `current` becomes the new baseline, and the delta from
/// `previous` is rendered when there is a previous snapshot that no counter of
/// `current` falls below. A first sample only sets the baseline; a counter
/// that went backwards (the kernel's counters restart on reboot) also yields
/// no output, and the next step measures from `current`.
pub fn advance(previous: Option<IOStats>, current: IOStats) -> (r: (
    IOStats,
    Option<FormattedIOStats>,
))
    ensures
        r.0 == current,
        r.1 is Some <==> (previous matches Some(p) && current.spec_not_before(p)),
        r.1 matches Some(f) ==> (previous matches Some(p) && f.text@ == io_text(
            current.spec_sub(p),
        ) && f.class == alert_class(current.spec_sub(p))),
{
    match previous {
        Some(p) => {
            if current.not_before(&p) {
                let delta = current.sub(&p);
                (current, Some(format_io_stats(delta)))
            } else {
                (current, None)
            }
        },
        None => (current, None),
    }
}

/// Two samples of unchanged device records give the same snapshot, whose
/// delta against itself is zero and classifies as `Normal`.
pub proof fn lemma_unchanged_records_are_quiet(records: Seq<Seq<u8>>)
    ensures
        snapshot(records) matches Ok(s) ==> s.spec_not_before(s) && s.spec_sub(s) == (IOStats {
            read: SectorCount(0),
            written: SectorCount(0),
        }) && alert_class(s.spec_sub(s)) == AlertClass::Normal,
{
}

} // verus!

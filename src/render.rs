use vstd::prelude::*;
use vstd::string::*;

use crate::units::{sectors_of_mib, IOStats, SectorCount, MIB, SECTOR_SIZE};

verus! {

/// Deltas of at least this many mebibytes are a warning.
pub const WARNING_MIB: u64 = 128;

/// Deltas of at least this many mebibytes are critical.
pub const CRITICAL_MIB: u64 = 1024;

/// Width to which the numeric part of a throughput is right-aligned.
pub const FIELD_WIDTH: usize = 10;

/// Severity of the larger of the read and written deltas.
#[derive(Clone, Copy, Debug, PartialEq, Eq, Structural)]
pub enum AlertClass {
    Normal,
    Warning,
    Critical,
}

/// Display text and severity of one delta.
#[derive(Debug)]
pub struct FormattedIOStats {
    pub text: String,
    pub class: AlertClass,
}

/// The larger of the two counters of `delta`.
pub open spec fn peak(delta: IOStats) -> u64 {
    if delta.read.0 >= delta.written.0 {
        delta.read.0
    } else {
        delta.written.0
    }
}

/// `Normal` below `WARNING_MIB`, `Warning` from there to below `CRITICAL_MIB`,
/// `Critical` from there on, all measured in sectors.
pub open spec fn alert_class(delta: IOStats) -> AlertClass {
    if peak(delta) < sectors_of_mib(WARNING_MIB as nat) {
        AlertClass::Normal
    } else if peak(delta) < sectors_of_mib(CRITICAL_MIB as nat) {
        AlertClass::Warning
    } else {
        AlertClass::Critical
    }
}

/// The character of the decimal digit `d % 10`.
pub open spec fn digit_char(d: nat) -> char {
    seq!['0', '1', '2', '3', '4', '5', '6', '7', '8', '9'][(d % 10) as int]
}

/// The decimal digits of `n`, without leading zeros.
pub open spec fn decimal(n: nat) -> Seq<char>
    decreases n,
{
    if n < 10 {
        seq![digit_char(n)]
    } else {
        decimal(n / 10).push(digit_char(n % 10))
    }
}

/// The last three decimal digits of `n`, zeros included.
pub open spec fn three_digits(n: nat) -> Seq<char> {
    seq![digit_char(n / 100), digit_char(n / 10), digit_char(n)]
}

/// The decimal digits of `n` with a `,` between groups of three, counted from
/// the right.
pub open spec fn grouped(n: nat) -> Seq<char>
    decreases n,
{
    if n < 1000 {
        decimal(n)
    } else {
        grouped(n / 1000) + seq![','] + three_digits(n % 1000)
    }
}

/// `n` thousandths as a grouped integer part, a `.` and three decimals.
pub open spec fn milli_text(n: nat) -> Seq<char> {
    grouped(n / 1000) + seq!['.'] + three_digits(n % 1000)
}

/// `s` preceded by as many spaces as bring it to `width` characters.
pub open spec fn pad_left(s: Seq<char>, width: nat) -> Seq<char> {
    if s.len() < width {
        Seq::new((width - s.len()) as nat, |i: int| ' ') + s
    } else {
        s
    }
}

/// Thousandths of a mebibyte in `sectors`, rounded down.
pub open spec fn milli_mib(sectors: nat) -> nat {
    sectors * SECTOR_SIZE as nat * 1000 / MIB as nat
}

/// The unit that follows each throughput.
pub open spec fn unit_text() -> Seq<char> {
    seq![' ', 'M', 'i', 'B', '/', 's']
}

/// The throughput of `sectors` as display text, such as `"    12.345 MiB/s"`.
pub open spec fn value_text(sectors: nat) -> Seq<char> {
    pad_left(milli_text(milli_mib(sectors)), FIELD_WIDTH as nat) + unit_text()
}

/// The display text of a delta: `"<read> MiB/s read <written> MiB/s write"`.
pub open spec fn io_text(delta: IOStats) -> Seq<char> {
    value_text(delta.read.0 as nat) + seq![' ', 'r', 'e', 'a', 'd', ' '] + value_text(
        delta.written.0 as nat,
    ) + seq![' ', 'w', 'r', 'i', 't', 'e']
}

fn push_digit(out: &mut String, d: u64)
    ensures
        final(out)@ == old(out)@.push(digit_char(d as nat)),
{
    let digits = "0123456789";
    proof {
        reveal_strlit("0123456789");
    }
    let k = (d % 10) as usize;
    let s = digits.substring_char(k, k + 1);
    assert(s@ =~= seq![digit_char(d as nat)]);
    out.append(s);
}

fn push_decimal(out: &mut String, n: u64)
    ensures
        final(out)@ == old(out)@ + decimal(n as nat),
    decreases n,
{
    if n >= 10 {
        push_decimal(out, n / 10);
    }
    push_digit(out, n % 10);
    assert((n % 10) as nat % 10 == n as nat % 10);
}

fn push_three_digits(out: &mut String, n: u64)
    ensures
        final(out)@ == old(out)@ + three_digits(n as nat),
{
    push_digit(out, n / 100);
    push_digit(out, n / 10);
    push_digit(out, n);
}

fn push_grouped(out: &mut String, n: u64)
    ensures
        final(out)@ == old(out)@ + grouped(n as nat),
    decreases n,
{
    if n < 1000 {
        push_decimal(out, n);
    } else {
        let ghost before = out@;
        push_grouped(out, n / 1000);
        proof {
            reveal_strlit(",");
        }
        out.append(",");
        push_three_digits(out, n % 1000);
        assert(out@ =~= before + grouped(n as nat));
    }
}

/// Renders the throughput of `value` sectors: thousandths of a mebibyte as a
/// grouped fixed-point number, right-aligned, and the unit. The arithmetic is
/// exact for every count, so every count has a text.
pub fn format_value(value: SectorCount) -> (r: String)
    ensures
        r@ == value_text(value.0 as nat),
{
    let wide: u128 = (value.0 as u128) * (SECTOR_SIZE as u128) * 1000 / (MIB as u128);
    assert(wide <= value.0) by (nonlinear_arith)
        requires
            wide == (value.0 as u128) * 512 * 1000 / 1048576,
    ;
    let n: u64 = wide as u64;
    proof {
        reveal_strlit(".");
        reveal_strlit(" ");
        reveal_strlit(" MiB/s");
    }
    let mut num = String::new();
    push_grouped(&mut num, n / 1000);
    num.append(".");
    push_three_digits(&mut num, n % 1000);
    assert(num@ =~= milli_text(milli_mib(value.0 as nat)));
    let len = num.as_str().unicode_len();
    let mut out = String::new();
    if len < FIELD_WIDTH {
        let mut k: usize = 0;
        while k < FIELD_WIDTH - len
            invariant
                len < FIELD_WIDTH,
                k <= FIELD_WIDTH - len,
                out@ == Seq::new(k as nat, |i: int| ' '),
            decreases FIELD_WIDTH - len - k,
        {
            proof {
                reveal_strlit(" ");
            }
            out.append(" ");
            k = k + 1;
            assert(out@ =~= Seq::new(k as nat, |i: int| ' '));
        }
    }
    assert(out@ + num@ =~= pad_left(num@, FIELD_WIDTH as nat));
    out.append(num.as_str());
    out.append(" MiB/s");
    assert(out@ =~= value_text(value.0 as nat));
    out
}

/// The severity of `delta`.
pub fn classify(delta: &IOStats) -> (r: AlertClass)
    ensures
        r == alert_class(*delta),
{
    let peak = if delta.read.0 >= delta.written.0 {
        delta.read
    } else {
        delta.written
    };
    if peak.0 < SectorCount::from_mib(WARNING_MIB).0 {
        AlertClass::Normal
    } else if peak.0 < SectorCount::from_mib(CRITICAL_MIB).0 {
        AlertClass::Warning
    } else {
        AlertClass::Critical
    }
}

/// The display text and severity of `stats`, a delta between two snapshots.
pub fn format_io_stats(stats: IOStats) -> (r: FormattedIOStats)
    ensures
        r.text@ == io_text(stats),
        r.class == alert_class(stats),
{
    proof {
        reveal_strlit(" read ");
        reveal_strlit(" write");
    }
    let mut text = format_value(stats.read);
    text.append(" read ");
    let written = format_value(stats.written);
    text.append(written.as_str());
    text.append(" write");
    assert(text@ =~= io_text(stats));
    FormattedIOStats { text, class: classify(&stats) }
}

} // verus!

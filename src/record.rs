use vstd::prelude::*;

use crate::units::{IOStats, SectorCount};

verus! {

/// Index of the cumulative sectors-read field of a device's statistics record.
pub const SECTORS_READ_FIELD: usize = 2;

/// Index of the cumulative sectors-written field of a device's statistics record.
pub const SECTORS_WRITTEN_FIELD: usize = 6;

/// Why a statistics record, or a set of them, gave no sector totals.
#[derive(Clone, Copy, Debug, PartialEq, Eq, Structural)]
pub enum StatError {
    /// The record has no field at this index.
    MissingField(usize),
    /// The field at this index is not a decimal number that fits in 64 bits.
    InvalidNumber(usize),
    /// The sum over all devices does not fit in a 64-bit counter.
    TotalOverflow,
}

/// ASCII whitespace: space, tab, line feed, vertical tab, form feed, carriage return.
pub open spec fn is_space(b: u8) -> bool {
    b == 32 || (9 <= b && b <= 13)
}

/// The maximal runs of non-whitespace bytes of `s`, in order.
pub open spec fn fields(s: Seq<u8>) -> Seq<Seq<u8>>
    decreases s.len(),
{
    if s.len() == 0 {
        seq![]
    } else {
        let prev = fields(s.drop_last());
        let b = s.last();
        if is_space(b) {
            prev
        } else if s.len() >= 2 && !is_space(s[s.len() - 2]) {
            prev.update(prev.len() - 1, prev.last().push(b))
        } else {
            prev.push(seq![b])
        }
    }
}

/// An ASCII decimal digit.
pub open spec fn is_digit(b: u8) -> bool {
    48 <= b && b <= 57
}

/// The number that the decimal digits `s` stand for.
pub open spec fn digits_value(s: Seq<u8>) -> nat
    decreases s.len(),
{
    if s.len() == 0 {
        0
    } else {
        digits_value(s.drop_last()) * 10 + (s.last() - 48) as nat
    }
}

/// `s` without one leading `+`.
pub open spec fn unsigned_digits(s: Seq<u8>) -> Seq<u8> {
    if s.len() > 0 && s[0] == 43 {
        s.drop_first()
    } else {
        s
    }
}

/// The unsigned 64-bit integer written in `s`: an optional `+` and then one
/// or more decimal digits, of a value that fits in 64 bits.
pub open spec fn decimal_u64(s: Seq<u8>) -> Option<u64> {
    let d = unsigned_digits(s);
    if d.len() > 0 && (forall|i: int| 0 <= i < d.len() ==> is_digit(#[trigger] d[i]))
        && digits_value(d) <= u64::MAX {
        Some(digits_value(d) as u64)
    } else {
        None
    }
}

/// The sector totals that one device's statistics record gives: fields
/// `SECTORS_READ_FIELD` and `SECTORS_WRITTEN_FIELD`, checked in that order.
pub open spec fn stat_record(s: Seq<u8>) -> Result<IOStats, StatError> {
    let f = fields(s);
    if f.len() <= SECTORS_READ_FIELD {
        Err(StatError::MissingField(SECTORS_READ_FIELD))
    } else if decimal_u64(f[SECTORS_READ_FIELD as int]) is None {
        Err(StatError::InvalidNumber(SECTORS_READ_FIELD))
    } else if f.len() <= SECTORS_WRITTEN_FIELD {
        Err(StatError::MissingField(SECTORS_WRITTEN_FIELD))
    } else if decimal_u64(f[SECTORS_WRITTEN_FIELD as int]) is None {
        Err(StatError::InvalidNumber(SECTORS_WRITTEN_FIELD))
    } else {
        Ok(
            IOStats {
                read: SectorCount(decimal_u64(f[SECTORS_READ_FIELD as int])->0),
                written: SectorCount(decimal_u64(f[SECTORS_WRITTEN_FIELD as int])->0),
            },
        )
    }
}

/// Splits `record` into its whitespace-separated fields.
pub fn split_fields(record: &[u8]) -> (r: Vec<Vec<u8>>)
    ensures
        r@.len() == fields(record@).len(),
        forall|j: int| 0 <= j < r@.len() ==> (#[trigger] r@[j])@ == fields(record@)[j],
{
    let mut done: Vec<Vec<u8>> = Vec::new();
    let mut cur: Vec<u8> = Vec::new();
    let mut i: usize = 0;
    while i < record.len()
        invariant
            i <= record@.len(),
            cur@.len() > 0 <==> (i > 0 && !is_space(record@[i - 1])),
            cur@.len() == 0 ==> fields(record@.take(i as int)).len() == done@.len(),
            cur@.len() > 0 ==> fields(record@.take(i as int)).len() == done@.len() + 1
                && fields(record@.take(i as int)).last() == cur@,
            forall|j: int|
                0 <= j < done@.len() ==> (#[trigger] done@[j])@ == fields(
                    record@.take(i as int),
                )[j],
        decreases record@.len() - i,
    {
        let b = record[i];
        assert(record@.take(i + 1).drop_last() =~= record@.take(i as int));
        if b == 32 || (9 <= b && b <= 13) {
            if cur.len() > 0 {
                done.push(cur);
                cur = Vec::new();
            }
        } else {
            cur.push(b);
        }
        i = i + 1;
    }
    assert(record@.take(i as int) =~= record@);
    if cur.len() > 0 {
        done.push(cur);
    }
    done
}

proof fn lemma_digits_prefix_le(d: Seq<u8>, j: int)
    requires
        0 <= j <= d.len(),
    ensures
        digits_value(d.take(j)) <= digits_value(d),
    decreases d.len(),
{
    if j < d.len() {
        assert(d.drop_last().take(j) =~= d.take(j));
        lemma_digits_prefix_le(d.drop_last(), j);
    } else {
        assert(d.take(j) =~= d);
    }
}

/// Parses an unsigned 64-bit decimal integer, as `str::parse::<u64>` does.
pub fn parse_decimal_u64(s: &[u8]) -> (r: Option<u64>)
    ensures
        r == decimal_u64(s@),
{
    let start: usize = if s.len() > 0 && s[0] == 43 {
        1
    } else {
        0
    };
    let ghost d = unsigned_digits(s@);
    assert(d =~= s@.subrange(start as int, s@.len() as int));
    if start == s.len() {
        return None;
    }
    let mut acc: u64 = 0;
    let mut i: usize = start;
    while i < s.len()
        invariant
            start <= i <= s@.len(),
            d == s@.subrange(start as int, s@.len() as int),
            d == unsigned_digits(s@),
            acc == digits_value(d.take(i - start)),
            forall|k: int| 0 <= k < i - start ==> is_digit(#[trigger] d[k]),
        decreases s@.len() - i,
    {
        let b = s[i];
        assert(d[i - start] == b);
        if !(48 <= b && b <= 57) {
            assert(!is_digit(d[i - start]));
            return None;
        }
        let digit: u64 = (b - 48) as u64;
        assert(d.take(i - start + 1).drop_last() =~= d.take(i - start));
        assert(digits_value(d.take(i - start + 1)) == acc * 10 + digit);
        if acc > (u64::MAX - digit) / 10 {
            proof {
                assert(acc * 10 + digit > u64::MAX) by (nonlinear_arith)
                    requires
                        acc > (u64::MAX - digit) / 10,
                        digit <= 9,
                ;
                if forall|k: int| 0 <= k < d.len() ==> is_digit(#[trigger] d[k]) {
                    lemma_digits_prefix_le(d, i - start + 1);
                }
            }
            return None;
        }
        acc = acc * 10 + digit;
        i = i + 1;
    }
    assert(d.take(i - start) =~= d);
    Some(acc)
}

/// Reads the sector totals out of one device's statistics record.
pub fn parse_stat_record(record: &[u8]) -> (r: Result<IOStats, StatError>)
    ensures
        r == stat_record(record@),
{
    let f = split_fields(record);
    if f.len() <= SECTORS_READ_FIELD {
        return Err(StatError::MissingField(SECTORS_READ_FIELD));
    }
    let read = match parse_decimal_u64(f[SECTORS_READ_FIELD].as_slice()) {
        Some(v) => v,
        None => {
            return Err(StatError::InvalidNumber(SECTORS_READ_FIELD));
        },
    };
    if f.len() <= SECTORS_WRITTEN_FIELD {
        return Err(StatError::MissingField(SECTORS_WRITTEN_FIELD));
    }
    let written = match parse_decimal_u64(f[SECTORS_WRITTEN_FIELD].as_slice()) {
        Some(v) => v,
        None => {
            return Err(StatError::InvalidNumber(SECTORS_WRITTEN_FIELD));
        },
    };
    Ok(IOStats { read: SectorCount(read), written: SectorCount(written) })
}

} // verus!

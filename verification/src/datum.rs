//! The datums that the endpoint writes itself: the null datum and the
//! row handle of a primary-key column, in the compact row format. A datum is
//! one flag byte followed by its value; integers are written as
//! little-endian base-128 numbers, signed ones folded onto the unsigned
//! numbers first.

use vstd::prelude::*;

verus! {

/// The flag byte of the null datum.
pub const NIL_FLAG: u8 = 0;

/// The flag byte of a signed number.
pub const VAR_INT_FLAG: u8 = 8;

/// The flag byte of an unsigned number.
pub const VAR_UINT_FLAG: u8 = 9;

/// The column may not hold null.
pub const NOT_NULL_FLAG: u64 = 1;

/// The column holds unsigned numbers.
pub const UNSIGNED_FLAG: u64 = 32;

/// A value of a column, of the kinds that the endpoint writes itself.
#[derive(Clone, Copy, Debug, PartialEq, Eq, Structural)]
pub enum Datum {
    Null,
    I64(i64),
    U64(u64),
}

/// What the endpoint reads of the description of a column.
#[derive(Debug)]
pub struct ColumnInfo {
    pub column_id: i64,
    /// The column is the primary key and holds the row handle.
    pub pk_handle: bool,
    pub flag: i32,
    pub default_val: Option<Vec<u8>>,
}

/// Whether the flags of a column say that it holds unsigned numbers.
pub open spec fn spec_has_unsigned_flag(flag: u64) -> bool {
    flag & UNSIGNED_FLAG != 0
}

/// Whether the flags of a column say that it may not hold null.
pub open spec fn spec_has_not_null_flag(flag: u64) -> bool {
    flag & NOT_NULL_FLAG != 0
}

/// Whether the flags of a column say that it holds unsigned numbers.
pub fn has_unsigned_flag(flag: u64) -> (res: bool)
    ensures
        res == spec_has_unsigned_flag(flag),
{
    flag & UNSIGNED_FLAG != 0
}

/// Whether the flags of a column say that it may not hold null.
pub fn has_not_null_flag(flag: u64) -> (res: bool)
    ensures
        res == spec_has_not_null_flag(flag),
{
    flag & NOT_NULL_FLAG != 0
}

/// The datum of the row handle `h` in a primary-key column with the flags
/// `flag`: the same 64 bits read as unsigned where the column is unsigned,
/// and the signed number otherwise.
pub open spec fn spec_get_pk(flag: i32, h: i64) -> Datum {
    if spec_has_unsigned_flag(flag as u64) {
        Datum::U64(h as u64)
    } else {
        Datum::I64(h)
    }
}

/// The datum of the row handle `h` in the primary-key column `col`.
pub fn get_pk(col: &ColumnInfo, h: i64) -> (datum: Datum)
    ensures
        datum == spec_get_pk(col.flag, h),
{
    if has_unsigned_flag(col.flag as u64) {
        Datum::U64(h as u64)
    } else {
        Datum::I64(h)
    }
}

/// `v` in base 128, least significant digit first, every byte but the last
/// with its top bit set.
pub open spec fn spec_var_u64(v: nat) -> Seq<u8>
    decreases v,
{
    if v < 128 {
        seq![v as u8]
    } else {
        seq![(v % 128 + 128) as u8] + spec_var_u64(v / 128)
    }
}

/// The unsigned number that stands for the signed `v`: 0, -1, 1, -2, ... are
/// 0, 1, 2, 3, ...
pub open spec fn spec_zigzag(v: i64) -> nat {
    if v >= 0 {
        (2 * v) as nat
    } else {
        (-2 * v - 1) as nat
    }
}

/// The bytes of a datum: its flag, then its value.
pub open spec fn spec_datum_bytes(datum: Datum) -> Seq<u8> {
    match datum {
        Datum::Null => seq![NIL_FLAG],
        Datum::I64(v) => seq![VAR_INT_FLAG] + spec_var_u64(spec_zigzag(v)),
        Datum::U64(v) => seq![VAR_UINT_FLAG] + spec_var_u64(v as nat),
    }
}

/// Appends `v` to `out` in base 128.
pub fn encode_var_u64(out: &mut Vec<u8>, v: u64)
    ensures
        final(out)@ == old(out)@ + spec_var_u64(v as nat),
{
    let mut rest: u64 = v;
    let ghost written: Seq<u8> = Seq::empty();
    while rest >= 128
        invariant
            out@ == old(out)@ + written,
            written + spec_var_u64(rest as nat) == spec_var_u64(v as nat),
        decreases rest,
    {
        let digit: u8 = ((rest % 128) as u8) + 128;
        out.push(digit);
        proof {
            let next = written.push(digit);
            written = next;
        }
        rest = rest / 128;
    }
    out.push(rest as u8);
}

fn zigzag(v: i64) -> (folded: u64)
    ensures
        folded == spec_zigzag(v),
{
    if v >= 0 {
        (v as u64) * 2
    } else {
        let below: i64 = -(v + 1);
        (below as u64) * 2 + 1
    }
}

/// Appends the bytes of `datum` to `out`.
pub fn encode_datum(out: &mut Vec<u8>, datum: Datum)
    ensures
        final(out)@ == old(out)@ + spec_datum_bytes(datum),
{
    match datum {
        Datum::Null => {
            out.push(NIL_FLAG);
        },
        Datum::I64(v) => {
            out.push(VAR_INT_FLAG);
            encode_var_u64(out, zigzag(v));
        },
        Datum::U64(v) => {
            out.push(VAR_UINT_FLAG);
            encode_var_u64(out, v);
        },
    }
}

} // verus!

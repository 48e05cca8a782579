//! Rows as an executor hands them over, and the filling in of the columns
//! that a row does not hold.

use vstd::prelude::*;
use vstd::string::*;
use crate::datum::{encode_datum, get_pk, has_not_null_flag, spec_datum_bytes, spec_get_pk};
use crate::datum::{spec_has_not_null_flag, ColumnInfo, Datum};
use crate::response::{Error, ErrorView};
use crate::text::{decimal, push_signed_decimal};

verus! {

/// Where the value of one column lies in the bytes of a row.
#[derive(Clone, Copy, Debug, PartialEq, Eq, Structural)]
pub struct ColumnSlot {
    pub col_id: i64,
    pub offset: usize,
    pub length: usize,
}

/// The encoded columns of a row: the bytes, and for each column held the
/// slot of its value. A column is held where the first slot of its id lies
/// within the bytes.
#[derive(Debug)]
pub struct RowColsDict {
    pub value: Vec<u8>,
    pub cols: Vec<ColumnSlot>,
}

/// A row as an executor yields it: its handle and its encoded columns.
#[derive(Debug)]
pub struct Row {
    pub handle: i64,
    pub data: RowColsDict,
}

/// The index of the first slot of `col_id`, if there is one.
pub open spec fn spec_first_slot(cols: Seq<ColumnSlot>, col_id: i64) -> Option<int>
    decreases cols.len(),
{
    if cols.len() == 0 {
        None
    } else {
        match spec_first_slot(cols.drop_last(), col_id) {
            Some(i) => Some(i),
            None => if cols.last().col_id == col_id {
                Some(cols.len() - 1)
            } else {
                None
            },
        }
    }
}

proof fn lemma_first_slot(cols: Seq<ColumnSlot>, col_id: i64)
    ensures
        match spec_first_slot(cols, col_id) {
            Some(i) => 0 <= i < cols.len() && cols[i].col_id == col_id && forall|j: int|
                0 <= j < i ==> cols[j].col_id != col_id,
            None => forall|j: int| 0 <= j < cols.len() ==> cols[j].col_id != col_id,
        },
    decreases cols.len(),
{
    if cols.len() > 0 {
        let head = cols.drop_last();
        lemma_first_slot(head, col_id);
        assert forall|j: int| 0 <= j < head.len() implies head[j] == cols[j] by {}
        match spec_first_slot(head, col_id) {
            Some(i) => {
                assert(cols[i] == head[i]);
            },
            None => {
                assert forall|j: int| 0 <= j < cols.len() - 1 implies cols[j].col_id
                    != col_id by {
                    assert(head[j].col_id != col_id);
                }
            },
        }
    }
}

impl RowColsDict {
    /// The value of the column `col_id`, if the row holds it.
    pub open spec fn spec_get(&self, col_id: i64) -> Option<Seq<u8>> {
        match spec_first_slot(self.cols@, col_id) {
            Some(i) => {
                let slot = self.cols@[i];
                if slot.offset + slot.length <= self.value@.len() {
                    Some(self.value@.subrange(slot.offset as int, slot.offset + slot.length))
                } else {
                    None
                }
            },
            None => None,
        }
    }

    /// A row without columns.
    pub fn new() -> (dict: RowColsDict)
        ensures
            dict.value@.len() == 0,
            dict.cols@.len() == 0,
    {
        RowColsDict { value: Vec::new(), cols: Vec::new() }
    }

    /// Adds the column `col_id` with the encoded value `value` at the end of
    /// the row.
    pub fn append(&mut self, col_id: i64, value: &Vec<u8>)
        ensures
            final(self).value@ == old(self).value@ + value@,
            final(self).cols@ == old(self).cols@.push(
                ColumnSlot {
                    col_id,
                    offset: old(self).value@.len() as usize,
                    length: value@.len() as usize,
                },
            ),
    {
        let offset = self.value.len();
        crate::keys::extend_bytes(&mut self.value, value);
        self.cols.push(ColumnSlot { col_id, offset, length: value.len() });
    }

    /// Appends the value of the column `col_id` to `out` if the row holds
    /// it, and tells whether it does.
    pub fn copy_column(&self, col_id: i64, out: &mut Vec<u8>) -> (found: bool)
        ensures
            found == (self.spec_get(col_id) is Some),
            found ==> final(out)@ == old(out)@ + self.spec_get(col_id)->0,
            !found ==> final(out)@ == old(out)@,
    {
        let mut i: usize = 0;
        while i < self.cols.len()
            invariant
                i <= self.cols.len(),
                out@ == old(out)@,
                forall|j: int| 0 <= j < i ==> self.cols@[j].col_id != col_id,
            decreases self.cols.len() - i,
        {
            let slot = self.cols[i];
            if slot.col_id == col_id {
                proof {
                    lemma_first_slot(self.cols@, col_id);
                }
                if slot.length > self.value.len() || slot.offset > self.value.len() - slot.length {
                    return false;
                }
                let end = slot.offset + slot.length;
                let mut k: usize = slot.offset;
                while k < end
                    invariant
                        slot.offset <= k <= end,
                        end <= self.value.len(),
                        out@ == old(out)@ + self.value@.subrange(slot.offset as int, k as int),
                    decreases end - k,
                {
                    out.push(self.value[k]);
                    k += 1;
                }
                return true;
            }
            i += 1;
        }
        proof {
            lemma_first_slot(self.cols@, col_id);
        }
        false
    }
}

/// The message for a missing column, up to the id of the column.
pub const MISSING_COLUMN_MSG: &'static str = "column ";

/// The message for a missing column, between the id and the handle.
pub const MISSING_OF_MSG: &'static str = " of ";

/// The message for a missing column, after the handle.
pub const MISSING_TAIL_MSG: &'static str = " is missing";

/// The message of the error for a column that may not be null and is
/// neither held by the row nor has a default.
pub open spec fn spec_missing_msg(col_id: i64, handle: i64) -> Seq<char> {
    MISSING_COLUMN_MSG@ + decimal(col_id as int) + MISSING_OF_MSG@ + decimal(handle as int)
        + MISSING_TAIL_MSG@
}

/// The bytes that `col` contributes for `row`: the value that the row
/// holds; failing that the row handle, if the column is the primary key;
/// failing that the default of the column; failing that, for a column that
/// may be null, the null datum. A column that may not be null and has none
/// of these is an error.
pub open spec fn spec_column_piece(row: Row, col: ColumnInfo) -> Result<Seq<u8>, Seq<char>> {
    match row.data.spec_get(col.column_id) {
        Some(value) => Ok(value),
        None => if col.pk_handle {
            Ok(spec_datum_bytes(spec_get_pk(col.flag, row.handle)))
        } else if col.default_val is Some {
            Ok(col.default_val->0@)
        } else if spec_has_not_null_flag(col.flag as u64) {
            Err(spec_missing_msg(col.column_id, row.handle))
        } else {
            Ok(spec_datum_bytes(Datum::Null))
        },
    }
}

/// The bytes of `row` for the columns at `output_offsets`, in that order, or
/// the message of the first column that is in error.
pub open spec fn spec_inflate_cols(
    row: Row,
    cols: Seq<ColumnInfo>,
    output_offsets: Seq<u32>,
) -> Result<Seq<u8>, Seq<char>>
    decreases output_offsets.len(),
{
    if output_offsets.len() == 0 {
        Ok(Seq::empty())
    } else {
        match spec_inflate_cols(row, cols, output_offsets.drop_last()) {
            Err(msg) => Err(msg),
            Ok(bytes) => match spec_column_piece(row, cols[output_offsets.last() as int]) {
                Ok(piece) => Ok(bytes + piece),
                Err(msg) => Err(msg),
            },
        }
    }
}

/// All of `pieces`, one after the other.
pub open spec fn concat(pieces: Seq<Seq<u8>>) -> Seq<u8>
    decreases pieces.len(),
{
    if pieces.len() == 0 {
        Seq::empty()
    } else {
        concat(pieces.drop_last()) + pieces.last()
    }
}

/// What each of the columns at `output_offsets` contributes for `row`.
pub open spec fn spec_inflate_pieces(
    row: Row,
    cols: Seq<ColumnInfo>,
    output_offsets: Seq<u32>,
) -> Seq<Seq<u8>> {
    Seq::new(
        output_offsets.len(),
        |i: int|
            match spec_column_piece(row, cols[output_offsets[i] as int]) {
                Ok(piece) => piece,
                Err(_) => Seq::empty(),
            },
    )
}

/// Where a row can be filled in, the result holds exactly one piece for each
/// output offset, in the order of the offsets.
pub proof fn lemma_inflate_one_piece_per_offset(
    row: Row,
    cols: Seq<ColumnInfo>,
    output_offsets: Seq<u32>,
)
    requires
        spec_inflate_cols(row, cols, output_offsets) is Ok,
    ensures
        spec_inflate_pieces(row, cols, output_offsets).len() == output_offsets.len(),
        forall|i: int|
            0 <= i < output_offsets.len() ==> spec_column_piece(
                row,
                cols[output_offsets[i] as int],
            ) == Ok::<Seq<u8>, Seq<char>>(spec_inflate_pieces(row, cols, output_offsets)[i]),
        spec_inflate_cols(row, cols, output_offsets) == Ok::<Seq<u8>, Seq<char>>(
            concat(spec_inflate_pieces(row, cols, output_offsets)),
        ),
    decreases output_offsets.len(),
{
    if output_offsets.len() > 0 {
        let head = output_offsets.drop_last();
        lemma_inflate_one_piece_per_offset(row, cols, head);
        let pieces = spec_inflate_pieces(row, cols, output_offsets);
        assert(pieces.drop_last() =~= spec_inflate_pieces(row, cols, head));
        assert forall|i: int| 0 <= i < output_offsets.len() implies spec_column_piece(
            row,
            cols[output_offsets[i] as int],
        ) == Ok::<Seq<u8>, Seq<char>>(pieces[i]) by {
            if i < head.len() {
                assert(head[i] == output_offsets[i]);
                assert(spec_inflate_pieces(row, cols, head)[i] == pieces[i]);
            }
        }
    } else {
        assert(concat(spec_inflate_pieces(row, cols, output_offsets)) =~= Seq::<u8>::empty());
    }
}

/// Appends to `out` what `col` contributes for `row`.
fn inflate_col(row: &Row, col: &ColumnInfo, out: &mut Vec<u8>) -> (res: Result<(), Error>)
    ensures
        res is Ok <==> spec_column_piece(*row, *col) is Ok,
        res is Ok ==> final(out)@ == old(out)@ + spec_column_piece(*row, *col)->Ok_0,
        res matches Err(e) ==> e@ == ErrorView::Other(spec_column_piece(*row, *col)->Err_0),
{
    if row.data.copy_column(col.column_id, out) {
        return Ok(());
    }
    if col.pk_handle {
        encode_datum(out, get_pk(col, row.handle));
        return Ok(());
    }
    match &col.default_val {
        Some(default_val) => {
            crate::keys::extend_bytes(out, default_val);
            return Ok(());
        },
        None => {},
    }
    if has_not_null_flag(col.flag as u64) {
        let mut msg = MISSING_COLUMN_MSG.to_owned();
        push_signed_decimal(&mut msg, col.column_id);
        msg.append(MISSING_OF_MSG);
        push_signed_decimal(&mut msg, row.handle);
        msg.append(MISSING_TAIL_MSG);
        return Err(Error::Other(msg));
    }
    encode_datum(out, Datum::Null);
    Ok(())
}

/// The columns at `output_offsets` are among `cols`.
pub open spec fn spec_offsets_valid(cols: Seq<ColumnInfo>, output_offsets: Seq<u32>) -> bool {
    forall|i: int| 0 <= i < output_offsets.len() ==> output_offsets[i] < cols.len()
}

/// Writes out `row` for the columns at `output_offsets`, filling in those
/// that the row does not hold.
pub fn inflate_cols(row: &Row, cols: &Vec<ColumnInfo>, output_offsets: &Vec<u32>) -> (res: Result<
    Vec<u8>,
    Error,
>)
    requires
        spec_offsets_valid(cols@, output_offsets@),
    ensures
        res matches Ok(values) ==> spec_inflate_cols(*row, cols@, output_offsets@) == Ok::<
            Seq<u8>,
            Seq<char>,
        >(values@),
        res matches Err(e) ==> (spec_inflate_cols(*row, cols@, output_offsets@) matches Err(msg)
            && e@ == ErrorView::Other(msg)),
{
    let mut values: Vec<u8> = Vec::new();
    let mut i: usize = 0;
    while i < output_offsets.len()
        invariant
            i <= output_offsets.len(),
            spec_offsets_valid(cols@, output_offsets@),
            spec_inflate_cols(*row, cols@, output_offsets@.subrange(0, i as int)) == Ok::<
                Seq<u8>,
                Seq<char>,
            >(values@),
        decreases output_offsets.len() - i,
    {
        let offset = output_offsets[i] as usize;
        let col = &cols[offset];
        proof {
            let upto = output_offsets@.subrange(0, i + 1);
            assert(upto.drop_last() =~= output_offsets@.subrange(0, i as int));
        }
        match inflate_col(row, col, &mut values) {
            Ok(()) => {},
            Err(e) => {
                proof {
                    lemma_inflate_error_stays(*row, cols@, output_offsets@, i + 1);
                }
                return Err(e);
            },
        }
        i += 1;
    }
    assert(output_offsets@.subrange(0, i as int) =~= output_offsets@);
    Ok(values)
}

proof fn lemma_inflate_error_stays(
    row: Row,
    cols: Seq<ColumnInfo>,
    output_offsets: Seq<u32>,
    k: int,
)
    requires
        0 <= k <= output_offsets.len(),
        spec_inflate_cols(row, cols, output_offsets.subrange(0, k)) is Err,
    ensures
        spec_inflate_cols(row, cols, output_offsets) == spec_inflate_cols(
            row,
            cols,
            output_offsets.subrange(0, k),
        ),
    decreases output_offsets.len() - k,
{
    if k == output_offsets.len() {
        assert(output_offsets.subrange(0, k) =~= output_offsets);
    } else {
        let upto = output_offsets.subrange(0, k + 1);
        assert(upto.drop_last() =~= output_offsets.subrange(0, k));
        lemma_inflate_error_stays(row, cols, output_offsets, k + 1);
    }
}

} // verus!

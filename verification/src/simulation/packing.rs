//! How a row of 25 cells is packed into one `u64`, two bits per cell, and
//! the bit-level facts that the board's operations rest on.

use vstd::prelude::*;

verus! {

/// The code that the cell in column `x` holds in a row word: bits `2 * x`
/// and `2 * x + 1`.
pub open spec fn code_in_row(row: u64, x: int) -> u8 {
    ((row >> ((2 * x) as u64)) & 3) as u8
}

/// The 14 bits of a row word that hold no cell.
pub open spec fn spare_bits(row: u64) -> u64 {
    row >> 50
}

/// The codes of the 25 cells of a row word, column 0 first.
pub open spec fn row_codes(row: u64) -> Seq<u8> {
    Seq::new(25, |x: int| code_in_row(row, x))
}

/// A two-bit field never holds more than 3.
pub broadcast proof fn lemma_code_bound(row: u64, shift: u64)
    ensures
        #[trigger] ((row >> shift) & 3) <= 3,
{
    assert(((row >> shift) & 3) <= 3) by (bit_vector);
}

/// Clearing the field at `shift` by xor with its own content empties that
/// field and keeps the field at `other` and the spare bits.
pub proof fn lemma_clear_field(row: u64, shift: u64, other: u64)
    requires
        shift < 50,
        shift % 2 == 0,
        other < 50,
        other % 2 == 0,
    ensures
        ({
            let cleared = row ^ (((row >> shift) & 3) << shift);
            &&& (cleared >> shift) & 3 == 0
            &&& other != shift ==> (cleared >> other) & 3 == (row >> other) & 3
            &&& cleared >> 50 == row >> 50
        }),
{
    assert({
        let cleared = row ^ (((row >> shift) & 3) << shift);
        &&& (cleared >> shift) & 3 == 0
        &&& (other != shift ==> (cleared >> other) & 3 == (row >> other) & 3)
        &&& cleared >> 50 == row >> 50
    }) by (bit_vector)
        requires
            shift < 50,
            shift % 2 == 0,
            other < 50,
            other % 2 == 0,
    ;
}

/// Or-ing a code into the field at `shift` joins it with what the field
/// held and keeps the field at `other` and the spare bits.
pub proof fn lemma_or_field(row: u64, shift: u64, code: u64, other: u64)
    requires
        shift < 50,
        shift % 2 == 0,
        other < 50,
        other % 2 == 0,
        code <= 3,
    ensures
        ({
            let joined = row | (code << shift);
            &&& (joined >> shift) & 3 == ((row >> shift) & 3) | code
            &&& other != shift ==> (joined >> other) & 3 == (row >> other) & 3
            &&& joined >> 50 == row >> 50
        }),
{
    assert({
        let joined = row | (code << shift);
        &&& (joined >> shift) & 3 == ((row >> shift) & 3) | code
        &&& (other != shift ==> (joined >> other) & 3 == (row >> other) & 3)
        &&& joined >> 50 == row >> 50
    }) by (bit_vector)
        requires
            shift < 50,
            shift % 2 == 0,
            other < 50,
            other % 2 == 0,
            code <= 3,
    ;
}

/// The shift that brings the field of column `x` to the low end of a word.
pub open spec fn field_shift(x: int) -> u64 {
    (2 * x) as u64
}

/// Xor-ing a cell's own code into its field makes that cell dead and keeps
/// every other cell of the row and the spare bits.
pub proof fn lemma_cleared_row(row: u64, x: int)
    requires
        0 <= x < 25,
    ensures
        ({
            let cleared = row ^ ((code_in_row(row, x) as u64) << field_shift(x));
            &&& row_codes(cleared) == row_codes(row).update(x, 0u8)
            &&& spare_bits(cleared) == spare_bits(row)
        }),
{
    broadcast use lemma_code_bound;

    let shift = field_shift(x);
    let cleared = row ^ ((code_in_row(row, x) as u64) << shift);
    assert(code_in_row(row, x) as u64 == (row >> shift) & 3);
    assert forall|i: int| 0 <= i < 25 implies #[trigger] row_codes(cleared)[i] == row_codes(
        row,
    ).update(x, 0u8)[i] by {
        lemma_clear_field(row, shift, field_shift(i));
    }
    lemma_clear_field(row, shift, shift);
    assert(row_codes(cleared) =~= row_codes(row).update(x, 0u8));
}

/// The code that a cell holds once `code` was or-ed into it.
pub open spec fn joined_code(held: u8, code: u8) -> u8 {
    held | code
}

/// What or-ing leaves in a two-bit field: a dead cell takes the code, and
/// the Dandelifeon stays what it is.
pub proof fn lemma_joined_code(held: u8, code: u8)
    requires
        held <= 3,
        code <= 3,
    ensures
        joined_code(held, code) <= 3,
        held == 0 ==> joined_code(held, code) == code,
        held == 3 ==> joined_code(held, code) == 3,
        code == 3 ==> joined_code(held, code) == 3,
        code == 0 ==> joined_code(held, code) == held,
{
    assert(held <= 3 && code <= 3 ==> (held | code) <= 3) by (bit_vector);
    assert(held == 0 ==> (held | code) == code) by (bit_vector);
    assert(held == 3 && code <= 3 ==> (held | code) == 3) by (bit_vector);
    assert(code == 3 && held <= 3 ==> (held | code) == 3) by (bit_vector);
    assert(code == 0 ==> (held | code) == held) by (bit_vector);
}

/// A zero word holds 25 dead cells and no spare bit.
pub proof fn lemma_zero_row()
    ensures
        row_codes(0) == Seq::new(25, |x: int| 0u8),
        spare_bits(0) == 0,
{
    assert forall|x: int| 0 <= x < 25 implies #[trigger] row_codes(0)[x] == 0u8 by {
        let shift = field_shift(x);
        assert((0u64 >> shift) & 3 == 0) by (bit_vector);
    }
    assert(row_codes(0) =~= Seq::new(25, |x: int| 0u8));
    assert(0u64 >> 50 == 0) by (bit_vector);
}

/// Or-ing a code into a cell's field joins it with the code the cell held
/// and keeps every other cell of the row and the spare bits.
pub proof fn lemma_joined_row(row: u64, x: int, code: u8)
    requires
        0 <= x < 25,
        code <= 3,
    ensures
        ({
            let joined = row | ((code as u64) << field_shift(x));
            &&& row_codes(joined) == row_codes(row).update(x, joined_code(code_in_row(row, x), code))
            &&& spare_bits(joined) == spare_bits(row)
        }),
{
    broadcast use lemma_code_bound;

    let shift = field_shift(x);
    let wide = code as u64;
    let joined = row | (wide << shift);
    let held = (row >> shift) & 3;
    assert(((held | wide) as u8) == (held as u8) | code) by (bit_vector)
        requires
            held <= 3,
            wide == code as u64,
            code <= 3,
    ;
    assert forall|i: int| 0 <= i < 25 implies #[trigger] row_codes(joined)[i] == row_codes(
        row,
    ).update(x, joined_code(code_in_row(row, x), code))[i] by {
        lemma_or_field(row, shift, wide, field_shift(i));
    }
    lemma_or_field(row, shift, wide, shift);
    assert(row_codes(joined) =~= row_codes(row).update(
        x,
        joined_code(code_in_row(row, x), code),
    ));
}

/// Two row words that hold the same 25 codes and the same spare bits are
/// the same word.
pub proof fn lemma_same_row(a: u64, b: u64)
    requires
        row_codes(a) == row_codes(b),
        spare_bits(a) == spare_bits(b),
    ensures
        a == b,
{
    broadcast use lemma_code_bound;

    assert forall|x: int| 0 <= x < 25 implies (a >> field_shift(x)) & 3 == (b >> field_shift(x))
        & 3 by {
        lemma_code_bound(a, field_shift(x));
        lemma_code_bound(b, field_shift(x));
        assert(row_codes(a)[x] == code_in_row(a, x));
        assert(row_codes(b)[x] == code_in_row(b, x));
    }
    assert((a >> 0) & 3 == (b >> 0) & 3) by {
        assert(field_shift(0) == 0);
    }
    assert((a >> 2) & 3 == (b >> 2) & 3) by {
        assert(field_shift(1) == 2);
    }
    assert((a >> 4) & 3 == (b >> 4) & 3) by {
        assert(field_shift(2) == 4);
    }
    assert((a >> 6) & 3 == (b >> 6) & 3) by {
        assert(field_shift(3) == 6);
    }
    assert((a >> 8) & 3 == (b >> 8) & 3) by {
        assert(field_shift(4) == 8);
    }
    assert((a >> 10) & 3 == (b >> 10) & 3) by {
        assert(field_shift(5) == 10);
    }
    assert((a >> 12) & 3 == (b >> 12) & 3) by {
        assert(field_shift(6) == 12);
    }
    assert((a >> 14) & 3 == (b >> 14) & 3) by {
        assert(field_shift(7) == 14);
    }
    assert((a >> 16) & 3 == (b >> 16) & 3) by {
        assert(field_shift(8) == 16);
    }
    assert((a >> 18) & 3 == (b >> 18) & 3) by {
        assert(field_shift(9) == 18);
    }
    assert((a >> 20) & 3 == (b >> 20) & 3) by {
        assert(field_shift(10) == 20);
    }
    assert((a >> 22) & 3 == (b >> 22) & 3) by {
        assert(field_shift(11) == 22);
    }
    assert((a >> 24) & 3 == (b >> 24) & 3) by {
        assert(field_shift(12) == 24);
    }
    assert((a >> 26) & 3 == (b >> 26) & 3) by {
        assert(field_shift(13) == 26);
    }
    assert((a >> 28) & 3 == (b >> 28) & 3) by {
        assert(field_shift(14) == 28);
    }
    assert((a >> 30) & 3 == (b >> 30) & 3) by {
        assert(field_shift(15) == 30);
    }
    assert((a >> 32) & 3 == (b >> 32) & 3) by {
        assert(field_shift(16) == 32);
    }
    assert((a >> 34) & 3 == (b >> 34) & 3) by {
        assert(field_shift(17) == 34);
    }
    assert((a >> 36) & 3 == (b >> 36) & 3) by {
        assert(field_shift(18) == 36);
    }
    assert((a >> 38) & 3 == (b >> 38) & 3) by {
        assert(field_shift(19) == 38);
    }
    assert((a >> 40) & 3 == (b >> 40) & 3) by {
        assert(field_shift(20) == 40);
    }
    assert((a >> 42) & 3 == (b >> 42) & 3) by {
        assert(field_shift(21) == 42);
    }
    assert((a >> 44) & 3 == (b >> 44) & 3) by {
        assert(field_shift(22) == 44);
    }
    assert((a >> 46) & 3 == (b >> 46) & 3) by {
        assert(field_shift(23) == 46);
    }
    assert((a >> 48) & 3 == (b >> 48) & 3) by {
        assert(field_shift(24) == 48);
    }
    assert(a == b) by (bit_vector)
        requires
            (a >> 0) & 3 == (b >> 0) & 3,
            (a >> 2) & 3 == (b >> 2) & 3,
            (a >> 4) & 3 == (b >> 4) & 3,
            (a >> 6) & 3 == (b >> 6) & 3,
            (a >> 8) & 3 == (b >> 8) & 3,
            (a >> 10) & 3 == (b >> 10) & 3,
            (a >> 12) & 3 == (b >> 12) & 3,
            (a >> 14) & 3 == (b >> 14) & 3,
            (a >> 16) & 3 == (b >> 16) & 3,
            (a >> 18) & 3 == (b >> 18) & 3,
            (a >> 20) & 3 == (b >> 20) & 3,
            (a >> 22) & 3 == (b >> 22) & 3,
            (a >> 24) & 3 == (b >> 24) & 3,
            (a >> 26) & 3 == (b >> 26) & 3,
            (a >> 28) & 3 == (b >> 28) & 3,
            (a >> 30) & 3 == (b >> 30) & 3,
            (a >> 32) & 3 == (b >> 32) & 3,
            (a >> 34) & 3 == (b >> 34) & 3,
            (a >> 36) & 3 == (b >> 36) & 3,
            (a >> 38) & 3 == (b >> 38) & 3,
            (a >> 40) & 3 == (b >> 40) & 3,
            (a >> 42) & 3 == (b >> 42) & 3,
            (a >> 44) & 3 == (b >> 44) & 3,
            (a >> 46) & 3 == (b >> 46) & 3,
            (a >> 48) & 3 == (b >> 48) & 3,
            a >> 50 == b >> 50,
    ;
}

} // verus!

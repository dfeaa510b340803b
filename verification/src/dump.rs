//! Memory-dump views of a byte sequence: one row per 16 input bytes,
//! with a zero-padded hexadecimal row offset, 16 byte slots (hexadecimal
//! or binary digits) grouped four by four, and an ASCII column.

use vstd::prelude::*;
use vstd::string::StringExecFns;
use crate::text::{numeral, spaces, push_char, push_numeral, push_spaces};

verus! {

/// The ASCII-column character for one present byte: the byte itself in
/// the printable range `0x20..=0x7e`, a dot otherwise.
pub open spec fn ascii_cell(b: u8) -> char {
    if 0x20 <= b && b <= 0x7e {
        b as char
    } else {
        '.'
    }
}

/// The 16 byte slots of the row starting at `row`, from slot `j` on:
/// each present byte as a `width`-digit numeral in base `base` plus one
/// space, each absent slot as the same number of spaces, and an extra
/// space after every fourth slot.
pub open spec fn dump_slots(bytes: Seq<u8>, row: int, j: int, base: nat, width: nat) -> Seq<char>
    decreases 16 - j,
{
    if j < 0 || j >= 16 {
        Seq::empty()
    } else {
        (if row + j < bytes.len() {
            numeral(bytes[row + j] as nat, base, width) + seq![' ']
        } else {
            spaces((width + 1) as nat)
        }) + (if j % 4 == 3 {
            seq![' ']
        } else {
            Seq::empty()
        }) + dump_slots(bytes, row, j + 1, base, width)
    }
}

/// The 16 ASCII-column cells of the row starting at `row`, from cell
/// `j` on: present bytes through `ascii_cell`, absent slots as spaces.
pub open spec fn dump_ascii(bytes: Seq<u8>, row: int, j: int) -> Seq<char>
    decreases 16 - j,
{
    if j < 0 || j >= 16 {
        Seq::empty()
    } else {
        (if row + j < bytes.len() {
            seq![ascii_cell(bytes[row + j])]
        } else {
            seq![' ']
        }) + dump_ascii(bytes, row, j + 1)
    }
}

/// One full dump row for the 16 bytes starting at offset `row`.
pub open spec fn dump_row(bytes: Seq<u8>, row: int, base: nat, width: nat) -> Seq<char> {
    numeral(row as nat, 16, 8) + "  "@ + dump_slots(bytes, row, 0, base, width) + " |"@
        + dump_ascii(bytes, row, 0) + "|\n"@
}

/// All dump rows from offset `row` to the end of the data.
pub open spec fn dump_rows(bytes: Seq<u8>, row: int, base: nat, width: nat) -> Seq<char>
    decreases bytes.len() + 16 - row,
{
    if row < 0 || row >= bytes.len() {
        Seq::empty()
    } else {
        dump_row(bytes, row, base, width) + dump_rows(bytes, row + 16, base, width)
    }
}

/// The whole hex dump: two hex digits per byte slot.
pub open spec fn hex_dump(bytes: Seq<u8>) -> Seq<char> {
    dump_rows(bytes, 0, 16, 2)
}

/// The whole binary dump: eight binary digits per byte slot.
pub open spec fn binary_dump(bytes: Seq<u8>) -> Seq<char> {
    dump_rows(bytes, 0, 2, 8)
}

/// Renders the dump rows of `binary` with the given digit base and slot
/// width, shared by the hex and binary dump entry points.
fn render_dump(binary: &[u8], base: usize, width: usize) -> (r: String)
    requires
        2 <= base <= 16,
        width <= 8,
    ensures
        r@ == dump_rows(binary@, 0, base as nat, width as nat),
{
    let mut out = String::new();
    let mut i: usize = 0;
    while i < binary.len()
        invariant
            2 <= base <= 16,
            width <= 8,
            i <= binary.len(),
            out@ + dump_rows(binary@, i as int, base as nat, width as nat) == dump_rows(
                binary@,
                0,
                base as nat,
                width as nat,
            ),
        decreases binary.len() - i,
    {
        let ghost row_start = out@;
        let ghost bv = binary@;
        let ghost bn = base as nat;
        let ghost wn = width as nat;
        push_numeral(&mut out, i, 16, 8);
        out.append("  ");
        let ghost slots_start = out@;
        let mut j: usize = 0;
        while j < 16
            invariant
                2 <= base <= 16,
                width <= 8,
                i < bv.len(),
                j <= 16,
                bv == binary@,
                bn == base as nat,
                wn == width as nat,
                out@ + dump_slots(bv, i as int, j as int, bn, wn) == slots_start + dump_slots(
                    bv,
                    i as int,
                    0,
                    bn,
                    wn,
                ),
            decreases 16 - j,
        {
            let ghost before = out@;
            if j < binary.len() - i {
                push_numeral(&mut out, binary[i + j] as usize, base, width);
                push_char(&mut out, ' ');
                assert(out@ =~= before + (numeral(bv[i + j] as nat, bn, wn) + seq![' ']));
            } else {
                push_spaces(&mut out, width + 1);
            }
            if j % 4 == 3 {
                push_char(&mut out, ' ');
            }
            proof {
                let slot = if i + j < bv.len() {
                    numeral(bv[i + j] as nat, bn, wn) + seq![' ']
                } else {
                    spaces((wn + 1) as nat)
                };
                let group = if j % 4 == 3 {
                    seq![' ']
                } else {
                    Seq::<char>::empty()
                };
                assert(out@ =~= before + (slot + group));
                assert(out@ + dump_slots(bv, i as int, j + 1, bn, wn) =~= before + (slot + group
                    + dump_slots(bv, i as int, j + 1, bn, wn)));
                assert(slot + group + dump_slots(bv, i as int, j + 1, bn, wn) =~= dump_slots(
                    bv,
                    i as int,
                    j as int,
                    bn,
                    wn,
                ));
            }
            j = j + 1;
        }
        out.append(" |");
        let ghost ascii_start = out@;
        let mut j: usize = 0;
        while j < 16
            invariant
                i < bv.len(),
                j <= 16,
                bv == binary@,
                out@ + dump_ascii(bv, i as int, j as int) == ascii_start + dump_ascii(
                    bv,
                    i as int,
                    0,
                ),
            decreases 16 - j,
        {
            let ghost before = out@;
            if j < binary.len() - i {
                let b = binary[i + j];
                if 0x20 <= b && b <= 0x7e {
                    push_char(&mut out, b as char);
                } else {
                    push_char(&mut out, '.');
                }
                assert(out@ == before + seq![ascii_cell(bv[i + j])]);
            } else {
                push_char(&mut out, ' ');
            }
            proof {
                let cell = if i + j < bv.len() {
                    seq![ascii_cell(bv[i + j])]
                } else {
                    seq![' ']
                };
                assert(out@ + dump_ascii(bv, i as int, j + 1) =~= before + (cell + dump_ascii(
                    bv,
                    i as int,
                    j + 1,
                )));
                assert(cell + dump_ascii(bv, i as int, j + 1) =~= dump_ascii(
                    bv,
                    i as int,
                    j as int,
                ));
            }
            j = j + 1;
        }
        out.append("|\n");
        proof {
            assert(dump_slots(bv, i as int, 16, bn, wn) == Seq::<char>::empty());
            assert(dump_ascii(bv, i as int, 16) == Seq::<char>::empty());
            assert(out@ =~= row_start + dump_row(bv, i as int, bn, wn));
            assert(row_start + (dump_row(bv, i as int, bn, wn) + dump_rows(
                bv,
                i as int + 16,
                bn,
                wn,
            )) =~= out@ + dump_rows(bv, i as int + 16, bn, wn));
        }
        if binary.len() - i > 16 {
            i = i + 16;
        } else {
            i = binary.len();
            proof {
                assert(dump_rows(bv, i as int, bn, wn) == Seq::<char>::empty());
            }
        }
    }
    out
}

/// The number of occurrences of `c` in `s`.
pub open spec fn count_char(s: Seq<char>, c: char) -> nat
    decreases s.len(),
{
    if s.len() == 0 {
        0
    } else {
        count_char(s.drop_last(), c) + (if s.last() == c {
            1nat
        } else {
            0nat
        })
    }
}

proof fn lemma_count_concat(a: Seq<char>, b: Seq<char>, c: char)
    ensures
        count_char(a + b, c) == count_char(a, c) + count_char(b, c),
    decreases b.len(),
{
    if b.len() == 0 {
        assert(a + b =~= a);
    } else {
        assert((a + b).drop_last() =~= a + b.drop_last());
        assert((a + b).last() == b.last());
        lemma_count_concat(a, b.drop_last(), c);
    }
}

proof fn lemma_count_absent(s: Seq<char>, c: char)
    requires
        forall|i: int| 0 <= i < s.len() ==> s[i] != c,
    ensures
        count_char(s, c) == 0,
    decreases s.len(),
{
    if s.len() > 0 {
        lemma_count_absent(s.drop_last(), c);
    }
}

proof fn lemma_numeral_no_newline(n: nat, base: nat, width: nat)
    ensures
        count_char(crate::text::numeral(n, base, width), '\n') == 0,
{
    crate::text::lemma_numeral_chars(n, base, width);
    lemma_count_absent(crate::text::numeral(n, base, width), '\n');
}

proof fn lemma_spaces_no_newline(n: nat)
    ensures
        count_char(spaces(n), '\n') == 0,
{
    crate::text::lemma_spaces_chars(n);
    lemma_count_absent(spaces(n), '\n');
}

proof fn lemma_slots_no_newline(bytes: Seq<u8>, row: int, j: int, base: nat, width: nat)
    ensures
        count_char(dump_slots(bytes, row, j, base, width), '\n') == 0,
    decreases 16 - j,
{
    if j < 0 || j >= 16 {
    } else {
        let slot = if row + j < bytes.len() {
            numeral(bytes[row + j] as nat, base, width) + seq![' ']
        } else {
            spaces((width + 1) as nat)
        };
        let group: Seq<char> = if j % 4 == 3 {
            seq![' ']
        } else {
            Seq::empty()
        };
        if row + j < bytes.len() {
            lemma_numeral_no_newline(bytes[row + j] as nat, base, width);
            lemma_count_concat(numeral(bytes[row + j] as nat, base, width), seq![' '], '\n');
            lemma_count_absent(seq![' '], '\n');
        } else {
            lemma_spaces_no_newline((width + 1) as nat);
        }
        lemma_count_absent(group, '\n');
        lemma_slots_no_newline(bytes, row, j + 1, base, width);
        lemma_count_concat(slot, group, '\n');
        lemma_count_concat(slot + group, dump_slots(bytes, row, j + 1, base, width), '\n');
        assert(dump_slots(bytes, row, j, base, width) == slot + group + dump_slots(
            bytes,
            row,
            j + 1,
            base,
            width,
        ));
    }
}

proof fn lemma_ascii_no_newline(bytes: Seq<u8>, row: int, j: int)
    ensures
        count_char(dump_ascii(bytes, row, j), '\n') == 0,
    decreases 16 - j,
{
    if j < 0 || j >= 16 {
    } else {
        let cell = if row + j < bytes.len() {
            seq![ascii_cell(bytes[row + j])]
        } else {
            seq![' ']
        };
        lemma_count_absent(cell, '\n');
        lemma_ascii_no_newline(bytes, row, j + 1);
        lemma_count_concat(cell, dump_ascii(bytes, row, j + 1), '\n');
    }
}

proof fn lemma_row_one_newline(bytes: Seq<u8>, row: int, base: nat, width: nat)
    requires
        row >= 0,
    ensures
        count_char(dump_row(bytes, row, base, width), '\n') == 1,
{
    reveal_strlit("  ");
    reveal_strlit(" |");
    reveal_strlit("|\n");
    let off = numeral(row as nat, 16, 8);
    let slots = dump_slots(bytes, row, 0, base, width);
    let asc = dump_ascii(bytes, row, 0);
    lemma_numeral_no_newline(row as nat, 16, 8);
    lemma_slots_no_newline(bytes, row, 0, base, width);
    lemma_ascii_no_newline(bytes, row, 0);
    lemma_count_absent("  "@, '\n');
    lemma_count_absent(" |"@, '\n');
    assert(count_char("|\n"@, '\n') == 1) by {
        let s2 = "|\n"@;
        assert(s2.len() == 2);
        assert(s2.last() == '\n');
        assert(s2.drop_last().len() == 1);
        assert(s2.drop_last().last() == '|');
        assert(s2.drop_last().drop_last().len() == 0);
        assert(count_char(s2.drop_last().drop_last(), '\n') == 0);
        assert(count_char(s2.drop_last(), '\n') == 0);
    }
    lemma_count_concat(off, "  "@, '\n');
    lemma_count_concat(off + "  "@, slots, '\n');
    lemma_count_concat(off + "  "@ + slots, " |"@, '\n');
    lemma_count_concat(off + "  "@ + slots + " |"@, asc, '\n');
    lemma_count_concat(off + "  "@ + slots + " |"@ + asc, "|\n"@, '\n');
}

proof fn lemma_rows_newlines(bytes: Seq<u8>, row: int, base: nat, width: nat)
    requires
        0 <= row <= bytes.len(),
    ensures
        count_char(dump_rows(bytes, row, base, width), '\n') == (bytes.len() - row + 15) / 16,
    decreases bytes.len() - row,
{
    if row >= bytes.len() {
    } else {
        lemma_row_one_newline(bytes, row, base, width);
        lemma_count_concat(
            dump_row(bytes, row, base, width),
            dump_rows(bytes, row + 16, base, width),
            '\n',
        );
        if row + 16 <= bytes.len() {
            lemma_rows_newlines(bytes, row + 16, base, width);
        } else {
            assert(dump_rows(bytes, row + 16, base, width) == Seq::<char>::empty());
            assert(count_char(Seq::<char>::empty(), '\n') == 0);
        }
    }
}

/// Each dump view produces one row per 16 input bytes, rounding up, so
/// an empty input produces no rows; the newline that ends a row is the
/// only newline in it, so the rows are counted by the newlines.
pub proof fn lemma_dump_row_count(bytes: Seq<u8>)
    ensures
        count_char(hex_dump(bytes), '\n') == (bytes.len() + 15) / 16,
        count_char(binary_dump(bytes), '\n') == (bytes.len() + 15) / 16,
{
    lemma_rows_newlines(bytes, 0, 16, 2);
    lemma_rows_newlines(bytes, 0, 2, 8);
}

proof fn lemma_pow_16_values()
    ensures
        vstd::arithmetic::power::pow(16, 2) == 256,
        vstd::arithmetic::power::pow(16, 8) == 0x100000000,
{
    reveal_with_fuel(vstd::arithmetic::power::pow, 10);
    assert(vstd::arithmetic::power::pow(16, 0) == 1);
    assert(vstd::arithmetic::power::pow(16, 1) == 16);
    assert(vstd::arithmetic::power::pow(16, 2) == 256);
    assert(vstd::arithmetic::power::pow(16, 3) == 0x1000);
    assert(vstd::arithmetic::power::pow(16, 4) == 0x10000);
    assert(vstd::arithmetic::power::pow(16, 5) == 0x100000);
    assert(vstd::arithmetic::power::pow(16, 6) == 0x1000000);
    assert(vstd::arithmetic::power::pow(16, 7) == 0x10000000);
    assert(vstd::arithmetic::power::pow(16, 8) == 0x100000000);
}

proof fn lemma_pow_2_values()
    ensures
        vstd::arithmetic::power::pow(2, 8) == 256,
{
    reveal_with_fuel(vstd::arithmetic::power::pow, 10);
    assert(vstd::arithmetic::power::pow(2, 0) == 1);
    assert(vstd::arithmetic::power::pow(2, 1) == 2);
    assert(vstd::arithmetic::power::pow(2, 2) == 4);
    assert(vstd::arithmetic::power::pow(2, 3) == 8);
    assert(vstd::arithmetic::power::pow(2, 4) == 16);
    assert(vstd::arithmetic::power::pow(2, 5) == 32);
    assert(vstd::arithmetic::power::pow(2, 6) == 64);
    assert(vstd::arithmetic::power::pow(2, 7) == 128);
    assert(vstd::arithmetic::power::pow(2, 8) == 256);
}

proof fn lemma_slots_len(bytes: Seq<u8>, row: int, j: int, base: nat, width: nat)
    requires
        0 <= j <= 16,
        row >= 0,
        2 <= base,
        1 <= width,
        vstd::arithmetic::power::pow(base as int, width) >= 256,
    ensures
        dump_slots(bytes, row, j, base, width).len() == (16 - j) * (width + 1) + 4 - j / 4,
    decreases 16 - j,
{
    if j >= 16 {
        assert(j == 16);
        assert(dump_slots(bytes, row, j, base, width).len() == 0);
        assert((16 - j) * (width + 1) == 0);
        assert(j / 4 == 4);
    } else {
        let slot = if row + j < bytes.len() {
            numeral(bytes[row + j] as nat, base, width) + seq![' ']
        } else {
            spaces((width + 1) as nat)
        };
        let group: Seq<char> = if j % 4 == 3 {
            seq![' ']
        } else {
            Seq::empty()
        };
        if row + j < bytes.len() {
            crate::text::lemma_numeral_len(bytes[row + j] as nat, base, width);
        } else {
            crate::text::lemma_spaces_len((width + 1) as nat);
        }
        assert(slot.len() == width + 1);
        lemma_slots_len(bytes, row, j + 1, base, width);
        assert((16 - j) * (width + 1) == (width + 1) + (16 - (j + 1)) * (width + 1))
            by (nonlinear_arith);
        assert((j + 1) / 4 == j / 4 + (if j % 4 == 3 {
            1int
        } else {
            0int
        }));
        assert(dump_slots(bytes, row, j, base, width).len() == slot.len() + group.len()
            + dump_slots(bytes, row, j + 1, base, width).len());
        assert(group.len() == (if j % 4 == 3 {
            1int
        } else {
            0int
        }));
        assert(dump_slots(bytes, row, j + 1, base, width).len() == (16 - (j + 1)) * (width + 1) + 4
            - (j + 1) / 4);
        assert(dump_slots(bytes, row, j, base, width).len() == (16 - j) * (width + 1) + 4 - j / 4);
    }
}

proof fn lemma_ascii_len(bytes: Seq<u8>, row: int, j: int)
    requires
        0 <= j <= 16,
    ensures
        dump_ascii(bytes, row, j).len() == 16 - j,
    decreases 16 - j,
{
    if j < 16 {
        lemma_ascii_len(bytes, row, j + 1);
    }
}

proof fn lemma_row_len(bytes: Seq<u8>, row: int, base: nat, width: nat)
    requires
        0 <= row < 0x100000000,
        2 <= base,
        1 <= width,
        vstd::arithmetic::power::pow(base as int, width) >= 256,
    ensures
        dump_row(bytes, row, base, width).len() == 16 * width + 50,
{
    reveal_strlit("  ");
    reveal_strlit(" |");
    reveal_strlit("|\n");
    lemma_pow_16_values();
    crate::text::lemma_numeral_len(row as nat, 16, 8);
    lemma_slots_len(bytes, row, 0, base, width);
    lemma_ascii_len(bytes, row, 0);
}

proof fn lemma_rows_len(bytes: Seq<u8>, row: int, base: nat, width: nat)
    requires
        0 <= row <= bytes.len(),
        bytes.len() <= 0x100000000,
        2 <= base,
        1 <= width,
        vstd::arithmetic::power::pow(base as int, width) >= 256,
    ensures
        dump_rows(bytes, row, base, width).len() == ((bytes.len() - row + 15) / 16) * (16 * width
            + 50),
    decreases bytes.len() - row,
{
    if row >= bytes.len() {
        assert(row == bytes.len());
        assert(dump_rows(bytes, row, base, width).len() == 0);
        assert((bytes.len() - row + 15) / 16 == 0);
        assert(((bytes.len() - row + 15) / 16) * (16 * width + 50) == 0);
    } else {
        lemma_row_len(bytes, row, base, width);
        let q = (bytes.len() - (row + 16) + 15) / 16;
        let rows_here = (bytes.len() - row + 15) / 16;
        if row + 16 <= bytes.len() {
            lemma_rows_len(bytes, row + 16, base, width);
        } else {
            assert(dump_rows(bytes, row + 16, base, width) == Seq::<char>::empty());
            assert(q == 0);
            assert(q * (16 * width + 50) == 0);
        }
        assert(dump_rows(bytes, row + 16, base, width).len() == q * (16 * width + 50));
        assert(dump_rows(bytes, row, base, width).len() == (16 * width + 50) + q * (16 * width
            + 50));
        assert(rows_here == 1 + q);
        assert(rows_here * (16 * width + 50) == (16 * width + 50) + q * (16 * width + 50))
            by (nonlinear_arith)
            requires
                rows_here == 1 + q,
        ;
    }
}

/// An empty input produces zero rows: both dump views render the empty
/// string, with no leading offset line.
pub proof fn lemma_empty_dump()
    ensures
        hex_dump(Seq::empty()) == Seq::<char>::empty(),
        binary_dump(Seq::empty()) == Seq::<char>::empty(),
{
}

/// Every row of either dump view is full width — 16 byte slots wide —
/// regardless of trailing partial data: the whole dump is the row count
/// times a fixed row length (82 for hex, 178 for binary).
pub proof fn lemma_dump_row_width(bytes: Seq<u8>)
    requires
        bytes.len() <= 0x100000000,
    ensures
        hex_dump(bytes).len() == ((bytes.len() + 15) / 16) * 82,
        binary_dump(bytes).len() == ((bytes.len() + 15) / 16) * 178,
{
    lemma_pow_16_values();
    lemma_pow_2_values();
    lemma_rows_len(bytes, 0, 16, 2);
    lemma_rows_len(bytes, 0, 2, 8);
}

/// The hex-dump view: per row an eight-hex-digit offset, 16 two-digit
/// lowercase hex byte slots grouped four by four, and the ASCII column.
/// An empty input gives the empty string.
pub fn binary_to_hex(binary: &[u8]) -> (r: String)
    ensures
        r@ == hex_dump(binary@),
{
    render_dump(binary, 16, 2)
}

/// The binary-dump view: as the hex dump, but every byte slot holds
/// eight binary digits. An empty input gives the empty string.
pub fn binary_to_binary(binary: &[u8]) -> (r: String)
    ensures
        r@ == binary_dump(binary@),
{
    render_dump(binary, 2, 8)
}

} // verus!

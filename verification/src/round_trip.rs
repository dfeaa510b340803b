//! Round trip of intent: reading the `0x`-prefixed byte literals out of
//! a rendered constant declaration, in order, gives back exactly the
//! byte sequence that was formatted — no loss, no reordering. The
//! reader scans the text once, consuming each `0x` followed by two
//! lowercase hex digits as one byte.

use vstd::prelude::*;
use crate::source_const::{
    c_const_text, c_define_text, csharp_const_text, define_lines, go_const_text, hex_literal,
    java_const_text, javascript_const_text, literal_lines, python_const_text, rust_const_text,
    upper, upper_char,
};
use crate::text::{lemma_numeral_chars, lemma_spaces_chars, numeral, spaces};

verus! {

/// Whether `c` is a lowercase hexadecimal digit, as the formatters
/// emit them.
pub open spec fn is_hex_digit(c: char) -> bool {
    (0x30 <= c as u32 && c as u32 <= 0x39) || (0x61 <= c as u32 && c as u32 <= 0x66)
}

/// The value of a lowercase hexadecimal digit.
pub open spec fn hex_val(c: char) -> nat {
    if 0x30 <= c as u32 && c as u32 <= 0x39 {
        (c as u32 - 0x30) as nat
    } else if 0x61 <= c as u32 && c as u32 <= 0x66 {
        (c as u32 - 0x57) as nat
    } else {
        0
    }
}

/// Whether a `0x`-prefixed two-digit byte literal begins at index `i`.
pub open spec fn literal_start(s: Seq<char>, i: int) -> bool {
    &&& 0 <= i
    &&& i + 4 <= s.len()
    &&& s[i] == '0'
    &&& s[i + 1] == 'x'
    &&& is_hex_digit(s[i + 2])
    &&& is_hex_digit(s[i + 3])
}

/// The byte literals appearing in `s`, read back in order: a single
/// left-to-right scan that consumes each byte literal it meets.
pub open spec fn extracted(s: Seq<char>) -> Seq<u8>
    decreases s.len(),
{
    if s.len() == 0 {
        Seq::empty()
    } else if literal_start(s, 0) {
        seq![(hex_val(s[2]) * 16 + hex_val(s[3])) as u8] + extracted(s.skip(4))
    } else {
        extracted(s.skip(1))
    }
}

/// Whether `s` is free of the character pair `0x`; text without the
/// pair contributes no byte literal to the scan.
pub open spec fn no_literal_pair(s: Seq<char>) -> bool {
    forall|i: int| 0 <= i && i + 1 < s.len() ==> !((#[trigger] s[i]) == '0' && s[i + 1] == 'x')
}

proof fn lemma_extract_prefix(p: Seq<char>, t: Seq<char>)
    requires
        no_literal_pair(p),
        p.len() == 0 || t.len() == 0 || !(p.last() == '0' && t[0] == 'x'),
    ensures
        extracted(p + t) == extracted(t),
    decreases p.len(),
{
    if p.len() == 0 {
        assert(p + t =~= t);
    } else {
        let s = p + t;
        assert(s[0] == p[0]);
        if s.len() >= 2 {
            assert(s[1] == if p.len() >= 2 {
                p[1]
            } else {
                t[0]
            });
        }
        assert(!literal_start(s, 0));
        assert(extracted(s) == extracted(s.skip(1)));
        assert(s.skip(1) =~= p.skip(1) + t);
        assert(no_literal_pair(p.skip(1))) by {
            assert(forall|i: int|
                0 <= i && i + 1 < p.skip(1).len() ==> (#[trigger] p.skip(1)[i]) == p[i + 1]
                    && p.skip(1)[i + 1] == p[i + 2]);
        }
        if p.len() >= 2 {
            assert(p.skip(1).last() == p.last());
        }
        lemma_extract_prefix(p.skip(1), t);
    }
}

proof fn lemma_extract_empty(t: Seq<char>)
    requires
        no_literal_pair(t),
    ensures
        extracted(t) == Seq::<u8>::empty(),
{
    lemma_extract_prefix(t, Seq::empty());
    assert(t + Seq::<char>::empty() =~= t);
}

proof fn lemma_digit_facts(d: nat)
    requires
        d < 16,
    ensures
        is_hex_digit(crate::text::digit_char(d)),
        hex_val(crate::text::digit_char(d)) == d,
{
}

proof fn lemma_hex_literal_shape(b: u8)
    ensures
        hex_literal(b).len() == 4,
        hex_literal(b)[0] == '0',
        hex_literal(b)[1] == 'x',
        is_hex_digit(hex_literal(b)[2]),
        is_hex_digit(hex_literal(b)[3]),
        hex_val(hex_literal(b)[2]) * 16 + hex_val(hex_literal(b)[3]) == b,
{
    reveal_strlit("0x");
    assert(numeral(b as nat / 16, 16, 1) =~= seq![crate::text::digit_char(b as nat / 16)]);
    assert(numeral(b as nat, 16, 2) =~= seq![
        crate::text::digit_char(b as nat / 16),
        crate::text::digit_char(b as nat % 16),
    ]);
    lemma_digit_facts(b as nat / 16);
    lemma_digit_facts(b as nat % 16);
}

proof fn lemma_extract_literal(b: u8, rest: Seq<char>)
    ensures
        extracted(hex_literal(b) + rest) == seq![b] + extracted(rest),
{
    lemma_hex_literal_shape(b);
    let s = hex_literal(b) + rest;
    assert(literal_start(s, 0));
    assert(s.skip(4) =~= rest);
    assert((hex_val(s[2]) * 16 + hex_val(s[3])) as u8 == b);
}

proof fn lemma_pair_concat(a: Seq<char>, b: Seq<char>)
    requires
        no_literal_pair(a),
        no_literal_pair(b),
        a.len() == 0 || b.len() == 0 || !(a.last() == '0' && b[0] == 'x'),
    ensures
        no_literal_pair(a + b),
{
    assert forall|i: int| 0 <= i && i + 1 < (a + b).len() implies !((#[trigger] (a + b)[i]) == '0'
        && (a + b)[i + 1] == 'x') by {
        if i + 1 < a.len() {
            assert((a + b)[i] == a[i] && (a + b)[i + 1] == a[i + 1]);
        } else if i < a.len() {
            assert((a + b)[i] == a[i] && (a + b)[i + 1] == b[0]);
            assert(a[i] == a.last());
        } else {
            assert((a + b)[i] == b[i - a.len()] && (a + b)[i + 1] == b[i + 1 - a.len()]);
        }
    }
}

proof fn lemma_literal_lines_extract(bytes: Seq<u8>, tab: nat, i: int, t: Seq<char>)
    requires
        0 <= i <= bytes.len(),
        t.len() == 0 || t[0] != 'x',
    ensures
        extracted(literal_lines(bytes, tab, i) + t) == bytes.skip(i) + extracted(t),
    decreases bytes.len() - i,
{
    reveal_strlit(", ");
    if i == bytes.len() {
        assert(literal_lines(bytes, tab, i) + t =~= t);
        assert(bytes.skip(i) + extracted(t) =~= extracted(t));
    } else {
        let b = bytes[i];
        let sep: Seq<char> = if i < bytes.len() - 1 {
            ", "@
        } else {
            Seq::empty()
        };
        let brk: Seq<char> = if i % 16 == 15 && i < bytes.len() - 1 {
            seq!['\n'] + spaces(tab)
        } else {
            Seq::empty()
        };
        let tail = literal_lines(bytes, tab, i + 1) + t;
        assert(literal_lines(bytes, tab, i) + t =~= hex_literal(b) + (sep + brk + tail));
        lemma_extract_literal(b, sep + brk + tail);
        assert(no_literal_pair(sep + brk)) by {
            lemma_spaces_chars(tab);
            assert(forall|k: int|
                0 <= k < (sep + brk).len() ==> (#[trigger] (sep + brk)[k]) == ',' || (sep + brk)[k]
                    == ' ' || (sep + brk)[k] == '\n');
        }
        assert(tail.len() == 0 || tail[0] != 'x') by {
            if i + 1 < bytes.len() {
                lemma_hex_literal_shape(bytes[i + 1]);
                assert(literal_lines(bytes, tab, i + 1)[0] == hex_literal(bytes[i + 1])[0]);
                assert(tail[0] == '0');
            } else {
                assert(literal_lines(bytes, tab, i + 1) =~= Seq::<char>::empty());
                assert(tail =~= t);
            }
        }
        assert((sep + brk).len() == 0 || tail.len() == 0 || !((sep + brk).last() == '0' && tail[0]
            == 'x'));
        assert(sep + brk + tail =~= (sep + brk) + tail);
        lemma_extract_prefix(sep + brk, tail);
        lemma_literal_lines_extract(bytes, tab, i + 1, t);
        assert(seq![b] + (bytes.skip(i + 1) + extracted(t)) =~= bytes.skip(i) + extracted(t));
    }
}

#[verifier::rlimit(60)]
proof fn lemma_define_lines_extract(bytes: Seq<u8>, tab: nat, i: int, t: Seq<char>)
    requires
        0 <= i <= bytes.len(),
        t.len() == 0 || t[0] != 'x',
    ensures
        extracted(define_lines(bytes, tab, i) + t) == bytes.skip(i) + extracted(t),
    decreases bytes.len() - i,
{
    reveal_strlit(", ");
    reveal_strlit("\\\n");
    reveal_strlit("    ");
    if i == bytes.len() {
        assert(define_lines(bytes, tab, i) + t =~= t);
        assert(bytes.skip(i) + extracted(t) =~= extracted(t));
    } else {
        let b = bytes[i];
        let head: Seq<char> = if i % 8 == 0 {
            spaces(tab) + "    "@
        } else {
            Seq::empty()
        };
        let sep: Seq<char> = if i < bytes.len() - 1 {
            ", "@
        } else {
            Seq::empty()
        };
        let brk: Seq<char> = if (i + 1) % 8 == 0 && i < bytes.len() - 1 {
            "\\\n"@
        } else {
            Seq::empty()
        };
        let tail = define_lines(bytes, tab, i + 1) + t;
        lemma_hex_literal_shape(b);
        lemma_spaces_chars(tab);
        assert(define_lines(bytes, tab, i) + t =~= head + (hex_literal(b) + (sep + brk + tail)));
        assert(no_literal_pair(head)) by {
            assert(forall|k: int| 0 <= k < head.len() ==> (#[trigger] head[k]) == ' ');
        }
        assert(head.len() == 0 || !(head.last() == '0' && (hex_literal(b) + (sep + brk + tail))[0]
            == 'x'));
        lemma_extract_prefix(head, hex_literal(b) + (sep + brk + tail));
        lemma_extract_literal(b, sep + brk + tail);
        assert(no_literal_pair(sep + brk)) by {
            assert(forall|k: int|
                0 <= k < (sep + brk).len() ==> (#[trigger] (sep + brk)[k]) == ',' || (sep + brk)[k]
                    == ' ' || (sep + brk)[k] == '\\' || (sep + brk)[k] == '\n');
        }
        assert(tail.len() == 0 || tail[0] != 'x') by {
            if i + 1 < bytes.len() {
                lemma_hex_literal_shape(bytes[i + 1]);
                if (i + 1) % 8 == 0 {
                    let head2 = spaces(tab) + "    "@;
                    assert(define_lines(bytes, tab, i + 1)[0] == head2[0]);
                    assert(head2[0] == ' ');
                } else {
                    assert(define_lines(bytes, tab, i + 1)[0] == hex_literal(bytes[i + 1])[0]);
                }
            } else {
                assert(define_lines(bytes, tab, i + 1) =~= Seq::<char>::empty());
                assert(tail =~= t);
            }
        }
        assert((sep + brk).len() == 0 || tail.len() == 0 || !((sep + brk).last() == '0' && tail[0]
            == 'x'));
        assert(sep + brk + tail =~= (sep + brk) + tail);
        lemma_extract_prefix(sep + brk, tail);
        lemma_define_lines_extract(bytes, tab, i + 1, t);
        assert(seq![b] + (bytes.skip(i + 1) + extracted(t)) =~= bytes.skip(i) + extracted(t));
    }
}

proof fn lemma_wrap_extract(p: Seq<char>, bytes: Seq<u8>, tab: nat, suffix: Seq<char>)
    requires
        no_literal_pair(p),
        no_literal_pair(suffix),
        suffix.len() > 0,
        suffix[0] != 'x',
        suffix[0] != '0',
    ensures
        extracted(p + literal_lines(bytes, tab, 0) + suffix) == bytes,
{
    let body = literal_lines(bytes, tab, 0);
    let t = body + suffix;
    assert(t.len() > 0);
    assert(t[0] != 'x') by {
        if bytes.len() > 0 {
            lemma_hex_literal_shape(bytes[0]);
            assert(body[0] == hex_literal(bytes[0])[0]);
        } else {
            assert(body =~= Seq::<char>::empty());
            assert(t =~= suffix);
        }
    }
    assert(p + body + suffix =~= p + t);
    lemma_extract_prefix(p, t);
    lemma_literal_lines_extract(bytes, tab, 0, suffix);
    lemma_extract_empty(suffix);
    assert(bytes.skip(0) + Seq::<u8>::empty() =~= bytes);
}

proof fn lemma_spaces_pair_free(n: nat)
    ensures
        no_literal_pair(spaces(n)),
        n > 0 ==> spaces(n)[0] == ' ',
        n > 0 ==> spaces(n).last() == ' ',
{
    lemma_spaces_chars(n);
}

proof fn lemma_numeral_pair_free(n: nat, base: nat, width: nat)
    ensures
        no_literal_pair(numeral(n, base, width)),
        forall|k: int| 0 <= k < numeral(n, base, width).len() ==> #[trigger] numeral(
            n,
            base,
            width,
        )[k] != 'x',
{
    lemma_numeral_chars(n, base, width);
}

/// Round trip of intent for the C constant: the byte literals in the
/// rendered text, read back in order, are exactly the input bytes.
/// Holds for every name free of the pair `0x`, which would mimic a
/// literal prefix.
pub proof fn lemma_c_const_round_trip(bytes: Seq<u8>, name: Seq<char>, tab: nat)
    requires
        no_literal_pair(name),
    ensures
        extracted(c_const_text(bytes, name, tab)) == bytes,
{
    reveal_strlit("const unsigned char ");
    reveal_strlit("[] = {\n");
    reveal_strlit("\n};\n");
    let a = "const unsigned char "@;
    let b = "[] = {\n"@;
    let s = "\n};\n"@;
    lemma_spaces_pair_free(tab);
    lemma_pair_concat(a, name);
    lemma_pair_concat(a + name, b);
    lemma_pair_concat(a + name + b, spaces(tab));
    lemma_wrap_extract(a + name + b + spaces(tab), bytes, tab, s);
    assert(c_const_text(bytes, name, tab) =~= (a + name + b + spaces(tab)) + literal_lines(
        bytes,
        tab,
        0,
    ) + s);
}

proof fn lemma_upper_no_x(name: Seq<char>)
    ensures
        no_literal_pair(upper(name)),
        forall|k: int| 0 <= k < upper(name).len() ==> #[trigger] upper(name)[k] != 'x',
{
    assert forall|k: int| 0 <= k < upper(name).len() implies #[trigger] upper(name)[k] != 'x' by {
        assert(upper(name)[k] == upper_char(name[k]));
    }
}

/// Round trip of intent for the C `#define` pair, for every name: the
/// uppercased name cannot hold a lowercase `x`, so no name can mimic a
/// literal prefix here.
pub proof fn lemma_c_define_round_trip(bytes: Seq<u8>, name: Seq<char>, tab: nat)
    ensures
        extracted(c_define_text(bytes, name, tab)) == bytes,
{
    reveal_strlit("#define ");
    reveal_strlit("_SIZE ");
    reveal_strlit("\n#define ");
    reveal_strlit(" {");
    reveal_strlit("}\n");
    reveal_strlit("    ");
    let un = upper(name);
    lemma_upper_no_x(name);
    lemma_numeral_pair_free(bytes.len(), 10, 1);
    let num = numeral(bytes.len(), 10, 1);
    let a1 = "#define "@;
    let a2 = "_SIZE "@;
    let a3 = "\n#define "@;
    let a4 = " {"@;
    let s = "}\n"@;
    lemma_pair_concat(a1, un);
    lemma_pair_concat(a1 + un, a2);
    lemma_pair_concat(a1 + un + a2, num);
    lemma_pair_concat(a1 + un + a2 + num, a3);
    lemma_pair_concat(a1 + un + a2 + num + a3, un);
    lemma_pair_concat(a1 + un + a2 + num + a3 + un, a4);
    let p = a1 + un + a2 + num + a3 + un + a4;
    let body = define_lines(bytes, tab, 0);
    let t = body + s;
    assert(t[0] != 'x') by {
        if bytes.len() > 0 {
            lemma_spaces_chars(tab);
            let head = spaces(tab) + "    "@;
            assert(body[0] == head[0]);
            assert(head[0] == ' ');
        } else {
            assert(body =~= Seq::<char>::empty());
            assert(t =~= s);
        }
    }
    lemma_extract_prefix(p, t);
    lemma_define_lines_extract(bytes, tab, 0, s);
    lemma_extract_empty(s);
    assert(bytes.skip(0) + Seq::<u8>::empty() =~= bytes);
    assert(c_define_text(bytes, name, tab) =~= p + t);
}

/// Round trip of intent for the Rust constant, for every name free of
/// the pair `0x`.
pub proof fn lemma_rust_const_round_trip(bytes: Seq<u8>, name: Seq<char>, tab: nat)
    requires
        no_literal_pair(name),
    ensures
        extracted(rust_const_text(bytes, name, tab)) == bytes,
{
    reveal_strlit("const ");
    reveal_strlit(": [u8; ");
    reveal_strlit("] = [\n");
    reveal_strlit("\n];\n");
    let a1 = "const "@;
    let a2 = ": [u8; "@;
    let a3 = "] = [\n"@;
    let s = "\n];\n"@;
    lemma_numeral_pair_free(bytes.len(), 10, 1);
    let num = numeral(bytes.len(), 10, 1);
    lemma_spaces_pair_free(tab);
    lemma_pair_concat(a1, name);
    lemma_pair_concat(a1 + name, a2);
    lemma_pair_concat(a1 + name + a2, num);
    lemma_pair_concat(a1 + name + a2 + num, a3);
    lemma_pair_concat(a1 + name + a2 + num + a3, spaces(tab));
    lemma_wrap_extract(a1 + name + a2 + num + a3 + spaces(tab), bytes, tab, s);
    assert(rust_const_text(bytes, name, tab) =~= (a1 + name + a2 + num + a3 + spaces(tab))
        + literal_lines(bytes, tab, 0) + s);
}

/// Round trip of intent for the Python constant, for every name free
/// of the pair `0x`.
pub proof fn lemma_python_const_round_trip(bytes: Seq<u8>, name: Seq<char>, tab: nat)
    requires
        no_literal_pair(name),
    ensures
        extracted(python_const_text(bytes, name, tab)) == bytes,
{
    reveal_strlit(" = bytes([\n");
    reveal_strlit("\n])\n");
    let a2 = " = bytes([\n"@;
    let s = "\n])\n"@;
    lemma_spaces_pair_free(tab);
    lemma_pair_concat(name, a2);
    lemma_pair_concat(name + a2, spaces(tab));
    lemma_wrap_extract(name + a2 + spaces(tab), bytes, tab, s);
    assert(python_const_text(bytes, name, tab) =~= (name + a2 + spaces(tab)) + literal_lines(
        bytes,
        tab,
        0,
    ) + s);
}

/// Round trip of intent for the C# constant, for every name free of
/// the pair `0x`.
pub proof fn lemma_csharp_const_round_trip(bytes: Seq<u8>, name: Seq<char>, tab: nat)
    requires
        no_literal_pair(name),
    ensures
        extracted(csharp_const_text(bytes, name, tab)) == bytes,
{
    reveal_strlit("public static readonly byte[] ");
    reveal_strlit(" = new byte[] {\n");
    reveal_strlit("\n};\n");
    let a1 = "public static readonly byte[] "@;
    let a2 = " = new byte[] {\n"@;
    let s = "\n};\n"@;
    lemma_spaces_pair_free(tab);
    lemma_pair_concat(a1, name);
    lemma_pair_concat(a1 + name, a2);
    lemma_pair_concat(a1 + name + a2, spaces(tab));
    lemma_wrap_extract(a1 + name + a2 + spaces(tab), bytes, tab, s);
    assert(csharp_const_text(bytes, name, tab) =~= (a1 + name + a2 + spaces(tab)) + literal_lines(
        bytes,
        tab,
        0,
    ) + s);
}

/// Round trip of intent for the JavaScript constant, for every name
/// free of the pair `0x`.
pub proof fn lemma_javascript_const_round_trip(bytes: Seq<u8>, name: Seq<char>, tab: nat)
    requires
        no_literal_pair(name),
    ensures
        extracted(javascript_const_text(bytes, name, tab)) == bytes,
{
    reveal_strlit("const ");
    reveal_strlit(" = new Uint8Array([\n");
    reveal_strlit("\n]);\n");
    let a1 = "const "@;
    let a2 = " = new Uint8Array([\n"@;
    let s = "\n]);\n"@;
    lemma_spaces_pair_free(tab);
    lemma_pair_concat(a1, name);
    lemma_pair_concat(a1 + name, a2);
    lemma_pair_concat(a1 + name + a2, spaces(tab));
    lemma_wrap_extract(a1 + name + a2 + spaces(tab), bytes, tab, s);
    assert(javascript_const_text(bytes, name, tab) =~= (a1 + name + a2 + spaces(tab))
        + literal_lines(bytes, tab, 0) + s);
}

/// Round trip of intent for the Go constant, for every name free of
/// the pair `0x`.
pub proof fn lemma_go_const_round_trip(bytes: Seq<u8>, name: Seq<char>, tab: nat)
    requires
        no_literal_pair(name),
    ensures
        extracted(go_const_text(bytes, name, tab)) == bytes,
{
    reveal_strlit("var ");
    reveal_strlit(" = []byte{\n");
    reveal_strlit("\n}\n");
    let a1 = "var "@;
    let a2 = " = []byte{\n"@;
    let s = "\n}\n"@;
    lemma_spaces_pair_free(tab);
    lemma_pair_concat(a1, name);
    lemma_pair_concat(a1 + name, a2);
    lemma_pair_concat(a1 + name + a2, spaces(tab));
    lemma_wrap_extract(a1 + name + a2 + spaces(tab), bytes, tab, s);
    assert(go_const_text(bytes, name, tab) =~= (a1 + name + a2 + spaces(tab)) + literal_lines(
        bytes,
        tab,
        0,
    ) + s);
}

/// Round trip of intent for the Java constant, for every name free of
/// the pair `0x`.
pub proof fn lemma_java_const_round_trip(bytes: Seq<u8>, name: Seq<char>, tab: nat)
    requires
        no_literal_pair(name),
    ensures
        extracted(java_const_text(bytes, name, tab)) == bytes,
{
    reveal_strlit("public static final byte[] ");
    reveal_strlit(" = new byte[] {\n");
    reveal_strlit("\n};\n");
    let a1 = "public static final byte[] "@;
    let a2 = " = new byte[] {\n"@;
    let s = "\n};\n"@;
    lemma_spaces_pair_free(tab);
    lemma_pair_concat(a1, name);
    lemma_pair_concat(a1 + name, a2);
    lemma_pair_concat(a1 + name + a2, spaces(tab));
    lemma_wrap_extract(a1 + name + a2 + spaces(tab), bytes, tab, s);
    assert(java_const_text(bytes, name, tab) =~= (a1 + name + a2 + spaces(tab)) + literal_lines(
        bytes,
        tab,
        0,
    ) + s);
}

} // verus!

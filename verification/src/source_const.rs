//! Constant-array declarations: a byte sequence embedded as a
//! compile-time constant in the literal syntax of several programming
//! languages. All eight variants share one byte-iteration skeleton and
//! differ only in the surrounding declaration syntax; the `#define`
//! variant groups eight literals per line with backslash continuations
//! and uppercases the constant name.

use vstd::prelude::*;
use vstd::string::StrSliceExecFns;
use vstd::string::StringExecFns;
use crate::text::{numeral, spaces, push_char, push_numeral, push_spaces};

verus! {

/// One byte as a `0x`-prefixed, two-digit, lowercase hex literal.
pub open spec fn hex_literal(b: u8) -> Seq<char> {
    "0x"@ + numeral(b as nat, 16, 2)
}

/// The byte literals of `bytes` from index `i` on, separated by `", "`
/// after every byte but the last, with a newline and one indentation
/// block after every 16th byte when more bytes follow.
pub open spec fn literal_lines(bytes: Seq<u8>, tab: nat, i: int) -> Seq<char>
    decreases bytes.len() - i,
{
    if i < 0 || i >= bytes.len() {
        Seq::empty()
    } else {
        hex_literal(bytes[i]) + (if i < bytes.len() - 1 {
            ", "@
        } else {
            Seq::empty()
        }) + (if i % 16 == 15 && i < bytes.len() - 1 {
            seq!['\n'] + spaces(tab)
        } else {
            Seq::empty()
        }) + literal_lines(bytes, tab, i + 1)
    }
}

/// The byte literals of `bytes` from index `i` on in `#define` style:
/// eight per line, each line prefixed by the indentation block plus four
/// spaces, with a backslash-newline continuation between lines.
pub open spec fn define_lines(bytes: Seq<u8>, tab: nat, i: int) -> Seq<char>
    decreases bytes.len() - i,
{
    if i < 0 || i >= bytes.len() {
        Seq::empty()
    } else {
        (if i % 8 == 0 {
            spaces(tab) + "    "@
        } else {
            Seq::empty()
        }) + hex_literal(bytes[i]) + (if i < bytes.len() - 1 {
            ", "@
        } else {
            Seq::empty()
        }) + (if (i + 1) % 8 == 0 && i < bytes.len() - 1 {
            "\\\n"@
        } else {
            Seq::empty()
        }) + define_lines(bytes, tab, i + 1)
    }
}

/// A character with its ASCII lowercase letter replaced by the
/// corresponding uppercase letter; all other characters unchanged.
pub open spec fn upper_char(c: char) -> char {
    if 0x61 <= c as u32 && c as u32 <= 0x7a {
        ((c as u32 - 0x20) as u8) as char
    } else {
        c
    }
}

/// A string with each character uppercased by `upper_char`.
pub open spec fn upper(s: Seq<char>) -> Seq<char> {
    s.map_values(|c: char| upper_char(c))
}

/// The C constant declaration for `bytes` under `name`.
pub open spec fn c_const_text(bytes: Seq<u8>, name: Seq<char>, tab: nat) -> Seq<char> {
    "const unsigned char "@ + name + "[] = {\n"@ + spaces(tab) + literal_lines(bytes, tab, 0)
        + "\n};\n"@
}

/// The C `#define` pair for `bytes` under `name`: a size macro and a
/// value macro, both with the name uppercased.
pub open spec fn c_define_text(bytes: Seq<u8>, name: Seq<char>, tab: nat) -> Seq<char> {
    "#define "@ + upper(name) + "_SIZE "@ + numeral(bytes.len(), 10, 1) + "\n#define "@ + upper(
        name,
    ) + " {"@ + define_lines(bytes, tab, 0) + "}\n"@
}

/// The Rust constant declaration for `bytes` under `name`.
pub open spec fn rust_const_text(bytes: Seq<u8>, name: Seq<char>, tab: nat) -> Seq<char> {
    "const "@ + name + ": [u8; "@ + numeral(bytes.len(), 10, 1) + "] = [\n"@ + spaces(tab)
        + literal_lines(bytes, tab, 0) + "\n];\n"@
}

/// The Python `bytes` declaration for `bytes` under `name`.
pub open spec fn python_const_text(bytes: Seq<u8>, name: Seq<char>, tab: nat) -> Seq<char> {
    name + " = bytes([\n"@ + spaces(tab) + literal_lines(bytes, tab, 0) + "\n])\n"@
}

/// The C# byte-array declaration for `bytes` under `name`.
pub open spec fn csharp_const_text(bytes: Seq<u8>, name: Seq<char>, tab: nat) -> Seq<char> {
    "public static readonly byte[] "@ + name + " = new byte[] {\n"@ + spaces(tab) + literal_lines(
        bytes,
        tab,
        0,
    ) + "\n};\n"@
}

/// The JavaScript typed-array declaration for `bytes` under `name`.
pub open spec fn javascript_const_text(bytes: Seq<u8>, name: Seq<char>, tab: nat) -> Seq<char> {
    "const "@ + name + " = new Uint8Array([\n"@ + spaces(tab) + literal_lines(bytes, tab, 0)
        + "\n]);\n"@
}

/// The Go byte-slice declaration for `bytes` under `name`.
pub open spec fn go_const_text(bytes: Seq<u8>, name: Seq<char>, tab: nat) -> Seq<char> {
    "var "@ + name + " = []byte{\n"@ + spaces(tab) + literal_lines(bytes, tab, 0) + "\n}\n"@
}

/// The Java byte-array declaration for `bytes` under `name`.
pub open spec fn java_const_text(bytes: Seq<u8>, name: Seq<char>, tab: nat) -> Seq<char> {
    "public static final byte[] "@ + name + " = new byte[] {\n"@ + spaces(tab) + literal_lines(
        bytes,
        tab,
        0,
    ) + "\n};\n"@
}

/// Appends the shared 16-per-line body of byte literals.
fn push_literal_lines(out: &mut String, bytes: &[u8], tab_size: usize)
    ensures
        final(out)@ == old(out)@ + literal_lines(bytes@, tab_size as nat, 0),
{
    let ghost bv = bytes@;
    let ghost tn = tab_size as nat;
    let mut i: usize = 0;
    while i < bytes.len()
        invariant
            i <= bytes.len(),
            bv == bytes@,
            tn == tab_size as nat,
            out@ + literal_lines(bv, tn, i as int) == old(out)@ + literal_lines(bv, tn, 0),
        decreases bytes.len() - i,
    {
        let ghost before = out@;
        out.append("0x");
        push_numeral(out, bytes[i] as usize, 16, 2);
        if i < bytes.len() - 1 {
            out.append(", ");
        }
        if i % 16 == 15 && i < bytes.len() - 1 {
            push_char(out, '\n');
            push_spaces(out, tab_size);
        }
        proof {
            let sep = if i < bv.len() - 1 {
                ", "@
            } else {
                Seq::<char>::empty()
            };
            let brk = if i % 16 == 15 && i < bv.len() - 1 {
                seq!['\n'] + spaces(tn)
            } else {
                Seq::<char>::empty()
            };
            assert(out@ =~= before + (hex_literal(bv[i as int]) + sep + brk));
            assert(out@ + literal_lines(bv, tn, i + 1) =~= before + (hex_literal(bv[i as int])
                + sep + brk + literal_lines(bv, tn, i + 1)));
            assert(hex_literal(bv[i as int]) + sep + brk + literal_lines(bv, tn, i + 1)
                =~= literal_lines(bv, tn, i as int));
        }
        i = i + 1;
    }
}

/// Appends the `#define`-style body of byte literals.
fn push_define_lines(out: &mut String, bytes: &[u8], tab_size: usize)
    ensures
        final(out)@ == old(out)@ + define_lines(bytes@, tab_size as nat, 0),
{
    let ghost bv = bytes@;
    let ghost tn = tab_size as nat;
    let mut i: usize = 0;
    while i < bytes.len()
        invariant
            i <= bytes.len(),
            bv == bytes@,
            tn == tab_size as nat,
            out@ + define_lines(bv, tn, i as int) == old(out)@ + define_lines(bv, tn, 0),
        decreases bytes.len() - i,
    {
        let ghost before = out@;
        if i % 8 == 0 {
            push_spaces(out, tab_size);
            out.append("    ");
        }
        out.append("0x");
        push_numeral(out, bytes[i] as usize, 16, 2);
        if i < bytes.len() - 1 {
            out.append(", ");
        }
        if (i + 1) % 8 == 0 && i < bytes.len() - 1 {
            out.append("\\\n");
        }
        proof {
            let head = if i % 8 == 0 {
                spaces(tn) + "    "@
            } else {
                Seq::<char>::empty()
            };
            let sep = if i < bv.len() - 1 {
                ", "@
            } else {
                Seq::<char>::empty()
            };
            let brk = if (i + 1) % 8 == 0 && i < bv.len() - 1 {
                "\\\n"@
            } else {
                Seq::<char>::empty()
            };
            assert(out@ =~= before + (head + hex_literal(bv[i as int]) + sep + brk));
            assert(out@ + define_lines(bv, tn, i + 1) =~= before + (head + hex_literal(
                bv[i as int],
            ) + sep + brk + define_lines(bv, tn, i + 1)));
            assert(head + hex_literal(bv[i as int]) + sep + brk + define_lines(bv, tn, i + 1)
                =~= define_lines(bv, tn, i as int));
        }
        i = i + 1;
    }
}

/// Appends `name` with `upper_char` applied to each character.
fn push_upper(out: &mut String, name: &str)
    ensures
        final(out)@ == old(out)@ + upper(name@),
{
    let n = name.unicode_len();
    let mut k: usize = 0;
    while k < n
        invariant
            n == name@.len(),
            k <= n,
            out@ == old(out)@ + upper(name@).subrange(0, k as int),
        decreases n - k,
    {
        let c = name.get_char(k);
        let u = c as u32;
        if 0x61 <= u && u <= 0x7a {
            push_char(out, ((u - 0x20) as u8) as char);
        } else {
            push_char(out, c);
        }
        proof {
            assert(upper(name@)[k as int] == upper_char(name@[k as int]));
            assert(out@ =~= old(out)@ + upper(name@).subrange(0, k + 1));
        }
        k = k + 1;
    }
    proof {
        assert(upper(name@).subrange(0, name@.len() as int) =~= upper(name@));
    }
}

/// The C constant: `const unsigned char <name>[] = { ... };`, with the
/// name used verbatim, 16 byte literals per line, and each literal line
/// indented by `tab_size` spaces.
pub fn binary_to_c_const(binary: &[u8], name: &str, tab_size: usize) -> (r: String)
    ensures
        r@ == c_const_text(binary@, name@, tab_size as nat),
{
    let mut out = String::new();
    out.append("const unsigned char ");
    out.append(name);
    out.append("[] = {\n");
    push_spaces(&mut out, tab_size);
    push_literal_lines(&mut out, binary, tab_size);
    out.append("\n};\n");
    proof {
        assert(out@ =~= c_const_text(binary@, name@, tab_size as nat));
    }
    out
}

/// The C `#define` pair: a `<NAME>_SIZE` macro with the byte count and a
/// `<NAME>` macro holding the literals, eight per line with
/// backslash-newline continuations; the name is uppercased in both.
pub fn binary_to_c_define(binary: &[u8], name: &str, tab_size: usize) -> (r: String)
    ensures
        r@ == c_define_text(binary@, name@, tab_size as nat),
{
    let mut out = String::new();
    out.append("#define ");
    push_upper(&mut out, name);
    out.append("_SIZE ");
    push_numeral(&mut out, binary.len(), 10, 1);
    out.append("\n#define ");
    push_upper(&mut out, name);
    out.append(" {");
    push_define_lines(&mut out, binary, tab_size);
    out.append("}\n");
    proof {
        assert(out@ =~= c_define_text(binary@, name@, tab_size as nat));
    }
    out
}

/// The Rust constant: `const <name>: [u8; <len>] = [ ... ];`.
pub fn binary_to_rust_const(binary: &[u8], name: &str, tab_size: usize) -> (r: String)
    ensures
        r@ == rust_const_text(binary@, name@, tab_size as nat),
{
    let mut out = String::new();
    out.append("const ");
    out.append(name);
    out.append(": [u8; ");
    push_numeral(&mut out, binary.len(), 10, 1);
    out.append("] = [\n");
    push_spaces(&mut out, tab_size);
    push_literal_lines(&mut out, binary, tab_size);
    out.append("\n];\n");
    proof {
        assert(out@ =~= rust_const_text(binary@, name@, tab_size as nat));
    }
    out
}

/// The Python constant: `<name> = bytes([ ... ])`.
pub fn binary_to_python_const(binary: &[u8], name: &str, tab_size: usize) -> (r: String)
    ensures
        r@ == python_const_text(binary@, name@, tab_size as nat),
{
    let mut out = String::new();
    out.append(name);
    out.append(" = bytes([\n");
    push_spaces(&mut out, tab_size);
    push_literal_lines(&mut out, binary, tab_size);
    out.append("\n])\n");
    proof {
        assert(out@ =~= python_const_text(binary@, name@, tab_size as nat));
    }
    out
}

/// The C# constant: `public static readonly byte[] <name> = new byte[] { ... };`.
pub fn binary_to_csharp_const(binary: &[u8], name: &str, tab_size: usize) -> (r: String)
    ensures
        r@ == csharp_const_text(binary@, name@, tab_size as nat),
{
    let mut out = String::new();
    out.append("public static readonly byte[] ");
    out.append(name);
    out.append(" = new byte[] {\n");
    push_spaces(&mut out, tab_size);
    push_literal_lines(&mut out, binary, tab_size);
    out.append("\n};\n");
    proof {
        assert(out@ =~= csharp_const_text(binary@, name@, tab_size as nat));
    }
    out
}

/// The JavaScript constant: `const <name> = new Uint8Array([ ... ]);`.
pub fn binary_to_javascript_const(binary: &[u8], name: &str, tab_size: usize) -> (r: String)
    ensures
        r@ == javascript_const_text(binary@, name@, tab_size as nat),
{
    let mut out = String::new();
    out.append("const ");
    out.append(name);
    out.append(" = new Uint8Array([\n");
    push_spaces(&mut out, tab_size);
    push_literal_lines(&mut out, binary, tab_size);
    out.append("\n]);\n");
    proof {
        assert(out@ =~= javascript_const_text(binary@, name@, tab_size as nat));
    }
    out
}

/// The Go constant: `var <name> = []byte{ ... }`.
pub fn binary_to_go_const(binary: &[u8], name: &str, tab_size: usize) -> (r: String)
    ensures
        r@ == go_const_text(binary@, name@, tab_size as nat),
{
    let mut out = String::new();
    out.append("var ");
    out.append(name);
    out.append(" = []byte{\n");
    push_spaces(&mut out, tab_size);
    push_literal_lines(&mut out, binary, tab_size);
    out.append("\n}\n");
    proof {
        assert(out@ =~= go_const_text(binary@, name@, tab_size as nat));
    }
    out
}

/// The Java constant: `public static final byte[] <name> = new byte[] { ... };`.
pub fn binary_to_java_const(binary: &[u8], name: &str, tab_size: usize) -> (r: String)
    ensures
        r@ == java_const_text(binary@, name@, tab_size as nat),
{
    let mut out = String::new();
    out.append("public static final byte[] ");
    out.append(name);
    out.append(" = new byte[] {\n");
    push_spaces(&mut out, tab_size);
    push_literal_lines(&mut out, binary, tab_size);
    out.append("\n};\n");
    proof {
        assert(out@ =~= java_const_text(binary@, name@, tab_size as nat));
    }
    out
}

} // verus!

//! Format selection: a user-supplied selector token is lowercased and
//! trimmed of surrounding whitespace, then looked up in a fixed
//! many-to-one alias table that names one output kind; `render` maps an
//! output kind to the matching formatter.

use vstd::prelude::*;
use vstd::string::StrSliceExecFns;
use crate::dump::{binary_dump, binary_to_binary, binary_to_hex, hex_dump};
use crate::source_const::{
    binary_to_c_const, binary_to_c_define, binary_to_csharp_const, binary_to_javascript_const,
    binary_to_python_const, binary_to_rust_const, c_const_text, c_define_text, csharp_const_text,
    javascript_const_text, python_const_text, rust_const_text,
};
use crate::text::push_char;

verus! {

/// The output representations that a selector can name.
#[derive(Clone, Copy, PartialEq, Eq, Debug, Structural)]
pub enum OutputKind {
    HexDump,
    BinaryDump,
    CConst,
    CDefine,
    RustConst,
    PythonConst,
    CsharpConst,
    JavascriptConst,
}

/// Whitespace as the standard `str::trim` sees it: the characters with
/// the Unicode `White_Space` property.
pub open spec fn is_space_char(c: char) -> bool {
    let u = c as u32;
    (9 <= u && u <= 13) || u == 0x20 || u == 0x85 || u == 0xa0 || u == 0x1680 || (0x2000 <= u && u
        <= 0x200a) || u == 0x2028 || u == 0x2029 || u == 0x202f || u == 0x205f || u == 0x3000
}

/// A character with its ASCII uppercase letter replaced by the
/// corresponding lowercase letter; all other characters unchanged.
pub open spec fn lower_char(c: char) -> char {
    if 0x41 <= c as u32 && c as u32 <= 0x5a {
        ((c as u32 + 0x20) as u8) as char
    } else {
        c
    }
}

/// The string without its leading whitespace.
pub open spec fn trim_front(s: Seq<char>) -> Seq<char>
    decreases s.len(),
{
    if s.len() > 0 && is_space_char(s[0]) {
        trim_front(s.drop_first())
    } else {
        s
    }
}

/// The string without its trailing whitespace.
pub open spec fn trim_back(s: Seq<char>) -> Seq<char>
    decreases s.len(),
{
    if s.len() > 0 && is_space_char(s[s.len() - 1]) {
        trim_back(s.drop_last())
    } else {
        s
    }
}

/// A selector in normal form: lowercased, then trimmed of surrounding
/// whitespace.
pub open spec fn normalized(s: Seq<char>) -> Seq<char> {
    trim_back(trim_front(s.map_values(|c: char| lower_char(c))))
}

/// The fixed alias table: each normalized selector that names an output
/// kind, grouped many-to-one; anything else is unrecognized.
pub open spec fn alias_kind(s: Seq<char>) -> Option<OutputKind> {
    if s == "bin"@ || s == "binary"@ || s == "raw"@ {
        Some(OutputKind::BinaryDump)
    } else if s == "hex"@ || s == "hexadecimal"@ || s == "hexa"@ || s == "hexa-decimal"@ || s
        == "hexa_decimal"@ {
        Some(OutputKind::HexDump)
    } else if s == "c"@ || s == "cpp"@ || s == "c++"@ || s == "cxx"@ || s == "h"@ || s == "hpp"@
        || s == "h++"@ || s == "hxx"@ {
        Some(OutputKind::CConst)
    } else if s == "cdef"@ || s == "c-def"@ || s == "c_def"@ || s == "def"@ || s == "define"@ || s
        == "cppdef"@ {
        Some(OutputKind::CDefine)
    } else if s == "rust"@ || s == "rs"@ || s == "rustlang"@ || s == "rust-lang"@ {
        Some(OutputKind::RustConst)
    } else if s == "csharp"@ || s == "cs"@ || s == "c#"@ || s == "c-sharp"@ || s == "c_sharp"@ {
        Some(OutputKind::CsharpConst)
    } else if s == "python"@ || s == "py"@ || s == "python3"@ || s == "py3"@ || s == "python_3"@ {
        Some(OutputKind::PythonConst)
    } else if s == "javascript"@ || s == "js"@ || s == "typescript"@ || s == "ts"@ {
        Some(OutputKind::JavascriptConst)
    } else {
        None
    }
}

/// The text that `render` produces for each output kind.
pub open spec fn rendered_text(kind: OutputKind, bytes: Seq<u8>, name: Seq<char>, tab: nat) -> Seq<
    char,
> {
    match kind {
        OutputKind::HexDump => hex_dump(bytes),
        OutputKind::BinaryDump => binary_dump(bytes),
        OutputKind::CConst => c_const_text(bytes, name, tab),
        OutputKind::CDefine => c_define_text(bytes, name, tab),
        OutputKind::RustConst => rust_const_text(bytes, name, tab),
        OutputKind::PythonConst => python_const_text(bytes, name, tab),
        OutputKind::CsharpConst => csharp_const_text(bytes, name, tab),
        OutputKind::JavascriptConst => javascript_const_text(bytes, name, tab),
    }
}

/// Alias-group idempotence: two selectors that the table sends to the
/// same output kind render byte-identical output on the same inputs.
pub proof fn lemma_alias_group_renders_identically(
    s1: Seq<char>,
    s2: Seq<char>,
    bytes: Seq<u8>,
    name: Seq<char>,
    tab: nat,
)
    requires
        alias_kind(normalized(s1)) is Some,
        alias_kind(normalized(s1)) == alias_kind(normalized(s2)),
    ensures
        rendered_text(alias_kind(normalized(s1))->Some_0, bytes, name, tab) == rendered_text(
            alias_kind(normalized(s2))->Some_0,
            bytes,
            name,
            tab,
        ),
{
}

proof fn lemma_trim_front_at(s: Seq<char>, k: int)
    requires
        0 <= k <= s.len(),
        forall|i: int| 0 <= i < k ==> is_space_char(s[i]),
        k == s.len() || !is_space_char(s[k]),
    ensures
        trim_front(s) == s.skip(k),
    decreases k,
{
    if k == 0 {
        assert(s.skip(0) =~= s);
    } else {
        lemma_trim_front_at(s.drop_first(), k - 1);
        assert(s.drop_first().skip(k - 1) =~= s.skip(k));
    }
}

proof fn lemma_trim_back_at(s: Seq<char>, k: int)
    requires
        0 <= k <= s.len(),
        forall|j: int| k <= j < s.len() ==> is_space_char(s[j]),
        k == 0 || !is_space_char(s[k - 1]),
    ensures
        trim_back(s) == s.take(k),
    decreases s.len() - k,
{
    if k == s.len() {
        assert(s.take(k) =~= s);
        if s.len() > 0 && is_space_char(s[s.len() - 1]) {
            lemma_trim_back_at(s.drop_last(), k - 1);
            assert(s.drop_last().take(k - 1) =~= s.take(k - 1));
            assert(false);
        }
    } else {
        if s.len() > 0 && is_space_char(s[s.len() - 1]) {
            lemma_trim_back_at(s.drop_last(), k);
            assert(s.drop_last().take(k) =~= s.take(k));
        } else {
            assert(k == s.len() || !(k < s.len()) || !is_space_char(s[s.len() - 1]));
            assert(forall|j: int| k <= j < s.len() ==> is_space_char(s[j]));
            if k < s.len() {
                assert(is_space_char(s[s.len() - 1]));
                assert(false);
            }
            assert(s.take(k) =~= s);
        }
    }
}

/// Whether `c` has the Unicode `White_Space` property.
fn is_space(c: char) -> (r: bool)
    ensures
        r == is_space_char(c),
{
    let u = c as u32;
    (9 <= u && u <= 13) || u == 0x20 || u == 0x85 || u == 0xa0 || u == 0x1680 || (0x2000 <= u && u
        <= 0x200a) || u == 0x2028 || u == 0x2029 || u == 0x202f || u == 0x205f || u == 0x3000
}

/// The selector in normal form: each ASCII uppercase letter lowercased,
/// surrounding whitespace removed.
fn normalize(selector: &str) -> (r: String)
    ensures
        r@ == normalized(selector@),
{
    let ghost sv = selector@;
    let ghost m = sv.map_values(|c: char| lower_char(c));
    let n = selector.unicode_len();
    let mut start: usize = n;
    let mut i: usize = 0;
    while i < n
        invariant
            sv == selector@,
            n == sv.len(),
            i <= n,
            start == n || start < i,
            start == n ==> forall|j: int| 0 <= j < i ==> is_space_char(sv[j]),
            start < n ==> !is_space_char(sv[start as int]),
            start < n ==> forall|j: int| 0 <= j < start ==> is_space_char(sv[j]),
        decreases n - i,
    {
        if start == n {
            if !is_space(selector.get_char(i)) {
                start = i;
            }
        }
        i = i + 1;
    }
    let mut end: usize = start;
    let mut i: usize = start;
    while i < n
        invariant
            sv == selector@,
            n == sv.len(),
            start <= end <= i <= n,
            forall|j: int| end <= j < i ==> is_space_char(sv[j]),
            end == start || !is_space_char(sv[end - 1]),
        decreases n - i,
    {
        if !is_space(selector.get_char(i)) {
            end = i + 1;
        }
        i = i + 1;
    }
    let mut out = String::new();
    let mut k: usize = start;
    while k < end
        invariant
            sv == selector@,
            n == sv.len(),
            start <= k <= end <= n,
            m == sv.map_values(|c: char| lower_char(c)),
            out@ == m.subrange(start as int, k as int),
        decreases end - k,
    {
        let c = selector.get_char(k);
        let u = c as u32;
        if 0x41 <= u && u <= 0x5a {
            push_char(&mut out, ((u + 0x20) as u8) as char);
        } else {
            push_char(&mut out, c);
        }
        proof {
            assert(m[k as int] == lower_char(sv[k as int]));
            assert(out@ =~= m.subrange(start as int, k + 1));
        }
        k = k + 1;
    }
    proof {
        assert(m.len() == sv.len());
        assert forall|i: int| 0 <= i < m.len() implies is_space_char(m[i]) == is_space_char(
            sv[i],
        ) by {
            assert(m[i] == lower_char(sv[i]));
        }
        lemma_trim_front_at(m, start as int);
        let t = m.skip(start as int);
        lemma_trim_back_at(t, end - start);
        assert(t.take(end - start) =~= m.subrange(start as int, end as int));
    }
    out
}

/// Whether two strings hold the same characters.
fn str_eq(a: &str, b: &str) -> (r: bool)
    ensures
        r == (a@ == b@),
{
    let na = a.unicode_len();
    let nb = b.unicode_len();
    if na != nb {
        proof {
            if a@ == b@ {
                assert(a@.len() == b@.len());
            }
        }
        return false;
    }
    let mut k: usize = 0;
    while k < na
        invariant
            na == a@.len(),
            na == b@.len(),
            k <= na,
            forall|i: int| 0 <= i < k ==> a@[i] == b@[i],
        decreases na - k,
    {
        if a.get_char(k) != b.get_char(k) {
            return false;
        }
        k = k + 1;
    }
    proof {
        assert(a@ =~= b@);
    }
    true
}

/// Resolves a raw selector through the alias table: the selector is
/// lowercased and trimmed, then matched against every alias; `None`
/// reports an unrecognized format.
pub fn resolve_format(selector: &str) -> (r: Option<OutputKind>)
    ensures
        r == alias_kind(normalized(selector@)),
{
    let norm = normalize(selector);
    let t = norm.as_str();
    if str_eq(t, "bin") || str_eq(t, "binary") || str_eq(t, "raw") {
        Some(OutputKind::BinaryDump)
    } else if str_eq(t, "hex") || str_eq(t, "hexadecimal") || str_eq(t, "hexa") || str_eq(
        t,
        "hexa-decimal",
    ) || str_eq(t, "hexa_decimal") {
        Some(OutputKind::HexDump)
    } else if str_eq(t, "c") || str_eq(t, "cpp") || str_eq(t, "c++") || str_eq(t, "cxx") || str_eq(
        t,
        "h",
    ) || str_eq(t, "hpp") || str_eq(t, "h++") || str_eq(t, "hxx") {
        Some(OutputKind::CConst)
    } else if str_eq(t, "cdef") || str_eq(t, "c-def") || str_eq(t, "c_def") || str_eq(t, "def")
        || str_eq(t, "define") || str_eq(t, "cppdef") {
        Some(OutputKind::CDefine)
    } else if str_eq(t, "rust") || str_eq(t, "rs") || str_eq(t, "rustlang") || str_eq(
        t,
        "rust-lang",
    ) {
        Some(OutputKind::RustConst)
    } else if str_eq(t, "csharp") || str_eq(t, "cs") || str_eq(t, "c#") || str_eq(t, "c-sharp")
        || str_eq(t, "c_sharp") {
        Some(OutputKind::CsharpConst)
    } else if str_eq(t, "python") || str_eq(t, "py") || str_eq(t, "python3") || str_eq(t, "py3")
        || str_eq(t, "python_3") {
        Some(OutputKind::PythonConst)
    } else if str_eq(t, "javascript") || str_eq(t, "js") || str_eq(t, "typescript") || str_eq(
        t,
        "ts",
    ) {
        Some(OutputKind::JavascriptConst)
    } else {
        None
    }
}

/// Runs the formatter that `kind` names on the given bytes, constant
/// name and indentation width.
pub fn render(kind: OutputKind, binary: &[u8], name: &str, tab_size: usize) -> (r: String)
    ensures
        r@ == rendered_text(kind, binary@, name@, tab_size as nat),
{
    match kind {
        OutputKind::HexDump => binary_to_hex(binary),
        OutputKind::BinaryDump => binary_to_binary(binary),
        OutputKind::CConst => binary_to_c_const(binary, name, tab_size),
        OutputKind::CDefine => binary_to_c_define(binary, name, tab_size),
        OutputKind::RustConst => binary_to_rust_const(binary, name, tab_size),
        OutputKind::PythonConst => binary_to_python_const(binary, name, tab_size),
        OutputKind::CsharpConst => binary_to_csharp_const(binary, name, tab_size),
        OutputKind::JavascriptConst => binary_to_javascript_const(binary, name, tab_size),
    }
}

} // verus!

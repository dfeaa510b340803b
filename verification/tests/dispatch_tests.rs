use bin2const::dispatch::{render, resolve_format, OutputKind};
use bin2const::{binary_to_c_const, binary_to_csharp_const, binary_to_hex};

#[test]
fn csharp_selector_any_case_with_whitespace() {
    assert_eq!(resolve_format(" C# "), Some(OutputKind::CsharpConst));
    assert_eq!(resolve_format("c#"), Some(OutputKind::CsharpConst));
    assert_eq!(resolve_format("\tC-Sharp\n"), Some(OutputKind::CsharpConst));
}

#[test]
fn unknown_selector_is_rejected() {
    assert_eq!(resolve_format("xyz"), None);
    assert_eq!(resolve_format(""), None);
    assert_eq!(resolve_format("   "), None);
    assert_eq!(resolve_format("c #"), None);
}

#[test]
fn binary_dump_aliases() {
    for alias in ["bin", "binary", "raw", "BIN", " Raw "] {
        assert_eq!(resolve_format(alias), Some(OutputKind::BinaryDump), "{alias}");
    }
}

#[test]
fn hex_dump_aliases() {
    for alias in ["hex", "hexadecimal", "hexa", "hexa-decimal", "hexa_decimal", "HeXa_DeCiMal"] {
        assert_eq!(resolve_format(alias), Some(OutputKind::HexDump), "{alias}");
    }
}

#[test]
fn c_const_aliases() {
    for alias in ["c", "cpp", "c++", "cxx", "h", "hpp", "h++", "hxx"] {
        assert_eq!(resolve_format(alias), Some(OutputKind::CConst), "{alias}");
    }
}

#[test]
fn c_define_aliases() {
    for alias in ["cdef", "c-def", "c_def", "def", "define", "cppdef"] {
        assert_eq!(resolve_format(alias), Some(OutputKind::CDefine), "{alias}");
    }
}

#[test]
fn rust_aliases() {
    for alias in ["rust", "rs", "rustlang", "rust-lang"] {
        assert_eq!(resolve_format(alias), Some(OutputKind::RustConst), "{alias}");
    }
}

#[test]
fn csharp_aliases() {
    for alias in ["csharp", "cs", "c#", "c-sharp", "c_sharp"] {
        assert_eq!(resolve_format(alias), Some(OutputKind::CsharpConst), "{alias}");
    }
}

#[test]
fn python_aliases() {
    for alias in ["python", "py", "python3", "py3", "python_3"] {
        assert_eq!(resolve_format(alias), Some(OutputKind::PythonConst), "{alias}");
    }
}

#[test]
fn javascript_aliases_include_typescript() {
    for alias in ["javascript", "js", "typescript", "ts"] {
        assert_eq!(
            resolve_format(alias),
            Some(OutputKind::JavascriptConst),
            "{alias}"
        );
    }
}

#[test]
fn aliases_in_one_group_render_identical_output() {
    let bytes = [0x10u8, 0x20, 0x30];
    let via_c = render(resolve_format("c").unwrap(), &bytes, "n", 4);
    let via_cpp = render(resolve_format("CPP").unwrap(), &bytes, "n", 4);
    let via_hxx = render(resolve_format(" hxx ").unwrap(), &bytes, "n", 4);
    assert_eq!(via_c, via_cpp);
    assert_eq!(via_c, via_hxx);
}

#[test]
fn render_matches_each_formatter() {
    let bytes = [0x01u8, 0x02];
    assert_eq!(
        render(OutputKind::HexDump, &bytes, "ignored", 4),
        binary_to_hex(&bytes)
    );
    assert_eq!(
        render(OutputKind::CConst, &bytes, "n", 4),
        binary_to_c_const(&bytes, "n", 4)
    );
    assert_eq!(
        render(OutputKind::CsharpConst, &bytes, "n", 4),
        binary_to_csharp_const(&bytes, "n", 4)
    );
}

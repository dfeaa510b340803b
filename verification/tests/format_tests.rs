use bin2const::{
    binary_to_binary, binary_to_c_const, binary_to_c_define, binary_to_csharp_const,
    binary_to_go_const, binary_to_hex, binary_to_java_const, binary_to_javascript_const,
    binary_to_python_const, binary_to_rust_const,
};

#[test]
fn hex_dump_four_bytes() {
    let mut expected = String::from("00000000  00 01 02 03 ");
    expected.push_str(&" ".repeat(40));
    expected.push_str(" |....");
    expected.push_str(&" ".repeat(12));
    expected.push_str("|\n");
    assert_eq!(binary_to_hex(&[0x00, 0x01, 0x02, 0x03]), expected);
}

#[test]
fn hex_dump_empty_is_empty() {
    assert_eq!(binary_to_hex(&[]), "");
}

#[test]
fn binary_dump_empty_is_empty() {
    assert_eq!(binary_to_binary(&[]), "");
}

#[test]
fn hex_dump_printable_ascii_column() {
    let out = binary_to_hex(b"AB");
    assert_eq!(
        out,
        format!(
            "00000000  41 42 {}|AB{}|\n",
            " ".repeat(47),
            " ".repeat(14)
        )
    );
}

#[test]
fn hex_dump_full_row_has_no_dangling_row() {
    let bytes: Vec<u8> = (0u8..16).collect();
    let out = binary_to_hex(&bytes);
    assert_eq!(out.matches('\n').count(), 1);
    assert_eq!(out.len(), 82);
}

#[test]
fn hex_dump_seventeen_bytes_has_two_rows() {
    let bytes: Vec<u8> = (0u8..17).collect();
    let out = binary_to_hex(&bytes);
    assert_eq!(out.matches('\n').count(), 2);
    assert_eq!(out.len(), 164);
    assert!(out.starts_with("00000000  "));
    assert!(out[82..].starts_with("00000010  10 "));
}

#[test]
fn hex_dump_rows_round_up() {
    let bytes: Vec<u8> = (0u8..33).collect();
    let out = binary_to_hex(&bytes);
    assert_eq!(out.matches('\n').count(), 3);
}

#[test]
fn hex_dump_lowercase_digits() {
    let out = binary_to_hex(&[0xab, 0xcd, 0xef]);
    assert!(out.starts_with("00000000  ab cd ef "));
}

#[test]
fn binary_dump_four_bytes() {
    let mut expected = String::from("00000000  00000000 00000001 00000010 00000011 ");
    expected.push_str(&" ".repeat(112));
    expected.push_str(" |....");
    expected.push_str(&" ".repeat(12));
    expected.push_str("|\n");
    assert_eq!(binary_to_binary(&[0x00, 0x01, 0x02, 0x03]), expected);
}

#[test]
fn binary_dump_row_width() {
    let bytes: Vec<u8> = (0u8..16).collect();
    let out = binary_to_binary(&bytes);
    assert_eq!(out.len(), 178);
    assert_eq!(out.matches('\n').count(), 1);
}

#[test]
fn c_const_four_bytes() {
    assert_eq!(
        binary_to_c_const(&[0x00, 0x01, 0x02, 0x03], "test_txt", 4),
        "const unsigned char test_txt[] = {\n    0x00, 0x01, 0x02, 0x03\n};\n"
    );
}

#[test]
fn c_const_empty() {
    assert_eq!(
        binary_to_c_const(&[], "test_txt", 4),
        "const unsigned char test_txt[] = {\n    \n};\n"
    );
}

#[test]
fn c_const_sixteen_bytes_single_line() {
    let bytes: Vec<u8> = (0u8..16).collect();
    let out = binary_to_c_const(&bytes, "t", 4);
    assert_eq!(
        out,
        "const unsigned char t[] = {\n    0x00, 0x01, 0x02, 0x03, 0x04, 0x05, 0x06, 0x07, \
         0x08, 0x09, 0x0a, 0x0b, 0x0c, 0x0d, 0x0e, 0x0f\n};\n"
    );
}

#[test]
fn c_const_seventeen_bytes_wraps_once() {
    let bytes: Vec<u8> = (0u8..17).collect();
    let out = binary_to_c_const(&bytes, "t", 4);
    assert_eq!(
        out,
        "const unsigned char t[] = {\n    0x00, 0x01, 0x02, 0x03, 0x04, 0x05, 0x06, 0x07, \
         0x08, 0x09, 0x0a, 0x0b, 0x0c, 0x0d, 0x0e, 0x0f, \n    0x10\n};\n"
    );
}

#[test]
fn c_const_custom_tab_size() {
    assert_eq!(
        binary_to_c_const(&[0xff], "t", 2),
        "const unsigned char t[] = {\n  0xff\n};\n"
    );
}

#[test]
fn c_define_four_bytes() {
    assert_eq!(
        binary_to_c_define(&[0x00, 0x01, 0x02, 0x03], "test_txt", 4),
        "#define TEST_TXT_SIZE 4\n#define TEST_TXT {        0x00, 0x01, 0x02, 0x03}\n"
    );
}

#[test]
fn c_define_eight_bytes_single_line() {
    let bytes: Vec<u8> = (0u8..8).collect();
    let out = binary_to_c_define(&bytes, "test_txt", 4);
    assert_eq!(
        out,
        "#define TEST_TXT_SIZE 8\n#define TEST_TXT {        0x00, 0x01, 0x02, 0x03, 0x04, \
         0x05, 0x06, 0x07}\n"
    );
}

#[test]
fn c_define_sixteen_bytes_two_continued_lines() {
    let bytes: Vec<u8> = (0u8..16).collect();
    let out = binary_to_c_define(&bytes, "test_txt", 4);
    assert_eq!(
        out,
        "#define TEST_TXT_SIZE 16\n#define TEST_TXT {        0x00, 0x01, 0x02, 0x03, 0x04, \
         0x05, 0x06, 0x07, \\\n        0x08, 0x09, 0x0a, 0x0b, 0x0c, 0x0d, 0x0e, 0x0f}\n"
    );
}

#[test]
fn c_define_empty() {
    assert_eq!(
        binary_to_c_define(&[], "test_txt", 4),
        "#define TEST_TXT_SIZE 0\n#define TEST_TXT {}\n"
    );
}

#[test]
fn c_define_uppercases_only_ascii_letters() {
    let out = binary_to_c_define(&[0x01], "te-st9x", 4);
    assert_eq!(
        out,
        "#define TE-ST9X_SIZE 1\n#define TE-ST9X {        0x01}\n"
    );
}

#[test]
fn rust_const_four_bytes() {
    assert_eq!(
        binary_to_rust_const(&[0x00, 0x01, 0x02, 0x03], "test_txt", 4),
        "const test_txt: [u8; 4] = [\n    0x00, 0x01, 0x02, 0x03\n];\n"
    );
}

#[test]
fn rust_const_empty() {
    assert_eq!(
        binary_to_rust_const(&[], "t", 4),
        "const t: [u8; 0] = [\n    \n];\n"
    );
}

#[test]
fn python_const_four_bytes() {
    assert_eq!(
        binary_to_python_const(&[0x00, 0x01, 0x02, 0x03], "test_txt", 4),
        "test_txt = bytes([\n    0x00, 0x01, 0x02, 0x03\n])\n"
    );
}

#[test]
fn csharp_const_four_bytes() {
    assert_eq!(
        binary_to_csharp_const(&[0x00, 0x01, 0x02, 0x03], "test_txt", 4),
        "public static readonly byte[] test_txt = new byte[] {\n    0x00, 0x01, 0x02, 0x03\n};\n"
    );
}

#[test]
fn javascript_const_four_bytes() {
    assert_eq!(
        binary_to_javascript_const(&[0x00, 0x01, 0x02, 0x03], "test_txt", 4),
        "const test_txt = new Uint8Array([\n    0x00, 0x01, 0x02, 0x03\n]);\n"
    );
}

#[test]
fn go_const_four_bytes() {
    assert_eq!(
        binary_to_go_const(&[0x00, 0x01, 0x02, 0x03], "test_txt", 4),
        "var test_txt = []byte{\n    0x00, 0x01, 0x02, 0x03\n}\n"
    );
}

#[test]
fn java_const_four_bytes() {
    assert_eq!(
        binary_to_java_const(&[0x00, 0x01, 0x02, 0x03], "test_txt", 4),
        "public static final byte[] test_txt = new byte[] {\n    0x00, 0x01, 0x02, 0x03\n};\n"
    );
}

/// Reads the `0x`-prefixed literals back out of rendered text, in
/// order, as the round-trip property describes.
fn read_back_literals(text: &str) -> Vec<u8> {
    let chars: Vec<char> = text.chars().collect();
    let mut out = Vec::new();
    let mut i = 0;
    while i < chars.len() {
        if i + 4 <= chars.len() && chars[i] == '0' && chars[i + 1] == 'x' {
            let hi = chars[i + 2].to_digit(16);
            let lo = chars[i + 3].to_digit(16);
            if let (Some(hi), Some(lo)) = (hi, lo) {
                out.push((hi * 16 + lo) as u8);
                i += 4;
                continue;
            }
        }
        i += 1;
    }
    out
}

#[test]
fn round_trip_every_byte_value_c_const() {
    let bytes: Vec<u8> = (0u8..=255).collect();
    let out = binary_to_c_const(&bytes, "all_bytes", 4);
    assert_eq!(read_back_literals(&out), bytes);
}

#[test]
fn round_trip_every_byte_value_c_define() {
    let bytes: Vec<u8> = (0u8..=255).collect();
    let out = binary_to_c_define(&bytes, "all_bytes", 4);
    assert_eq!(read_back_literals(&out), bytes);
}

#[test]
fn round_trip_rust_and_python_and_go() {
    let bytes: Vec<u8> = vec![0xde, 0xad, 0xbe, 0xef, 0x00, 0x10, 0xff];
    assert_eq!(
        read_back_literals(&binary_to_rust_const(&bytes, "b", 4)),
        bytes
    );
    assert_eq!(
        read_back_literals(&binary_to_python_const(&bytes, "b", 4)),
        bytes
    );
    assert_eq!(
        read_back_literals(&binary_to_go_const(&bytes, "b", 4)),
        bytes
    );
    assert_eq!(
        read_back_literals(&binary_to_javascript_const(&bytes, "b", 4)),
        bytes
    );
    assert_eq!(
        read_back_literals(&binary_to_csharp_const(&bytes, "b", 4)),
        bytes
    );
    assert_eq!(
        read_back_literals(&binary_to_java_const(&bytes, "b", 4)),
        bytes
    );
}

#[test]
fn output_always_ends_with_newline() {
    let bytes = [0x01u8, 0x02];
    assert!(binary_to_hex(&bytes).ends_with('\n'));
    assert!(binary_to_c_const(&bytes, "n", 4).ends_with('\n'));
    assert!(binary_to_c_define(&bytes, "n", 4).ends_with('\n'));
    assert!(binary_to_rust_const(&bytes, "n", 4).ends_with('\n'));
    assert!(binary_to_python_const(&bytes, "n", 4).ends_with('\n'));
    assert!(binary_to_csharp_const(&bytes, "n", 4).ends_with('\n'));
    assert!(binary_to_javascript_const(&bytes, "n", 4).ends_with('\n'));
    assert!(binary_to_go_const(&bytes, "n", 4).ends_with('\n'));
    assert!(binary_to_java_const(&bytes, "n", 4).ends_with('\n'));
}

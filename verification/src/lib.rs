//! Formatting of raw byte sequences as text: memory-dump views (hex and
//! binary) and constant-array declarations for several programming
//! languages, together with a dispatcher that resolves a user-supplied
//! format selector through a fixed alias table.

pub mod dispatch;
pub mod dump;
pub mod round_trip;
pub mod source_const;
pub mod text;

pub use dump::binary_to_binary;
pub use dump::binary_to_hex;
pub use source_const::binary_to_c_const;
pub use source_const::binary_to_c_define;
pub use source_const::binary_to_csharp_const;
pub use source_const::binary_to_go_const;
pub use source_const::binary_to_java_const;
pub use source_const::binary_to_javascript_const;
pub use source_const::binary_to_python_const;
pub use source_const::binary_to_rust_const;

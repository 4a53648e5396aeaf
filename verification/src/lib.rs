//! Parsing and querying of Unix mount tables.
//!
//! Two line-oriented text formats are understood: the modern per-process
//! mount-table format (with mount identifiers and tree structure) and the
//! legacy global mount-table format.  A table is built in one pass over a
//! text stream, failing fast on the first malformed line, and then answers
//! membership queries over its ordered record sequence.

mod fstype;
mod options;
mod point;
mod table;
mod text;

pub use fstype::FsType;
pub use fstype::FsTypeV;
pub use fstype::fs_name_of;
pub use fstype::fs_type_of_name;
pub use fstype::known_fs_name;
pub use fstype::lemma_fs_type_reparse;
pub use fstype::lemma_fs_type_round_trip;
pub use options::MountOptions;
pub use options::MountOptionsV;
pub use options::ReadWrite;
pub use options::is_mode_token;
pub use options::mode_of;
pub use options::others_of;
pub use options::parse_options;
pub use point::MountPoint;
pub use point::MountPointV;
pub use point::is_majmin;
pub use point::sep_index_from;
pub use point::spec_parse_modern_line;
pub use table::MountInfo;
pub use table::ParseError;
pub use table::ParseErrorV;
pub use table::lemma_blank_line;
pub use table::lemma_legacy_error_is_first;
pub use table::lemma_legacy_fail_fast;
pub use table::lemma_legacy_fields_absent;
pub use table::lemma_modern_error_is_first;
pub use table::lemma_modern_fail_fast;
pub use table::lemma_parse_deterministic;
pub use table::spec_parse_legacy;
pub use table::spec_parse_legacy_from;
pub use table::spec_parse_legacy_line;
pub use table::spec_parse_modern;
pub use table::spec_parse_modern_from;
pub use text::all_digits;
pub use text::digit_val;
pub use text::digits_value;
pub use text::is_digit;
pub use text::is_ws;
pub use text::parses_as_u32;
pub use text::spec_lines;
pub use text::split_char;
pub use text::strip_cr;
pub use text::tokenize;

//! One row of a mount table, and the parser for the modern per-process
//! mount-table line format.
//!
//! A modern line holds, in order: a numeric mount id, the numeric id of the
//! parent mount, a `major:minor` device pair (validated in shape only), the
//! filesystem root, the mount path, a comma-separated option list, zero or
//! more optional tag tokens, a lone `-` closing the tag run, the filesystem
//! type name, the mount source, and optional super options (ignored).

use crate::fstype::FsType;
use crate::fstype::FsTypeV;
use crate::fstype::fs_type_of_name;
use crate::options::MountOptions;
use crate::options::MountOptionsV;
use crate::options::parse_options;
use crate::text::all_digits;
use crate::text::digits_value;
use crate::text::is_digit;
use crate::text::parse_u32_str;
use crate::text::parses_as_u32;
use crate::text::str_eq;
use crate::text::tokenize;
use crate::text::tokenize_str;
use vstd::prelude::*;

verus! {

/// One mount point.  Records read from the legacy format carry no id, no
/// parent id and no root: those fields are `None`, never invented.
#[derive(Debug)]
pub struct MountPoint {
    /// Identifier of this mount.  Unique among mounted filesystems at one
    /// instant, but reusable after an unmount: not a durable key.
    pub id: Option<u32>,
    /// Identifier of the parent mount, an advisory back-reference.
    pub parent_id: Option<u32>,
    /// Root of the filesystem as seen from outside it.
    pub root: Option<String>,
    /// Source description: a device, a pseudo-source tag, or a bind-source
    /// path.
    pub what: String,
    /// The externally visible attachment point.
    pub path: String,
    /// The filesystem's kind.
    pub fstype: FsType,
    /// The mount's option list, decomposed.
    pub options: MountOptions,
}

/// The mathematical value of a [`MountPoint`].
pub struct MountPointV {
    pub id: Option<u32>,
    pub parent_id: Option<u32>,
    pub root: Option<Seq<char>>,
    pub what: Seq<char>,
    pub path: Seq<char>,
    pub fstype: FsTypeV,
    pub options: MountOptionsV,
}

impl View for MountPoint {
    type V = MountPointV;

    open spec fn view(&self) -> MountPointV {
        MountPointV {
            id: self.id,
            parent_id: self.parent_id,
            root: self.root.deep_view(),
            what: self.what@,
            path: self.path@,
            fstype: self.fstype@,
            options: self.options@,
        }
    }
}

impl DeepView for MountPoint {
    type V = MountPointV;

    open spec fn deep_view(&self) -> MountPointV {
        self.view()
    }
}

/// Whether `s` has the shape of a `major:minor` device pair: one colon,
/// every other character a decimal digit.
pub open spec fn is_majmin(s: Seq<char>) -> bool {
    exists|i: int|
        0 <= i < s.len() && s[i] == ':' && (forall|j: int|
            0 <= j < s.len() && j != i ==> is_digit(#[trigger] s[j]))
}

/// Checks the `major:minor` device-pair shape.
fn is_majmin_str(s: &str) -> (r: bool)
    ensures
        r == is_majmin(s@),
{
    let n = s.unicode_len();
    let mut colon: Option<usize> = None;
    let mut i: usize = 0;
    while i < n
        invariant
            n == s@.len(),
            i <= n,
            (match colon {
                Some(c) => c < i && s@[c as int] == ':' && (forall|k: int|
                    0 <= k < i && k != c ==> is_digit(#[trigger] s@[k])),
                None => forall|k: int| 0 <= k < i ==> is_digit(#[trigger] s@[k]),
            }),
        decreases n - i,
    {
        let c = s.get_char(i);
        if c == ':' {
            match colon {
                None => {
                    colon = Some(i);
                },
                Some(first) => {
                    proof {
                        assert forall|w: int|
                            !(0 <= w < s@.len() && s@[w] == ':' && (forall|j: int|
                                0 <= j < s@.len() && j != w ==> is_digit(#[trigger] s@[j]))) by {
                            if 0 <= w < s@.len() && s@[w] == ':' {
                                if w != first as int {
                                    assert(!is_digit(s@[first as int]));
                                } else {
                                    assert(!is_digit(s@[i as int]));
                                }
                            }
                        }
                    }
                    return false;
                },
            }
        } else {
            let u = c as u32;
            if u < 48 || u > 57 {
                proof {
                    assert(!is_digit(s@[i as int]));
                    assert forall|w: int|
                        !(0 <= w < s@.len() && s@[w] == ':' && (forall|j: int|
                            0 <= j < s@.len() && j != w ==> is_digit(#[trigger] s@[j]))) by {
                        if 0 <= w < s@.len() && s@[w] == ':' {
                            assert(w != i as int);
                        }
                    }
                }
                return false;
            }
        }
        i = i + 1;
    }
    match colon {
        Some(c) => {
            proof {
                assert(0 <= c < s@.len() && s@[c as int] == ':');
            }
            true
        },
        None => {
            proof {
                assert forall|w: int|
                    !(0 <= w < s@.len() && s@[w] == ':' && (forall|j: int|
                        0 <= j < s@.len() && j != w ==> is_digit(#[trigger] s@[j]))) by {
                    if 0 <= w < s@.len() {
                        assert(is_digit(s@[w]));
                    }
                }
            }
            false
        },
    }
}

/// The index of the first `-` token at or after position `i`, if any.
pub open spec fn sep_index_from(toks: Seq<Seq<char>>, i: int) -> Option<int>
    decreases toks.len() - i,
{
    if i < 0 || i >= toks.len() {
        None
    } else if toks[i] == "-"@ {
        Some(i)
    } else {
        sep_index_from(toks, i + 1)
    }
}

/// The record denoted by one modern mount-table line, or `None` when the
/// line does not have the required shape: the numeric fields must be
/// decimal numbers fitting the id type, the device pair must have its
/// `major:minor` shape, a lone `-` must close the optional-tag run, and the
/// filesystem type and source fields must follow it.  An unknown
/// filesystem type name is not a shape error.
pub open spec fn spec_parse_modern_line(s: Seq<char>) -> Option<MountPointV> {
    let toks = tokenize(s);
    match sep_index_from(toks, 6) {
        None => None,
        Some(sep) => {
            if toks.len() < sep + 3 {
                None
            } else if !parses_as_u32(toks[0]) {
                None
            } else if !parses_as_u32(toks[1]) {
                None
            } else if !is_majmin(toks[2]) {
                None
            } else {
                Some(
                    MountPointV {
                        id: Some(digits_value(toks[0]) as u32),
                        parent_id: Some(digits_value(toks[1]) as u32),
                        root: Some(toks[3]),
                        what: toks[sep + 2],
                        path: toks[4],
                        fstype: fs_type_of_name(toks[sep + 1]),
                        options: parse_options(toks[5]),
                    },
                )
            }
        },
    }
}

/// Finds the lone `-` token that closes the optional-tag run, scanning
/// from the seventh token on.
fn find_sep(tokens: &Vec<String>) -> (r: Option<usize>)
    ensures
        (match r {
            Some(k) => 6 <= k < tokens@.len() && sep_index_from(tokens.deep_view(), 6) == Some(
                k as int,
            ),
            None => sep_index_from(tokens.deep_view(), 6) is None,
        }),
{
    let ghost toks = tokens.deep_view();
    let n = tokens.len();
    let mut k: usize = 6;
    while k < n
        invariant
            n == tokens@.len(),
            toks == tokens.deep_view(),
            6 <= k,
            sep_index_from(toks, 6) == sep_index_from(toks, k as int),
        decreases n - k,
    {
        if str_eq(tokens[k].as_str(), "-") {
            return Some(k);
        }
        k = k + 1;
    }
    None
}

impl MountPoint {
    /// Parses one line of the modern per-process mount table; `None` when
    /// the line is malformed.
    pub fn parse_proc_mountinfo_line(line: &str) -> (r: Option<MountPoint>)
        ensures
            r.deep_view() == spec_parse_modern_line(line@),
    {
        let tokens = tokenize_str(line);
        let ghost toks = tokens.deep_view();
        let n = tokens.len();
        let sep = match find_sep(&tokens) {
            None => {
                return None;
            },
            Some(sep) => sep,
        };
        if n - sep < 3 {
            return None;
        }
        let id = match parse_u32_str(tokens[0].as_str()) {
            None => {
                return None;
            },
            Some(v) => v,
        };
        let parent_id = match parse_u32_str(tokens[1].as_str()) {
            None => {
                return None;
            },
            Some(v) => v,
        };
        if !is_majmin_str(tokens[2].as_str()) {
            return None;
        }
        Some(
            MountPoint {
                id: Some(id),
                parent_id: Some(parent_id),
                root: Some(tokens[3].clone()),
                what: tokens[sep + 2].clone(),
                path: tokens[4].clone(),
                fstype: FsType::from_name(tokens[sep + 1].as_str()),
                options: MountOptions::new(tokens[5].as_str()),
            },
        )
    }
}

} // verus!

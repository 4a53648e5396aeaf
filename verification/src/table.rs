//! The mount table: an ordered sequence of mount records built in a single
//! fail-fast pass over one text stream, and the membership queries over it.

use crate::fstype::FsType;
use crate::fstype::fs_type_of_name;
use crate::options::MountOptions;
use crate::options::parse_options;
use crate::point::MountPoint;
use crate::point::MountPointV;
use crate::point::spec_parse_modern_line;
use crate::text::spec_lines;
use crate::text::split_lines;
use crate::text::str_eq;
use crate::text::tokenize;
use crate::text::tokenize_str;
use vstd::prelude::*;

verus! {

/// A malformed mount-table line: construction of the table stops at the
/// first such line and no table is produced.
#[derive(Debug)]
pub struct ParseError {
    /// The offending line, verbatim.
    pub line: String,
    /// Its one-based position in the stream.
    pub line_number: usize,
}

/// The mathematical value of a [`ParseError`].
pub struct ParseErrorV {
    pub line: Seq<char>,
    pub line_number: int,
}

impl View for ParseError {
    type V = ParseErrorV;

    open spec fn view(&self) -> ParseErrorV {
        ParseErrorV { line: self.line@, line_number: self.line_number as int }
    }
}

/// The record denoted by one legacy mount-table line: source, mount path,
/// filesystem type and options, with up to two further fields ignored.
/// `Ok(None)` is a blank line (nothing but separators), which the legacy
/// format skips; `Err` is a line with fewer than four fields.
pub open spec fn spec_parse_legacy_line(s: Seq<char>) -> Result<Option<MountPointV>, ()> {
    let toks = tokenize(s);
    if toks.len() == 0 {
        Ok(None)
    } else if toks.len() < 4 {
        Err(())
    } else {
        Ok(
            Some(
                MountPointV {
                    id: None,
                    parent_id: None,
                    root: None,
                    what: toks[0],
                    path: toks[1],
                    fstype: fs_type_of_name(toks[2]),
                    options: parse_options(toks[3]),
                },
            ),
        )
    }
}

/// The modern-format table of `lines[k..]`: every line parsed in order,
/// stopping at the first malformed line with its content and one-based
/// number.
pub open spec fn spec_parse_modern_from(lines: Seq<Seq<char>>, k: int) -> Result<
    Seq<MountPointV>,
    ParseErrorV,
>
    decreases lines.len() - k,
{
    if k < 0 || k >= lines.len() {
        Ok(Seq::empty())
    } else {
        match spec_parse_modern_line(lines[k]) {
            None => Err(ParseErrorV { line: lines[k], line_number: k + 1 }),
            Some(mp) => match spec_parse_modern_from(lines, k + 1) {
                Ok(rest) => Ok(seq![mp] + rest),
                Err(e) => Err(e),
            },
        }
    }
}

/// The legacy-format table of `lines[k..]`: blank lines skipped, any other
/// malformed line fatal.
pub open spec fn spec_parse_legacy_from(lines: Seq<Seq<char>>, k: int) -> Result<
    Seq<MountPointV>,
    ParseErrorV,
>
    decreases lines.len() - k,
{
    if k < 0 || k >= lines.len() {
        Ok(Seq::empty())
    } else {
        match spec_parse_legacy_line(lines[k]) {
            Err(_) => Err(ParseErrorV { line: lines[k], line_number: k + 1 }),
            Ok(None) => spec_parse_legacy_from(lines, k + 1),
            Ok(Some(mp)) => match spec_parse_legacy_from(lines, k + 1) {
                Ok(rest) => Ok(seq![mp] + rest),
                Err(e) => Err(e),
            },
        }
    }
}

/// The table denoted by a whole modern-format stream.
pub open spec fn spec_parse_modern(s: Seq<char>) -> Result<Seq<MountPointV>, ParseErrorV> {
    spec_parse_modern_from(spec_lines(s), 0)
}

/// The table denoted by a whole legacy-format stream.
pub open spec fn spec_parse_legacy(s: Seq<char>) -> Result<Seq<MountPointV>, ParseErrorV> {
    spec_parse_legacy_from(spec_lines(s), 0)
}

/// The mount table: the mount points visible to the process that produced
/// the stream it was built from, in stream order, duplicates kept.
#[derive(Debug)]
pub struct MountInfo {
    /// The records, in the order their lines appeared.
    pub mounting_points: Vec<MountPoint>,
}

impl View for MountInfo {
    type V = Seq<MountPointV>;

    open spec fn view(&self) -> Seq<MountPointV> {
        self.mounting_points.deep_view()
    }
}

impl MountInfo {
    /// Builds the table from the text of a modern per-process mount-table
    /// stream.  Fail-fast: the first malformed line aborts construction
    /// and no partial table is returned.
    pub fn parse_proc_mountinfo(content: &str) -> (r: Result<Vec<MountPoint>, ParseError>)
        ensures
            (match r {
                Ok(v) => spec_parse_modern(content@) == Ok::<_, ParseErrorV>(v.deep_view()),
                Err(e) => spec_parse_modern(content@) == Err::<Seq<MountPointV>, _>(e@),
            }),
    {
        let lines = split_lines(content);
        let ghost lv = lines.deep_view();
        let n = lines.len();
        let mut result: Vec<MountPoint> = Vec::new();
        let mut k: usize = 0;
        while k < n
            invariant
                n == lines@.len(),
                lv == lines.deep_view(),
                lv == spec_lines(content@),
                k <= n,
                spec_parse_modern_from(lv, 0) == (match spec_parse_modern_from(lv, k as int) {
                    Ok(rest) => Ok::<_, ParseErrorV>(result.deep_view() + rest),
                    Err(e) => Err::<Seq<MountPointV>, _>(e),
                }),
            decreases n - k,
        {
            let ghost before = result.deep_view();
            proof {
                assert(lv[k as int] == lines@[k as int]@);
            }
            match MountPoint::parse_proc_mountinfo_line(lines[k].as_str()) {
                None => {
                    return Err(ParseError { line: lines[k].clone(), line_number: k + 1 });
                },
                Some(mp) => {
                    proof {
                        let rest_next = spec_parse_modern_from(lv, k + 1);
                        if rest_next is Ok {
                            assert(before.push(mp@) + rest_next->Ok_0 =~~= before + (seq![mp@]
                                + rest_next->Ok_0));
                        }
                    }
                    result.push(mp);
                    proof {
                        assert(result.deep_view() =~~= before.push(mp@));
                    }
                },
            }
            k = k + 1;
        }
        proof {
            assert(result.deep_view() + Seq::<MountPointV>::empty() =~~= result.deep_view());
        }
        Ok(result)
    }

    /// Builds the table from the text of a legacy mount-table stream.
    /// Blank lines are skipped; any other malformed line aborts
    /// construction, and no partial table is returned.
    pub fn parse_mtab(content: &str) -> (r: Result<Vec<MountPoint>, ParseError>)
        ensures
            (match r {
                Ok(v) => spec_parse_legacy(content@) == Ok::<_, ParseErrorV>(v.deep_view()),
                Err(e) => spec_parse_legacy(content@) == Err::<Seq<MountPointV>, _>(e@),
            }),
    {
        let lines = split_lines(content);
        let ghost lv = lines.deep_view();
        let n = lines.len();
        let mut result: Vec<MountPoint> = Vec::new();
        let mut k: usize = 0;
        while k < n
            invariant
                n == lines@.len(),
                lv == lines.deep_view(),
                lv == spec_lines(content@),
                k <= n,
                spec_parse_legacy_from(lv, 0) == (match spec_parse_legacy_from(lv, k as int) {
                    Ok(rest) => Ok::<_, ParseErrorV>(result.deep_view() + rest),
                    Err(e) => Err::<Seq<MountPointV>, _>(e),
                }),
            decreases n - k,
        {
            let ghost before = result.deep_view();
            proof {
                assert(lv[k as int] == lines@[k as int]@);
            }
            let tokens = tokenize_str(lines[k].as_str());
            let m = tokens.len();
            if m == 0 {
                // a blank line: tolerated by the legacy format only
            } else if m < 4 {
                return Err(ParseError { line: lines[k].clone(), line_number: k + 1 });
            } else {
                let mp = MountPoint {
                    id: None,
                    parent_id: None,
                    root: None,
                    what: tokens[0].clone(),
                    path: tokens[1].clone(),
                    fstype: FsType::from_name(tokens[2].as_str()),
                    options: MountOptions::new(tokens[3].as_str()),
                };
                proof {
                    let rest_next = spec_parse_legacy_from(lv, k + 1);
                    assert(spec_parse_legacy_line(lv[k as int]) == Ok::<_, ()>(Some(mp@)));
                    if rest_next is Ok {
                        assert(before.push(mp@) + rest_next->Ok_0 =~~= before + (seq![mp@]
                            + rest_next->Ok_0));
                    }
                }
                result.push(mp);
                proof {
                    assert(result.deep_view() =~~= before.push(mp@));
                }
            }
            k = k + 1;
        }
        proof {
            assert(result.deep_view() + Seq::<MountPointV>::empty() =~~= result.deep_view());
        }
        Ok(result)
    }

    /// Whether some record mounts a filesystem of kind `fstype` exactly at
    /// `mounting_point`.  Paths compare as exact character sequences, and
    /// the kind compares as the full value: `Other` names must match
    /// verbatim.
    pub fn contains(&self, mounting_point: &str, fstype: FsType) -> (r: bool)
        ensures
            r == (exists|i: int|
                0 <= i < self@.len() && (#[trigger] self@[i]).path == mounting_point@
                    && self@[i].fstype == fstype@),
    {
        let n = self.mounting_points.len();
        let mut i: usize = 0;
        while i < n
            invariant
                n == self.mounting_points@.len(),
                i <= n,
                forall|j: int|
                    0 <= j < i ==> !((#[trigger] self@[j]).path == mounting_point@
                        && self@[j].fstype == fstype@),
            decreases n - i,
        {
            let mp = &self.mounting_points[i];
            proof {
                assert(self@[i as int] == self.mounting_points@[i as int]@);
            }
            if str_eq(mp.path.as_str(), mounting_point) && mp.fstype == fstype {
                proof {
                    assert(self@[i as int].path == mounting_point@ && self@[i as int].fstype
                        == fstype@);
                }
                return true;
            }
            i = i + 1;
        }
        false
    }

    /// Whether any record's mount path equals `path` exactly, whatever its
    /// filesystem kind.
    pub fn is_mounted(&self, path: &str) -> (r: bool)
        ensures
            r == (exists|i: int| 0 <= i < self@.len() && (#[trigger] self@[i]).path == path@),
    {
        let n = self.mounting_points.len();
        let mut i: usize = 0;
        while i < n
            invariant
                n == self.mounting_points@.len(),
                i <= n,
                forall|j: int| 0 <= j < i ==> (#[trigger] self@[j]).path != path@,
            decreases n - i,
        {
            let mp = &self.mounting_points[i];
            proof {
                assert(self@[i as int] == self.mounting_points@[i as int]@);
            }
            if str_eq(mp.path.as_str(), path) {
                proof {
                    assert(self@[i as int].path == path@);
                }
                return true;
            }
            i = i + 1;
        }
        false
    }
}

/// Construction is fail-fast and all-or-nothing: if any line of a
/// modern-format stream is malformed, no table at all is produced from it.
pub proof fn lemma_modern_fail_fast(lines: Seq<Seq<char>>, j: int, k: int)
    requires
        0 <= j <= k < lines.len(),
        spec_parse_modern_line(lines[k]) is None,
    ensures
        spec_parse_modern_from(lines, j) is Err,
    decreases k - j,
{
    if j < k {
        lemma_modern_fail_fast(lines, j + 1, k);
    }
}

/// The legacy counterpart: one line with too few fields means no table,
/// wherever in the stream it stands.
pub proof fn lemma_legacy_fail_fast(lines: Seq<Seq<char>>, j: int, k: int)
    requires
        0 <= j <= k < lines.len(),
        spec_parse_legacy_line(lines[k]) is Err,
    ensures
        spec_parse_legacy_from(lines, j) is Err,
    decreases k - j,
{
    if j < k {
        lemma_legacy_fail_fast(lines, j + 1, k);
    }
}

/// A failed modern-format construction reports the first malformed line:
/// the error carries that line's content and one-based number, and every
/// line before it is well-formed.
pub proof fn lemma_modern_error_is_first(lines: Seq<Seq<char>>, j: int)
    requires
        0 <= j <= lines.len(),
        spec_parse_modern_from(lines, j) is Err,
    ensures
        ({
            let e = spec_parse_modern_from(lines, j)->Err_0;
            &&& j < e.line_number <= lines.len()
            &&& e.line == lines[e.line_number - 1]
            &&& spec_parse_modern_line(lines[e.line_number - 1]) is None
            &&& forall|i: int|
                j <= i < e.line_number - 1 ==> spec_parse_modern_line(#[trigger] lines[i]) is Some
        }),
    decreases lines.len() - j,
{
    if j < lines.len() && spec_parse_modern_line(lines[j]) is Some {
        lemma_modern_error_is_first(lines, j + 1);
    }
}

/// The legacy counterpart: the reported line is the first one that is
/// neither a record nor a skippable blank line.
pub proof fn lemma_legacy_error_is_first(lines: Seq<Seq<char>>, j: int)
    requires
        0 <= j <= lines.len(),
        spec_parse_legacy_from(lines, j) is Err,
    ensures
        ({
            let e = spec_parse_legacy_from(lines, j)->Err_0;
            &&& j < e.line_number <= lines.len()
            &&& e.line == lines[e.line_number - 1]
            &&& spec_parse_legacy_line(lines[e.line_number - 1]) is Err
            &&& forall|i: int|
                j <= i < e.line_number - 1 ==> spec_parse_legacy_line(#[trigger] lines[i]) is Ok
        }),
    decreases lines.len() - j,
{
    if j < lines.len() && spec_parse_legacy_line(lines[j]) is Ok {
        lemma_legacy_error_is_first(lines, j + 1);
    }
}

/// The legacy format never invents the modern-only fields: every record of
/// a legacy table has no id, no parent id and no root.
pub proof fn lemma_legacy_fields_absent(lines: Seq<Seq<char>>, j: int)
    requires
        0 <= j <= lines.len(),
        spec_parse_legacy_from(lines, j) is Ok,
    ensures
        forall|i: int|
            0 <= i < spec_parse_legacy_from(lines, j)->Ok_0.len() ==> {
                let mp = #[trigger] spec_parse_legacy_from(lines, j)->Ok_0[i];
                mp.id is None && mp.parent_id is None && mp.root is None
            },
    decreases lines.len() - j,
{
    if j < lines.len() && spec_parse_legacy_line(lines[j]) is Ok {
        lemma_legacy_fields_absent(lines, j + 1);
    }
}

/// Byte-identical streams denote identical tables, in both formats:
/// construction is a function of the text alone.
pub proof fn lemma_parse_deterministic(s1: Seq<char>, s2: Seq<char>)
    requires
        s1 == s2,
    ensures
        spec_parse_modern(s1) == spec_parse_modern(s2),
        spec_parse_legacy(s1) == spec_parse_legacy(s2),
{
}

/// Blank-line tolerance is exclusive to the legacy format: a line that is
/// blank after trimming is skipped by the legacy parser but malformed to
/// the modern one.
pub proof fn lemma_blank_line(s: Seq<char>)
    requires
        tokenize(s).len() == 0,
    ensures
        spec_parse_legacy_line(s) == Ok::<Option<MountPointV>, ()>(None),
        spec_parse_modern_line(s) is None,
{
}

} // verus!

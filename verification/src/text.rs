//! Text-level helpers shared by both mount-table formats: whitespace
//! tokenization, separator splitting, line splitting and decimal parsing,
//! each with a mathematical model over sequences of characters.

use vstd::prelude::*;

verus! {

/// Characters treated as field separators within a mount-table line.
pub open spec fn is_ws(c: char) -> bool {
    c == ' ' || c == '\t'
}

/// The whitespace-separated tokens of `s`, in order.  Runs of separator
/// characters delimit tokens; no token is empty and leading or trailing
/// separators produce no tokens.
pub open spec fn tokenize(s: Seq<char>) -> Seq<Seq<char>>
    decreases s.len(),
{
    if s.len() == 0 {
        Seq::empty()
    } else if is_ws(s[0]) {
        tokenize(s.drop_first())
    } else if s.len() == 1 || is_ws(s[1]) {
        seq![seq![s[0]]] + tokenize(s.drop_first())
    } else {
        let rest = tokenize(s.drop_first());
        seq![seq![s[0]] + rest[0]] + rest.drop_first()
    }
}

/// Splitting `s` at every occurrence of `sep`, keeping empty pieces, as
/// `str::split` does: the result always has one more piece than there are
/// separators in `s`.
pub open spec fn split_char(s: Seq<char>, sep: char) -> Seq<Seq<char>>
    decreases s.len(),
{
    if s.len() == 0 {
        seq![Seq::<char>::empty()]
    } else if s[0] == sep {
        seq![Seq::<char>::empty()] + split_char(s.drop_first(), sep)
    } else {
        let rest = split_char(s.drop_first(), sep);
        seq![seq![s[0]] + rest[0]] + rest.drop_first()
    }
}

pub proof fn lemma_split_char_nonempty(s: Seq<char>, sep: char)
    ensures
        split_char(s, sep).len() >= 1,
    decreases s.len(),
{
    if s.len() != 0 && s[0] != sep {
        lemma_split_char_nonempty(s.drop_first(), sep);
    }
}

/// A maximal separator-free span `[i, j)` of `s` is one piece of the split
/// of the suffix starting at `i`.
pub proof fn lemma_split_char_step(s: Seq<char>, sep: char, i: int, j: int)
    requires
        0 <= i <= j <= s.len(),
        forall|k: int| i <= k < j ==> s[k] != sep,
        j == s.len() || s[j] == sep,
    ensures
        split_char(s.skip(i), sep) == (if j == s.len() {
            seq![s.subrange(i, j)]
        } else {
            seq![s.subrange(i, j)] + split_char(s.skip(j + 1), sep)
        }),
    decreases j - i,
{
    let t = s.skip(i);
    if i == j {
        if j == s.len() {
            assert(t =~= Seq::<char>::empty());
            assert(s.subrange(i, j) =~= Seq::<char>::empty());
            assert(split_char(t, sep) =~~= seq![s.subrange(i, j)]);
        } else {
            assert(t[0] == s[i]);
            assert(t.drop_first() =~= s.skip(j + 1));
            assert(s.subrange(i, j) =~= Seq::<char>::empty());
            assert(split_char(t, sep) =~~= seq![s.subrange(i, j)] + split_char(
                s.skip(j + 1),
                sep,
            ));
        }
    } else {
        assert(t[0] == s[i]);
        assert(t[0] != sep);
        assert(t.drop_first() =~= s.skip(i + 1));
        lemma_split_char_step(s, sep, i + 1, j);
        let rest = split_char(s.skip(i + 1), sep);
        assert(rest[0] == s.subrange(i + 1, j));
        assert(seq![t[0]] + s.subrange(i + 1, j) =~= s.subrange(i, j));
        if j == s.len() {
            assert(rest =~~= seq![s.subrange(i + 1, j)]);
            assert(rest.drop_first() =~~= Seq::<Seq<char>>::empty());
            assert(split_char(t, sep) =~~= seq![s.subrange(i, j)]);
        } else {
            assert(rest.drop_first() =~~= split_char(s.skip(j + 1), sep));
            assert(split_char(t, sep) =~~= seq![s.subrange(i, j)] + split_char(
                s.skip(j + 1),
                sep,
            ));
        }
    }
}

/// Whether `c` is a field separator character.
pub fn ws_char(c: char) -> (r: bool)
    ensures
        r == is_ws(c),
{
    c == ' ' || c == '\t'
}

/// Skipping one leading separator character does not change the tokens.
pub proof fn lemma_tokenize_ws(s: Seq<char>, i: int)
    requires
        0 <= i < s.len(),
        is_ws(s[i]),
    ensures
        tokenize(s.skip(i)) == tokenize(s.skip(i + 1)),
{
    let t = s.skip(i);
    assert(t[0] == s[i]);
    assert(t.drop_first() =~= s.skip(i + 1));
}

/// A maximal non-separator span `[start, end)` of `s` is the first token of
/// the suffix starting at `start`.
pub proof fn lemma_tokenize_token(s: Seq<char>, start: int, end: int)
    requires
        0 <= start < end <= s.len(),
        forall|k: int| start <= k < end ==> !is_ws(s[k]),
        end == s.len() || is_ws(s[end]),
    ensures
        tokenize(s.skip(start)) == seq![s.subrange(start, end)] + tokenize(s.skip(end)),
    decreases end - start,
{
    let t = s.skip(start);
    assert(t[0] == s[start]);
    assert(t.drop_first() =~= s.skip(start + 1));
    if end == start + 1 {
        if end == s.len() {
            assert(t.len() == 1);
            assert(seq![t[0]] =~= s.subrange(start, end));
            assert(s.skip(end) =~= Seq::<char>::empty());
            assert(tokenize(t) =~~= seq![s.subrange(start, end)] + tokenize(s.skip(end)));
        } else {
            assert(t[1] == s[end]);
            assert(seq![t[0]] =~= s.subrange(start, end));
            assert(tokenize(t) =~~= seq![s.subrange(start, end)] + tokenize(s.skip(end)));
        }
    } else {
        assert(t[1] == s[start + 1]);
        assert(!is_ws(t[1]));
        lemma_tokenize_token(s, start + 1, end);
        let rest = tokenize(s.skip(start + 1));
        assert(rest[0] == s.subrange(start + 1, end));
        assert(seq![t[0]] + s.subrange(start + 1, end) =~= s.subrange(start, end));
        assert(rest.drop_first() =~~= tokenize(s.skip(end)));
        assert(tokenize(t) =~~= seq![s.subrange(start, end)] + tokenize(s.skip(end)));
    }
}

/// The whitespace-separated tokens of `s`, in order.
pub fn tokenize_str(s: &str) -> (r: Vec<String>)
    ensures
        r.deep_view() == tokenize(s@),
{
    let n = s.unicode_len();
    let mut tokens: Vec<String> = Vec::new();
    let mut i: usize = 0;
    proof {
        assert(s@.skip(0) =~= s@);
    }
    while i < n
        invariant
            n == s@.len(),
            i <= n,
            tokens.deep_view() + tokenize(s@.skip(i as int)) =~~= tokenize(s@),
        decreases n - i,
    {
        let c = s.get_char(i);
        if c == ' ' || c == '\t' {
            proof {
                lemma_tokenize_ws(s@, i as int);
            }
            i = i + 1;
        } else {
            let start = i;
            let mut j: usize = i + 1;
            while j < n && !ws_char(s.get_char(j))
                invariant
                    n == s@.len(),
                    start < j <= n,
                    forall|k: int| start <= k < j ==> !is_ws(s@[k]),
                decreases n - j,
            {
                j = j + 1;
            }
            let token = s.substring_char(start, j).to_owned();
            proof {
                lemma_tokenize_token(s@, start as int, j as int);
                assert(tokens.deep_view().push(token@) + tokenize(s@.skip(j as int)) =~~= tokens.deep_view()
                    + tokenize(s@.skip(start as int)));
            }
            tokens.push(token);
            i = j;
        }
    }
    proof {
        assert(s@.skip(n as int) =~= Seq::<char>::empty());
        assert(tokens.deep_view() =~~= tokenize(s@));
    }
    tokens
}

/// Whether `c` is a decimal digit.
pub open spec fn is_digit(c: char) -> bool {
    48 <= c as u32 && c as u32 <= 57
}

/// The value of the decimal digit `c`.
pub open spec fn digit_val(c: char) -> int {
    c as u32 - 48
}

/// Whether every character of `s` is a decimal digit.
pub open spec fn all_digits(s: Seq<char>) -> bool {
    forall|i: int| 0 <= i < s.len() ==> is_digit(#[trigger] s[i])
}

/// The value of `s` read as a decimal numeral.
pub open spec fn digits_value(s: Seq<char>) -> int
    decreases s.len(),
{
    if s.len() == 0 {
        0
    } else {
        digits_value(s.drop_last()) * 10 + digit_val(s.last())
    }
}

/// Whether `s` is a non-empty run of decimal digits whose value fits in `u32`.
pub open spec fn parses_as_u32(s: Seq<char>) -> bool {
    s.len() > 0 && all_digits(s) && digits_value(s) <= u32::MAX
}

pub proof fn lemma_digits_value_nonneg(s: Seq<char>)
    requires
        all_digits(s),
    ensures
        digits_value(s) >= 0,
    decreases s.len(),
{
    if s.len() > 0 {
        assert(all_digits(s.drop_last()));
        lemma_digits_value_nonneg(s.drop_last());
    }
}

/// A numeral is at least as large as any of its prefixes.
pub proof fn lemma_digits_value_prefix_le(s: Seq<char>, k: int)
    requires
        all_digits(s),
        0 <= k <= s.len(),
    ensures
        digits_value(s.take(k)) <= digits_value(s),
    decreases s.len() - k,
{
    if k == s.len() {
        assert(s.take(k) =~= s);
    } else {
        assert(s.take(k + 1).drop_last() =~= s.take(k));
        assert(s.take(k + 1).last() == s[k]);
        assert(all_digits(s.take(k)));
        lemma_digits_value_nonneg(s.take(k));
        assert(digits_value(s.take(k + 1)) == digits_value(s.take(k)) * 10 + digit_val(s[k]));
        lemma_digits_value_prefix_le(s, k + 1);
    }
}

/// Reads `s` as a decimal `u32`; `None` when `s` is empty, holds a
/// non-digit character, or exceeds `u32::MAX`.
pub fn parse_u32_str(s: &str) -> (r: Option<u32>)
    ensures
        parses_as_u32(s@) ==> r == Some(digits_value(s@) as u32),
        !parses_as_u32(s@) ==> r is None,
{
    let n = s.unicode_len();
    if n == 0 {
        return None;
    }
    let mut acc: u32 = 0;
    let mut i: usize = 0;
    proof {
        assert(s@.take(0) =~= Seq::<char>::empty());
    }
    while i < n
        invariant
            n == s@.len(),
            i <= n,
            all_digits(s@.take(i as int)),
            acc == digits_value(s@.take(i as int)),
        decreases n - i,
    {
        let c = s.get_char(i);
        let u = c as u32;
        if u < 48 || u > 57 {
            assert(!is_digit(s@[i as int]));
            return None;
        }
        let d = u - 48;
        proof {
            assert(s@.take(i + 1).drop_last() =~= s@.take(i as int));
            assert(s@.take(i + 1).last() == s@[i as int]);
        }
        if acc > (u32::MAX - d) / 10 {
            proof {
                let m = u32::MAX as int;
                assert(acc * 10 + d > m) by {
                    let q = (m - d) / 10;
                    assert(m - d == 10 * q + (m - d) % 10);
                    assert(acc >= q + 1);
                    assert(acc * 10 >= (q + 1) * 10);
                };
                assert(digits_value(s@.take(i + 1)) > m);
                if all_digits(s@) {
                    lemma_digits_value_prefix_le(s@, i + 1);
                }
                assert(!parses_as_u32(s@));
            }
            return None;
        }
        proof {
            let m = u32::MAX as int;
            assert(acc * 10 + d <= m) by {
                let q = (m - d) / 10;
                assert(m - d == 10 * q + (m - d) % 10);
                assert(acc <= q);
                assert(acc * 10 <= q * 10);
            };
        }
        acc = acc * 10 + d;
        i = i + 1;
    }
    proof {
        assert(s@.take(n as int) =~= s@);
    }
    Some(acc)
}

/// Whether two string slices hold the same characters.
pub fn str_eq(a: &str, b: &str) -> (r: bool)
    ensures
        r == (a@ == b@),
{
    let sa: String = a.to_owned();
    let sb: String = b.to_owned();
    sa == sb
}

/// Splits `s` at every occurrence of `sep`, keeping empty pieces.
pub fn split_char_str(s: &str, sep: char) -> (r: Vec<String>)
    ensures
        r.deep_view() == split_char(s@, sep),
{
    let n = s.unicode_len();
    let mut pieces: Vec<String> = Vec::new();
    let mut start: usize = 0;
    let mut j: usize = 0;
    proof {
        assert(s@.skip(0) =~= s@);
    }
    while j < n
        invariant
            n == s@.len(),
            start <= j <= n,
            forall|k: int| start <= k < j ==> s@[k] != sep,
            pieces.deep_view() + split_char(s@.skip(start as int), sep) =~~= split_char(s@, sep),
        decreases n - j,
    {
        if s.get_char(j) == sep {
            let piece = s.substring_char(start, j).to_owned();
            proof {
                lemma_split_char_step(s@, sep, start as int, j as int);
                assert(pieces.deep_view().push(piece@) + split_char(
                    s@.skip(j as int + 1),
                    sep,
                ) =~~= pieces.deep_view() + split_char(s@.skip(start as int), sep));
            }
            pieces.push(piece);
            start = j + 1;
            j = j + 1;
        } else {
            j = j + 1;
        }
    }
    let piece = s.substring_char(start, n).to_owned();
    proof {
        lemma_split_char_step(s@, sep, start as int, n as int);
        assert(pieces.deep_view().push(piece@) =~~= pieces.deep_view() + split_char(
            s@.skip(start as int),
            sep,
        ));
    }
    pieces.push(piece);
    pieces
}

/// `l` without a trailing carriage return, if it has one.
pub open spec fn strip_cr(l: Seq<char>) -> Seq<char> {
    if l.len() > 0 && l.last() == '\r' {
        l.drop_last()
    } else {
        l
    }
}

/// The newline-delimited lines of `s`: every line terminated by a newline
/// loses that newline and a carriage return just before it, and text after
/// the last newline forms one final line only when it is non-empty.
pub open spec fn spec_lines(s: Seq<char>) -> Seq<Seq<char>> {
    let raw = split_char(s, '\n');
    let body = Seq::new((raw.len() - 1) as nat, |i: int| strip_cr(raw[i]));
    if raw.last().len() == 0 {
        body
    } else {
        body.push(raw.last())
    }
}

fn strip_cr_str(l: &str) -> (r: String)
    ensures
        r@ == strip_cr(l@),
{
    let n = l.unicode_len();
    if n > 0 && l.get_char(n - 1) == '\r' {
        let r = l.substring_char(0, n - 1).to_owned();
        proof {
            assert(l@.subrange(0, n - 1) =~= l@.drop_last());
        }
        r
    } else {
        l.to_owned()
    }
}

/// The newline-delimited lines of `s`.
pub fn split_lines(s: &str) -> (r: Vec<String>)
    ensures
        r.deep_view() == spec_lines(s@),
{
    let raw = split_char_str(s, '\n');
    proof {
        lemma_split_char_nonempty(s@, '\n');
    }
    let m = raw.len();
    let mut out: Vec<String> = Vec::new();
    let mut i: usize = 0;
    while i < m - 1
        invariant
            m == raw@.len() >= 1,
            raw.deep_view() == split_char(s@, '\n'),
            i <= m - 1,
            out.deep_view() =~~= Seq::new(i as nat, |j: int| strip_cr(raw.deep_view()[j])),
        decreases m - 1 - i,
    {
        let piece = strip_cr_str(raw[i].as_str());
        proof {
            assert(out.deep_view().push(piece@) =~~= Seq::new(
                (i + 1) as nat,
                |j: int| strip_cr(raw.deep_view()[j]),
            ));
        }
        out.push(piece);
        i = i + 1;
    }
    let last = &raw[m - 1];
    if last.as_str().unicode_len() != 0 {
        let piece = last.clone();
        proof {
            assert(out.deep_view().push(piece@) =~~= spec_lines(s@));
        }
        out.push(piece);
    } else {
        proof {
            assert(out.deep_view() =~~= spec_lines(s@));
        }
    }
    out
}

} // verus!

//! Decomposition of a comma-separated mount option string into a
//! read/write mode and the remaining option tokens, kept verbatim, in
//! order, duplicates included.

use crate::text::split_char;
use crate::text::split_char_str;
use crate::text::str_eq;
use vstd::prelude::*;

verus! {

/// Whether a mount was made read-only or read-write.
#[derive(Debug, Clone, Copy, PartialEq, Eq, Structural)]
pub enum ReadWrite {
    ReadOnly,
    ReadWrite,
}

/// The options of one mount: its read/write mode and every other option
/// token, verbatim.
#[derive(Debug)]
pub struct MountOptions {
    /// Whether the mount is read-only or read-write.
    pub read_write: ReadWrite,
    /// Every option token other than the mode tokens, in order, duplicates
    /// preserved.
    pub others: Vec<String>,
}

/// The mathematical value of a [`MountOptions`].
pub struct MountOptionsV {
    pub read_write: ReadWrite,
    pub others: Seq<Seq<char>>,
}

impl View for MountOptions {
    type V = MountOptionsV;

    open spec fn view(&self) -> MountOptionsV {
        MountOptionsV { read_write: self.read_write, others: self.others.deep_view() }
    }
}

impl DeepView for MountOptions {
    type V = MountOptionsV;

    open spec fn deep_view(&self) -> MountOptionsV {
        self.view()
    }
}

/// Whether `t` is one of the two read/write mode tokens.
pub open spec fn is_mode_token(t: Seq<char>) -> bool {
    t == "ro"@ || t == "rw"@
}

/// The mode named by a token list: the last mode token wins, and a list
/// without one is read-only.
pub open spec fn mode_of(toks: Seq<Seq<char>>) -> ReadWrite
    decreases toks.len(),
{
    if toks.len() == 0 {
        ReadWrite::ReadOnly
    } else if toks.last() == "rw"@ {
        ReadWrite::ReadWrite
    } else if toks.last() == "ro"@ {
        ReadWrite::ReadOnly
    } else {
        mode_of(toks.drop_last())
    }
}

/// The token list with every mode token removed, order and duplicates
/// preserved.
pub open spec fn others_of(toks: Seq<Seq<char>>) -> Seq<Seq<char>>
    decreases toks.len(),
{
    if toks.len() == 0 {
        Seq::empty()
    } else {
        let rest = others_of(toks.drop_last());
        if is_mode_token(toks.last()) {
            rest
        } else {
            rest.push(toks.last())
        }
    }
}

/// The decomposition of the option string `s`: its tokens are the pieces
/// between commas; the last mode token fixes the mode (read-only when none
/// occurs) and every other token is kept verbatim.
pub open spec fn parse_options(s: Seq<char>) -> MountOptionsV {
    let toks = split_char(s, ',');
    MountOptionsV { read_write: mode_of(toks), others: others_of(toks) }
}

impl MountOptions {
    /// Decomposes the comma-separated option string `options`.
    pub fn new(options: &str) -> (r: MountOptions)
        ensures
            r@ == parse_options(options@),
    {
        let pieces = split_char_str(options, ',');
        let ghost toks = pieces.deep_view();
        let n = pieces.len();
        let mut read_write = ReadWrite::ReadOnly;
        let mut others: Vec<String> = Vec::new();
        let mut i: usize = 0;
        proof {
            assert(toks.take(0) =~~= Seq::<Seq<char>>::empty());
        }
        while i < n
            invariant
                n == pieces@.len(),
                toks == pieces.deep_view(),
                i <= n,
                read_write == mode_of(toks.take(i as int)),
                others.deep_view() == others_of(toks.take(i as int)),
            decreases n - i,
        {
            proof {
                assert(toks.take(i + 1).drop_last() =~~= toks.take(i as int));
                assert(toks.take(i + 1).last() == toks[i as int]);
                reveal_strlit("ro");
                reveal_strlit("rw");
                assert("ro"@[1] == 'o' && "rw"@[1] == 'w');
            }
            let piece = &pieces[i];
            if str_eq(piece.as_str(), "ro") {
                read_write = ReadWrite::ReadOnly;
            } else if str_eq(piece.as_str(), "rw") {
                read_write = ReadWrite::ReadWrite;
            } else {
                let ghost before = others.deep_view();
                others.push(piece.clone());
                proof {
                    assert(others.deep_view() =~~= before.push(toks[i as int]));
                }
            }
            i = i + 1;
        }
        proof {
            assert(toks.take(n as int) =~~= toks);
        }
        MountOptions { read_write, others }
    }
}

} // verus!

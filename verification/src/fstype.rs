//! Classification of a filesystem's kind: a closed set of well-known names
//! plus an escape hatch preserving any unrecognized name verbatim.  The
//! textual form and the parse of that form are total inverse functions over
//! this set, which the round-trip lemmas below state.

use vstd::prelude::*;

verus! {

/// A filesystem kind.  Known variants correspond to well-known kernel
/// filesystem names; any other name is kept verbatim in `Other`.
#[derive(Debug)]
pub enum FsType {
    /// Pseudo filesystem exposing the kernel's process table.
    Proc,
    /// Union filesystem combining several lower filesystems.
    Overlay,
    /// Memory-backed temporary filesystem.
    Tmpfs,
    /// Pseudo filesystem exposing the kernel's device tree.
    Sysfs,
    /// Copy-on-write on-disk filesystem.
    Btrfs,
    /// Second extended on-disk filesystem.
    Ext2,
    /// Third extended on-disk filesystem.
    Ext3,
    /// Fourth extended on-disk filesystem.
    Ext4,
    /// Memory-backed filesystem holding device nodes.
    Devtmpfs,
    /// Any filesystem name not listed above, kept verbatim.
    Other(String),
}

/// The mathematical value of an [`FsType`]: the same tags over a sequence
/// of characters.
pub enum FsTypeV {
    Proc,
    Overlay,
    Tmpfs,
    Sysfs,
    Btrfs,
    Ext2,
    Ext3,
    Ext4,
    Devtmpfs,
    Other(Seq<char>),
}

impl View for FsType {
    type V = FsTypeV;

    open spec fn view(&self) -> FsTypeV {
        match self {
            FsType::Proc => FsTypeV::Proc,
            FsType::Overlay => FsTypeV::Overlay,
            FsType::Tmpfs => FsTypeV::Tmpfs,
            FsType::Sysfs => FsTypeV::Sysfs,
            FsType::Btrfs => FsTypeV::Btrfs,
            FsType::Ext2 => FsTypeV::Ext2,
            FsType::Ext3 => FsTypeV::Ext3,
            FsType::Ext4 => FsTypeV::Ext4,
            FsType::Devtmpfs => FsTypeV::Devtmpfs,
            FsType::Other(name) => FsTypeV::Other(name@),
        }
    }
}

impl DeepView for FsType {
    type V = FsTypeV;

    open spec fn deep_view(&self) -> FsTypeV {
        self.view()
    }
}

/// Whether `s` is one of the well-known filesystem names.
pub open spec fn known_fs_name(s: Seq<char>) -> bool {
    ||| s == "proc"@
    ||| s == "overlay"@
    ||| s == "tmpfs"@
    ||| s == "sysfs"@
    ||| s == "btrfs"@
    ||| s == "ext2"@
    ||| s == "ext3"@
    ||| s == "ext4"@
    ||| s == "devtmpfs"@
}

/// The filesystem kind denoted by the name `s`.  Total: an unknown name
/// maps to `Other(s)`, never to a failure.
pub open spec fn fs_type_of_name(s: Seq<char>) -> FsTypeV {
    if s == "proc"@ {
        FsTypeV::Proc
    } else if s == "overlay"@ {
        FsTypeV::Overlay
    } else if s == "tmpfs"@ {
        FsTypeV::Tmpfs
    } else if s == "sysfs"@ {
        FsTypeV::Sysfs
    } else if s == "btrfs"@ {
        FsTypeV::Btrfs
    } else if s == "ext2"@ {
        FsTypeV::Ext2
    } else if s == "ext3"@ {
        FsTypeV::Ext3
    } else if s == "ext4"@ {
        FsTypeV::Ext4
    } else if s == "devtmpfs"@ {
        FsTypeV::Devtmpfs
    } else {
        FsTypeV::Other(s)
    }
}

/// The textual form of the filesystem kind `t`.
pub open spec fn fs_name_of(t: FsTypeV) -> Seq<char> {
    match t {
        FsTypeV::Proc => "proc"@,
        FsTypeV::Overlay => "overlay"@,
        FsTypeV::Tmpfs => "tmpfs"@,
        FsTypeV::Sysfs => "sysfs"@,
        FsTypeV::Btrfs => "btrfs"@,
        FsTypeV::Ext2 => "ext2"@,
        FsTypeV::Ext3 => "ext3"@,
        FsTypeV::Ext4 => "ext4"@,
        FsTypeV::Devtmpfs => "devtmpfs"@,
        FsTypeV::Other(name) => name,
    }
}

proof fn reveal_fs_names()
    ensures
        "proc"@ != "overlay"@ && "proc"@ != "tmpfs"@ && "proc"@ != "sysfs"@ && "proc"@
            != "btrfs"@ && "proc"@ != "ext2"@ && "proc"@ != "ext3"@ && "proc"@ != "ext4"@
            && "proc"@ != "devtmpfs"@,
        "overlay"@ != "tmpfs"@ && "overlay"@ != "sysfs"@ && "overlay"@ != "btrfs"@ && "overlay"@
            != "ext2"@ && "overlay"@ != "ext3"@ && "overlay"@ != "ext4"@ && "overlay"@
            != "devtmpfs"@,
        "tmpfs"@ != "sysfs"@ && "tmpfs"@ != "btrfs"@ && "tmpfs"@ != "ext2"@ && "tmpfs"@
            != "ext3"@ && "tmpfs"@ != "ext4"@ && "tmpfs"@ != "devtmpfs"@,
        "sysfs"@ != "btrfs"@ && "sysfs"@ != "ext2"@ && "sysfs"@ != "ext3"@ && "sysfs"@
            != "ext4"@ && "sysfs"@ != "devtmpfs"@,
        "btrfs"@ != "ext2"@ && "btrfs"@ != "ext3"@ && "btrfs"@ != "ext4"@ && "btrfs"@
            != "devtmpfs"@,
        "ext2"@ != "ext3"@ && "ext2"@ != "ext4"@ && "ext2"@ != "devtmpfs"@,
        "ext3"@ != "ext4"@ && "ext3"@ != "devtmpfs"@,
        "ext4"@ != "devtmpfs"@,
{
    reveal_strlit("proc");
    reveal_strlit("overlay");
    reveal_strlit("tmpfs");
    reveal_strlit("sysfs");
    reveal_strlit("btrfs");
    reveal_strlit("ext2");
    reveal_strlit("ext3");
    reveal_strlit("ext4");
    reveal_strlit("devtmpfs");
    assert("proc"@.len() == 4);
    assert("overlay"@.len() == 7);
    assert("tmpfs"@.len() == 5);
    assert("sysfs"@.len() == 5);
    assert("btrfs"@.len() == 5);
    assert("ext2"@.len() == 4);
    assert("ext3"@.len() == 4);
    assert("ext4"@.len() == 4);
    assert("devtmpfs"@.len() == 8);
    assert("proc"@[0] == 'p' && "ext2"@[0] == 'e' && "devtmpfs"@[0] == 'd');
    assert("ext2"@[3] == '2' && "ext3"@[3] == '3' && "ext4"@[3] == '4');
    assert("tmpfs"@[0] == 't' && "sysfs"@[0] == 's' && "btrfs"@[0] == 'b');
}

/// Formatting a filesystem kind and parsing the result reproduces the
/// value.  This holds for every known variant, and for `Other(s)` whenever
/// `s` is not itself one of the well-known names — `Other` values produced
/// by parsing always satisfy that.
pub proof fn lemma_fs_type_round_trip(t: FsTypeV)
    requires
        t matches FsTypeV::Other(s) ==> !known_fs_name(s),
    ensures
        fs_type_of_name(fs_name_of(t)) == t,
{
    reveal_fs_names();
}

/// Parsing any name, formatting the result, and parsing again gives the
/// same value as the first parse: the escape hatch is round-trip stable
/// for arbitrary strings.
pub proof fn lemma_fs_type_reparse(s: Seq<char>)
    ensures
        fs_type_of_name(fs_name_of(fs_type_of_name(s))) == fs_type_of_name(s),
{
    reveal_fs_names();
}

impl FsType {
    /// The filesystem kind named by `s`; an unrecognized name is preserved
    /// verbatim, never rejected.
    pub fn from_name(s: &str) -> (r: FsType)
        ensures
            r@ == fs_type_of_name(s@),
    {
        if crate::text::str_eq(s, "proc") {
            FsType::Proc
        } else if crate::text::str_eq(s, "overlay") {
            FsType::Overlay
        } else if crate::text::str_eq(s, "tmpfs") {
            FsType::Tmpfs
        } else if crate::text::str_eq(s, "sysfs") {
            FsType::Sysfs
        } else if crate::text::str_eq(s, "btrfs") {
            FsType::Btrfs
        } else if crate::text::str_eq(s, "ext2") {
            FsType::Ext2
        } else if crate::text::str_eq(s, "ext3") {
            FsType::Ext3
        } else if crate::text::str_eq(s, "ext4") {
            FsType::Ext4
        } else if crate::text::str_eq(s, "devtmpfs") {
            FsType::Devtmpfs
        } else {
            FsType::Other(s.to_owned())
        }
    }

    /// The textual form of this filesystem kind; parsing it back with
    /// [`FsType::from_name`] reproduces the value.
    pub fn name(&self) -> (r: String)
        ensures
            r@ == fs_name_of(self@),
    {
        match self {
            FsType::Proc => "proc".to_owned(),
            FsType::Overlay => "overlay".to_owned(),
            FsType::Tmpfs => "tmpfs".to_owned(),
            FsType::Sysfs => "sysfs".to_owned(),
            FsType::Btrfs => "btrfs".to_owned(),
            FsType::Ext2 => "ext2".to_owned(),
            FsType::Ext3 => "ext3".to_owned(),
            FsType::Ext4 => "ext4".to_owned(),
            FsType::Devtmpfs => "devtmpfs".to_owned(),
            FsType::Other(name) => name.clone(),
        }
    }
}

impl PartialEq for FsType {
    fn eq(&self, other: &FsType) -> (r: bool) {
        match (self, other) {
            (FsType::Proc, FsType::Proc) => true,
            (FsType::Overlay, FsType::Overlay) => true,
            (FsType::Tmpfs, FsType::Tmpfs) => true,
            (FsType::Sysfs, FsType::Sysfs) => true,
            (FsType::Btrfs, FsType::Btrfs) => true,
            (FsType::Ext2, FsType::Ext2) => true,
            (FsType::Ext3, FsType::Ext3) => true,
            (FsType::Ext4, FsType::Ext4) => true,
            (FsType::Devtmpfs, FsType::Devtmpfs) => true,
            (FsType::Other(a), FsType::Other(b)) => *a == *b,
            _ => false,
        }
    }
}

impl vstd::std_specs::cmp::PartialEqSpecImpl for FsType {
    open spec fn obeys_eq_spec() -> bool {
        true
    }

    open spec fn eq_spec(&self, other: &FsType) -> bool {
        self@ == other@
    }
}

} // verus!

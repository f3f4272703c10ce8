//! The supported instruction-set architectures and their fixed patch window.

use vstd::prelude::*;

verus! {

/// An instruction-set architecture the patch engine can emit a branch for.
#[derive(Clone, Copy, PartialEq, Eq, Structural, Debug)]
pub enum Arch {
    X86,
    X86_64,
    Aarch64,
    Arm,
}

/// The fixed number of bytes the patch engine overwrites (and therefore
/// backs up) on each architecture.
pub open spec fn backup_len_spec(arch: Arch) -> nat {
    match arch {
        Arch::X86 => 7,
        Arch::X86_64 => 12,
        Arch::Aarch64 => 16,
        Arch::Arm => 9,
    }
}

/// Number of bytes the patch window spans on `arch`: the length of the
/// backup every patch application captures.
pub fn backup_len(arch: Arch) -> (r: usize)
    ensures
        r == backup_len_spec(arch),
{
    match arch {
        Arch::X86 => 7,
        Arch::X86_64 => 12,
        Arch::Aarch64 => 16,
        Arch::Arm => 9,
    }
}

} // verus!

//! The protected patch applier, modeled on the byte window at the write
//! address: backup capture before any write, the write itself, and the
//! restoration of a backup. The memory-permission primitive and the
//! instruction-cache invalidation are outside collaborators; an embedder
//! brackets these operations with them and carries the resulting bytes to
//! and from executable memory.

use vstd::prelude::*;
use crate::arch::Arch;
use crate::patch::{
    generate_patch, lemma_patch_bytes_len, patch_bytes, patch_inputs_ok, patch_len_spec,
};

verus! {

/// The write address for a nominal target address: on arm a Thumb-tagged
/// address is stripped of its tag to reach the underlying instruction
/// stream; every other architecture patches the address as given. The
/// caller keeps reasoning about the nominal (tagged) address.
pub open spec fn write_address_spec(arch: Arch, target: u64) -> u64 {
    if arch == Arch::Arm && target % 2 == 1 {
        (target - 1) as u64
    } else {
        target
    }
}

/// Computes where the patch bytes are written for a nominal target address.
pub fn write_address(arch: Arch, target: u64) -> (r: u64)
    ensures
        r == write_address_spec(arch, target),
{
    if arch == Arch::Arm && target % 2 == 1 {
        target - 1
    } else {
        target
    }
}

/// An exact copy of the bytes originally at a write address, captured
/// before the patch overwrote them. The ghost address records where the
/// bytes were read from: a backup must never be written back to any other
/// address, and `restore` demands that match as a precondition rather than
/// checking anything at run time.
pub struct Backup {
    pub bytes: Vec<u8>,
    pub addr: Ghost<u64>,
}

/// The byte window the engine works on: the bytes sitting at `addr`, as
/// the embedder read them from (and will carry them back to) executable
/// memory under the permission collaborator's scope.
pub struct CodeWindow {
    pub addr: u64,
    pub bytes: Vec<u8>,
}

/// A data sequence written over the front of a window, the rest untouched.
pub open spec fn written(mem: Seq<u8>, data: Seq<u8>) -> Seq<u8>
    recommends
        data.len() <= mem.len(),
{
    data + mem.skip(data.len() as int)
}

/// Round trip: writing a patch over a window and then writing back the
/// bytes captured from it beforehand leaves the window byte-for-byte
/// identical to its pre-write contents.
pub proof fn lemma_round_trip(mem: Seq<u8>, patch: Seq<u8>)
    requires
        patch.len() <= mem.len(),
    ensures
        written(written(mem, patch), mem.take(patch.len() as int)) == mem,
{
    assert(written(written(mem, patch), mem.take(patch.len() as int)) =~= mem);
}

/// Writes `data` over the front of the window's bytes, leaving the rest.
fn overwrite_front(window: &mut CodeWindow, data: &Vec<u8>)
    requires
        data@.len() <= old(window).bytes@.len(),
    ensures
        final(window).addr == old(window).addr,
        final(window).bytes@ == written(old(window).bytes@, data@),
{
    let n = data.len();
    let mut j: usize = 0;
    while j < n
        invariant
            j <= n,
            n == data@.len(),
            window.addr == old(window).addr,
            window.bytes@.len() == old(window).bytes@.len(),
            n <= window.bytes@.len(),
            forall|k: int| 0 <= k < j ==> window.bytes@[k] == data@[k],
            forall|k: int|
                j <= k < window.bytes@.len() ==> window.bytes@[k] == old(window).bytes@[k],
        decreases n - j,
    {
        let b: u8 = data[j];
        window.bytes[j] = b;
        j = j + 1;
    }
    proof {
        assert(window.bytes@ =~= written(old(window).bytes@, data@));
    }
}

/// Applies the patch redirecting `target` to `hook` to the window at the
/// target's write address: captures the backup before any byte changes,
/// then writes the generated patch over the front of the window, and hands
/// the backup to the caller. Pure byte-level protocol; the permission
/// scope and the cache invalidation bracket this in the embedder.
pub fn apply(window: &mut CodeWindow, arch: Arch, target: u64, hook: u64) -> (backup: Backup)
    requires
        patch_inputs_ok(arch, target, hook),
        old(window).addr == write_address_spec(arch, target),
        patch_len_spec(arch, target) <= old(window).bytes@.len(),
    ensures
        final(window).addr == old(window).addr,
        final(window).bytes@ == written(old(window).bytes@, patch_bytes(arch, target, hook)),
        backup.addr@ == old(window).addr,
        backup.bytes@ == old(window).bytes@.take(patch_bytes(arch, target, hook).len() as int),
{
    proof {
        lemma_patch_bytes_len(arch, target, hook);
    }
    let patch = generate_patch(arch, target, hook);
    let n = patch.len();
    let mut saved: Vec<u8> = Vec::new();
    let mut i: usize = 0;
    while i < n
        invariant
            i <= n,
            n <= window.bytes@.len(),
            *window == *old(window),
            saved@ == window.bytes@.take(i as int),
        decreases n - i,
    {
        let b: u8 = window.bytes[i];
        saved.push(b);
        proof {
            assert(saved@ =~= window.bytes@.take(i + 1));
        }
        i = i + 1;
    }
    overwrite_front(window, &patch);
    Backup { bytes: saved, addr: Ghost(window.addr) }
}

/// Writes a backup verbatim back over the front of the window it was
/// captured from, undoing the patch there. The backup must have been
/// captured at this very address: restoring it anywhere else corrupts
/// unrelated code and is outside the contract, so the match is demanded
/// here as a precondition.
pub fn restore(window: &mut CodeWindow, backup: &Backup)
    requires
        backup.addr@ == old(window).addr,
        backup.bytes@.len() <= old(window).bytes@.len(),
    ensures
        final(window).addr == old(window).addr,
        final(window).bytes@ == written(old(window).bytes@, backup.bytes@),
{
    overwrite_front(window, &backup.bytes);
}

} // verus!

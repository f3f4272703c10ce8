//! Architecture patch generation: the pure function from (target address,
//! hook address) to the branch/jump byte sequence that redirects the target
//! to the hook.

use vstd::prelude::*;
use crate::arch::{Arch, backup_len_spec};

verus! {

/// The `n` least-significant bytes of `v`, least-significant first
/// (little-endian order, the byte order of every supported architecture).
pub open spec fn le_bytes(v: nat, n: nat) -> Seq<u8>
    decreases n,
{
    if n == 0 {
        Seq::empty()
    } else {
        seq![(v % 256) as u8] + le_bytes(v / 256, (n - 1) as nat)
    }
}

pub proof fn lemma_le_bytes_len(v: nat, n: nat)
    ensures
        le_bytes(v, n).len() == n,
    decreases n,
{
    if n > 0 {
        lemma_le_bytes_len(v / 256, (n - 1) as nat);
    }
}

/// Appends the `n` least-significant bytes of `x` to `v`, least-significant
/// first.
pub fn push_le(v: &mut Vec<u8>, x: u64, n: usize)
    ensures
        final(v)@ == old(v)@ + le_bytes(x as nat, n as nat),
{
    let mut cur: u64 = x;
    let mut k: usize = 0;
    while k < n
        invariant
            k <= n,
            v@ + le_bytes(cur as nat, (n - k) as nat) =~= old(v)@ + le_bytes(
                x as nat,
                n as nat,
            ),
        decreases n - k,
    {
        let b: u8 = (cur % 256) as u8;
        v.push(b);
        proof {
            assert(le_bytes(cur as nat, (n - k) as nat) == seq![b] + le_bytes(
                cur as nat / 256,
                (n - k - 1) as nat,
            ));
            assert(v@ + le_bytes(cur as nat / 256, (n - k - 1) as nat) =~= old(v)@ + le_bytes(
                x as nat,
                n as nat,
            ));
        }
        cur = cur / 256;
        k = k + 1;
    }
    proof {
        assert(v@ =~= v@ + le_bytes(cur as nat, 0));
    }
}

/// Whether the address carries the Thumb-mode tag (its low bit is set).
pub fn is_thumb(addr: u32) -> (r: bool)
    ensures
        r == (addr % 2 == 1),
{
    proof {
        assert((addr & 1 != 0) == (addr % 2 == 1)) by (bit_vector);
    }
    addr & 1 != 0
}

/// Strips the Thumb-mode tag, yielding the address of the underlying
/// instruction stream.
pub fn clear_thumb_bit(addr: u32) -> (r: u32)
    ensures
        r == addr - addr % 2,
{
    proof {
        assert((addr & 0xfffffffe) == addr - addr % 2) by (bit_vector);
    }
    addr & 0xfffffffe
}

/// Whether the address sits on a 4-byte boundary.
pub fn is_aligned(addr: u32) -> (r: bool)
    ensures
        r == (addr % 4 == 0),
{
    addr % 4 == 0
}

/// x86: `mov eax, hook; jmp eax` — 7 bytes, no range restriction within the
/// 32-bit address space.
pub open spec fn x86_patch(hook: u64) -> Seq<u8> {
    seq![0xb8u8] + le_bytes(hook as nat, 4) + seq![0xffu8, 0xe0u8]
}

/// x86_64: `movabs rax, hook; jmp rax` — 12 bytes, no range restriction.
pub open spec fn x86_64_patch(hook: u64) -> Seq<u8> {
    seq![0x48u8, 0xb8u8] + le_bytes(hook as nat, 8) + seq![0xffu8, 0xe0u8]
}

/// Whether a single aarch64 relative branch can reach `hook` from `target`:
/// the signed word-displacement `(hook - target) / 4` must lie in
/// `-0x200_0000 ..= 0x1ff_ffff` words.
pub open spec fn aarch64_short_reach(target: u64, hook: u64) -> bool {
    if hook >= target {
        hook - target <= 0x7ff_fffc
    } else {
        target - hook <= 0x800_0000
    }
}

/// The 26-bit branch immediate: the word displacement in two's complement.
pub open spec fn aarch64_imm26(target: u64, hook: u64) -> nat {
    if hook >= target {
        ((hook - target) / 4) as nat
    } else {
        (0x400_0000 - (target - hook) / 4) as nat
    }
}

/// The aarch64 `B` instruction carrying the 26-bit immediate.
pub open spec fn aarch64_branch_insn(target: u64, hook: u64) -> nat {
    0x1400_0000 + aarch64_imm26(target, hook)
}

/// aarch64 long form: `ldr x16, #8; br x16`, followed by the 8-byte literal.
pub open spec fn aarch64_long_prefix() -> Seq<u8> {
    seq![0x50u8, 0x00u8, 0x00u8, 0x58u8, 0x00u8, 0x02u8, 0x1fu8, 0xd6u8]
}

/// aarch64: a single relative branch when the displacement is in range
/// (padded with zero bytes to the fixed 16-byte footprint), otherwise a
/// load of an inline literal followed by a register branch. Either way the
/// footprint is the full 16-byte window, so callers never need to know
/// which form was chosen.
pub open spec fn aarch64_patch(target: u64, hook: u64) -> Seq<u8> {
    if aarch64_short_reach(target, hook) {
        le_bytes(aarch64_branch_insn(target, hook), 4) + le_bytes(0, 12)
    } else {
        aarch64_long_prefix() + le_bytes(hook as nat, 8)
    }
}

/// Thumb `ldr.w pc, [pc]`: loads the program counter from the word right
/// after the instruction.
pub open spec fn thumb_ldr_pc() -> Seq<u8> {
    seq![0xdfu8, 0xf8u8, 0x00u8, 0xf0u8]
}

/// Thumb 2-byte no-op, emitted to 4-align the load when the entry is not
/// on a 4-byte boundary.
pub open spec fn thumb_nop() -> Seq<u8> {
    seq![0x00u8, 0xbfu8]
}

/// Arm-mode `ldr pc, [pc, #-4]`: loads the program counter from the word
/// right after the instruction.
pub open spec fn arm_ldr_pc() -> Seq<u8> {
    seq![0x04u8, 0xf0u8, 0x1fu8, 0xe5u8]
}

/// arm: in Thumb mode (low address bit set) a PC-relative load-into-PC with
/// the hook address as an inline literal, preceded by a 2-byte no-op when
/// the untagged entry is not 4-byte aligned; in Arm mode the 4-byte
/// equivalent. The aligned forms carry one zero byte of padding so that the
/// emitted length matches the fixed window.
pub open spec fn arm_patch(target: u64, hook: u64) -> Seq<u8> {
    if target % 2 == 1 {
        if (target - 1) % 4 == 0 {
            thumb_ldr_pc() + le_bytes(hook as nat, 4) + seq![0x00u8]
        } else {
            thumb_nop() + thumb_ldr_pc() + le_bytes(hook as nat, 4)
        }
    } else {
        arm_ldr_pc() + le_bytes(hook as nat, 4) + seq![0x00u8]
    }
}

/// The inputs each architecture's encoding can represent: a 32-bit hook
/// address on the 32-bit architectures, and instruction-aligned addresses
/// on aarch64.
pub open spec fn patch_inputs_ok(arch: Arch, target: u64, hook: u64) -> bool {
    match arch {
        Arch::X86 => hook <= 0xffff_ffff,
        Arch::X86_64 => true,
        Arch::Aarch64 => target % 4 == 0 && hook % 4 == 0,
        Arch::Arm => target <= 0xffff_ffff && hook <= 0xffff_ffff,
    }
}

/// The byte sequence that redirects `target` to `hook` on `arch`.
pub open spec fn patch_bytes(arch: Arch, target: u64, hook: u64) -> Seq<u8> {
    match arch {
        Arch::X86 => x86_patch(hook),
        Arch::X86_64 => x86_64_patch(hook),
        Arch::Aarch64 => aarch64_patch(target, hook),
        Arch::Arm => arm_patch(target, hook),
    }
}

/// Whether the patch for `target` fits the architecture's fixed window.
/// Only a Thumb-mode entry that is not 4-byte aligned after untagging
/// overruns it: the alignment no-op, the load and the literal need one byte
/// more than the window holds.
pub open spec fn patch_fits(arch: Arch, target: u64) -> bool {
    !(arch == Arch::Arm && target % 2 == 1 && (target - 1) % 4 != 0)
}

/// The exact length of the generated patch.
pub open spec fn patch_len_spec(arch: Arch, target: u64) -> nat {
    if patch_fits(arch, target) {
        backup_len_spec(arch)
    } else {
        backup_len_spec(arch) + 1
    }
}

pub proof fn lemma_patch_bytes_len(arch: Arch, target: u64, hook: u64)
    ensures
        patch_bytes(arch, target, hook).len() == patch_len_spec(arch, target),
{
    match arch {
        Arch::X86 => {
            lemma_le_bytes_len(hook as nat, 4);
        },
        Arch::X86_64 => {
            lemma_le_bytes_len(hook as nat, 8);
        },
        Arch::Aarch64 => {
            if aarch64_short_reach(target, hook) {
                lemma_le_bytes_len(aarch64_branch_insn(target, hook), 4);
                lemma_le_bytes_len(0, 12);
            } else {
                lemma_le_bytes_len(hook as nat, 8);
            }
        },
        Arch::Arm => {
            lemma_le_bytes_len(hook as nat, 4);
        },
    }
}

/// Length invariant: on every architecture, for every code path — short and
/// long aarch64 branch, Thumb and Arm sub-case — the generated patch is
/// exactly `backup_len_spec(arch)` bytes long, provided the patch fits its
/// window (every case except a Thumb entry that is unaligned once its tag
/// is stripped, which needs one byte more than the window holds).
pub proof fn lemma_patch_length_invariant(arch: Arch, target: u64, hook: u64)
    requires
        patch_fits(arch, target),
    ensures
        patch_bytes(arch, target, hook).len() == backup_len_spec(arch),
{
    lemma_patch_bytes_len(arch, target, hook);
}

/// The one overrun, stated rather than hidden: a Thumb-tagged target whose
/// untagged entry is not 4-byte aligned yields a patch one byte longer than
/// the fixed window.
pub proof fn lemma_thumb_unaligned_patch_len(target: u64, hook: u64)
    requires
        target % 2 == 1,
        (target - 1) % 4 != 0,
    ensures
        patch_bytes(Arch::Arm, target, hook).len() == backup_len_spec(Arch::Arm) + 1,
{
    lemma_patch_bytes_len(Arch::Arm, target, hook);
}

/// Idempotent generation: any two results of `generate_patch` on identical
/// inputs are byte-identical, since the contract pins each to the same
/// sequence, a function of the inputs alone.
pub proof fn lemma_generation_deterministic(
    arch: Arch,
    target: u64,
    hook: u64,
    r1: Seq<u8>,
    r2: Seq<u8>,
)
    requires
        r1 == patch_bytes(arch, target, hook),
        r2 == patch_bytes(arch, target, hook),
    ensures
        r1 == r2,
{
}

/// Generates the branch patch redirecting `target` to `hook` on `arch`:
/// a pure function of its inputs, so two calls with identical inputs
/// produce byte-identical output.
pub fn generate_patch(arch: Arch, target: u64, hook: u64) -> (r: Vec<u8>)
    requires
        patch_inputs_ok(arch, target, hook),
    ensures
        r@ == patch_bytes(arch, target, hook),
{
    let mut v: Vec<u8> = Vec::new();
    match arch {
        Arch::X86 => {
            v.push(0xb8);
            push_le(&mut v, hook, 4);
            v.push(0xff);
            v.push(0xe0);
            proof {
                assert(v@ =~= x86_patch(hook));
            }
        },
        Arch::X86_64 => {
            v.push(0x48);
            v.push(0xb8);
            push_le(&mut v, hook, 8);
            v.push(0xff);
            v.push(0xe0);
            proof {
                assert(v@ =~= x86_64_patch(hook));
            }
        },
        Arch::Aarch64 => {
            let short: bool = if hook >= target {
                hook - target <= 0x7ff_fffc
            } else {
                target - hook <= 0x800_0000
            };
            if short {
                let imm: u64 = if hook >= target {
                    (hook - target) / 4
                } else {
                    0x400_0000 - (target - hook) / 4
                };
                let insn: u64 = 0x1400_0000 + imm;
                assert(insn as nat == aarch64_branch_insn(target, hook));
                push_le(&mut v, insn, 4);
                push_le(&mut v, 0, 12);
                proof {
                    assert(v@ =~= aarch64_patch(target, hook));
                }
            } else {
                v.push(0x50);
                v.push(0x00);
                v.push(0x00);
                v.push(0x58);
                v.push(0x00);
                v.push(0x02);
                v.push(0x1f);
                v.push(0xd6);
                push_le(&mut v, hook, 8);
                proof {
                    assert(v@ =~= aarch64_patch(target, hook));
                }
            }
        },
        Arch::Arm => {
            let t32: u32 = target as u32;
            if is_thumb(t32) {
                let entry: u32 = clear_thumb_bit(t32);
                if is_aligned(entry) {
                    v.push(0xdf);
                    v.push(0xf8);
                    v.push(0x00);
                    v.push(0xf0);
                    push_le(&mut v, hook, 4);
                    v.push(0x00);
                } else {
                    v.push(0x00);
                    v.push(0xbf);
                    v.push(0xdf);
                    v.push(0xf8);
                    v.push(0x00);
                    v.push(0xf0);
                    push_le(&mut v, hook, 4);
                }
            } else {
                v.push(0x04);
                v.push(0xf0);
                v.push(0x1f);
                v.push(0xe5);
                push_le(&mut v, hook, 4);
                v.push(0x00);
            }
            proof {
                assert(v@ =~= arm_patch(target, hook));
            }
        },
    }
    v
}

} // verus!

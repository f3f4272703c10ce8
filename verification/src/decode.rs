//! Decoding (simulation) of the aarch64 patch: where the emitted branch
//! lands. Used to state and prove that both the short and the long form
//! transfer control exactly to the hook address.

use vstd::prelude::*;
use crate::arch::Arch;
use crate::patch::{
    aarch64_branch_insn, aarch64_imm26, aarch64_long_prefix, aarch64_short_reach, le_bytes,
    patch_bytes,
};

verus! {

/// 256 to the `n`th power: the number of values `n` bytes can hold.
pub open spec fn pow256(n: nat) -> nat
    decreases n,
{
    if n == 0 {
        1
    } else {
        256 * pow256((n - 1) as nat)
    }
}

pub proof fn lemma_pow256_values()
    ensures
        pow256(0) == 1,
        pow256(1) == 0x100,
        pow256(2) == 0x1_0000,
        pow256(3) == 0x100_0000,
        pow256(4) == 0x1_0000_0000,
        pow256(5) == 0x100_0000_0000,
        pow256(6) == 0x1_0000_0000_0000,
        pow256(7) == 0x100_0000_0000_0000,
        pow256(8) == 0x1_0000_0000_0000_0000,
{
    assert(pow256(0) == 1);
    assert(pow256(1) == 0x100);
    assert(pow256(2) == 0x1_0000);
    assert(pow256(3) == 0x100_0000);
    assert(pow256(4) == 0x1_0000_0000);
    assert(pow256(5) == 0x100_0000_0000);
    assert(pow256(6) == 0x1_0000_0000_0000);
    assert(pow256(7) == 0x100_0000_0000_0000);
    assert(pow256(8) == 0x1_0000_0000_0000_0000);
}

/// The value whose little-endian bytes are `s`.
pub open spec fn from_le(s: Seq<u8>) -> nat
    decreases s.len(),
{
    if s.len() == 0 {
        0
    } else {
        (s[0] + 256 * from_le(s.skip(1))) as nat
    }
}

/// Reading back the little-endian bytes of a value below `pow256(n)`
/// recovers the value.
pub proof fn lemma_from_le_of_le_bytes(v: nat, n: nat)
    requires
        v < pow256(n),
    ensures
        from_le(le_bytes(v, n)) == v,
    decreases n,
{
    if n == 0 {
        assert(le_bytes(v, 0) == Seq::<u8>::empty());
    } else {
        let s = le_bytes(v, n);
        assert(s == seq![(v % 256) as u8] + le_bytes(v / 256, (n - 1) as nat));
        assert(s.skip(1) =~= le_bytes(v / 256, (n - 1) as nat));
        assert(v / 256 < pow256((n - 1) as nat)) by (nonlinear_arith)
            requires
                v < 256 * pow256((n - 1) as nat),
        ;
        lemma_from_le_of_le_bytes(v / 256, (n - 1) as nat);
        assert(from_le(s) == v % 256 + 256 * (v / 256));
    }
}

pub proof fn lemma_from_le_unfold(s: Seq<u8>)
    requires
        s.len() > 0,
    ensures
        from_le(s) == s[0] + 256 * from_le(s.skip(1)),
{
}

/// The word count a 26-bit branch immediate stands for, in two's complement.
pub open spec fn sign_extend_26(imm: nat) -> int {
    if imm >= 0x200_0000 {
        imm - 0x400_0000
    } else {
        imm as int
    }
}

/// Where a 16-byte aarch64 patch at address `pc` transfers control to:
/// for the short form (a `B` instruction in the first word), the
/// PC-relative destination; for the long form (load of the inline literal,
/// then a register branch), the literal itself. `None` when the bytes are
/// neither.
pub open spec fn decode_aarch64(patch: Seq<u8>, pc: u64) -> Option<int> {
    if patch.len() == 16 {
        let insn = from_le(patch.take(4));
        if insn / 0x400_0000 == 5 {
            Some(pc + 4 * sign_extend_26(insn % 0x400_0000))
        } else if patch.take(8) == aarch64_long_prefix() {
            Some(from_le(patch.skip(8)) as int)
        } else {
            None
        }
    } else {
        None
    }
}

/// Range boundary and reachability: whichever form the generator chose —
/// the short relative branch when the word displacement is in range, the
/// long literal-load form otherwise — the emitted aarch64 patch decodes to
/// a control transfer landing exactly at the hook address.
pub proof fn lemma_aarch64_patch_reaches_hook(target: u64, hook: u64)
    requires
        target % 4 == 0,
        hook % 4 == 0,
    ensures
        decode_aarch64(patch_bytes(Arch::Aarch64, target, hook), target) == Some(hook as int),
{
    lemma_pow256_values();
    let patch = patch_bytes(Arch::Aarch64, target, hook);
    crate::patch::lemma_patch_bytes_len(Arch::Aarch64, target, hook);
    if aarch64_short_reach(target, hook) {
        let imm = aarch64_imm26(target, hook);
        let insn = aarch64_branch_insn(target, hook);
        crate::patch::lemma_le_bytes_len(insn, 4);
        assert(patch.take(4) =~= le_bytes(insn, 4));
        lemma_from_le_of_le_bytes(insn, 4);
        assert(insn / 0x400_0000 == 5 && insn % 0x400_0000 == imm) by (nonlinear_arith)
            requires
                insn == 0x1400_0000 + imm,
                imm < 0x400_0000,
        ;
        let qh = hook as int / 4;
        let qt = target as int / 4;
        assert(hook == 4 * qh);
        assert(target == 4 * qt);
        if hook >= target {
            let d = hook - target;
            assert(d == 4 * (qh - qt));
            assert(d as int / 4 == qh - qt);
            assert(4 * (d as int / 4) == d);
            assert(sign_extend_26(imm) == d as int / 4);
        } else {
            let b = target - hook;
            assert(b == 4 * (qt - qh));
            assert(b as int / 4 == qt - qh);
            assert(4 * (b as int / 4) == b);
            assert(b >= 4);
            assert(imm == 0x400_0000 - b / 4);
            assert(sign_extend_26(imm) == 0 - (b as int / 4));
        }
    } else {
        crate::patch::lemma_le_bytes_len(hook as nat, 8);
        assert(patch.take(8) =~= aarch64_long_prefix());
        assert(patch.skip(8) =~= le_bytes(hook as nat, 8));
        lemma_from_le_of_le_bytes(hook as nat, 8);
        let p4 = patch.take(4);
        assert(p4 =~= seq![0x50u8, 0x00u8, 0x00u8, 0x58u8]);
        assert(p4.skip(1) =~= seq![0x00u8, 0x00u8, 0x58u8]);
        assert(p4.skip(1).skip(1) =~= seq![0x00u8, 0x58u8]);
        assert(p4.skip(1).skip(1).skip(1) =~= seq![0x58u8]);
        assert(p4.skip(1).skip(1).skip(1).skip(1) =~= Seq::<u8>::empty());
        assert(from_le(Seq::<u8>::empty()) == 0);
        lemma_from_le_unfold(p4.skip(1).skip(1).skip(1));
        assert(from_le(p4.skip(1).skip(1).skip(1)) == 0x58);
        lemma_from_le_unfold(p4.skip(1).skip(1));
        assert(from_le(p4.skip(1).skip(1)) == 0x58_00);
        lemma_from_le_unfold(p4.skip(1));
        assert(from_le(p4.skip(1)) == 0x58_0000);
        lemma_from_le_unfold(p4);
        assert(from_le(p4) == 0x5800_0050);
    }
}

/// Reads `n` little-endian bytes of `v` starting at `off`.
fn read_le(v: &Vec<u8>, off: usize, n: usize) -> (r: u64)
    requires
        off + n <= v@.len(),
        n <= 8,
    ensures
        r as nat == from_le(v@.subrange(off as int, (off + n) as int)),
{
    proof {
        lemma_pow256_values();
    }
    let vl: usize = v.len();
    let mut acc: u64 = 0;
    let mut i: usize = n;
    while i > 0
        invariant
            i <= n,
            n <= 8,
            off + n <= vl,
            vl == v@.len(),
            acc as nat == from_le(v@.subrange((off + i) as int, (off + n) as int)),
            acc < pow256((n - i) as nat),
            pow256(8) == 0x1_0000_0000_0000_0000,
        decreases i,
    {
        proof {
            lemma_pow256_values();
            lemma_pow256_mono((n - i) as nat, 7);
        }
        i = i - 1;
        let b: u8 = v[off + i];
        let prev: u64 = acc;
        acc = (b as u64) + 256 * acc;
        proof {
            let s = v@.subrange((off + i) as int, (off + n) as int);
            assert(s.len() > 0);
            assert(s[0] == b);
            assert(s.skip(1) =~= v@.subrange((off + i + 1) as int, (off + n) as int));
            assert(from_le(s) == b + 256 * from_le(s.skip(1)));
            assert(acc < pow256((n - i) as nat)) by (nonlinear_arith)
                requires
                    acc == b + 256 * (prev as nat),
                    b < 256,
                    (prev as nat) < pow256((n - i - 1) as nat),
                    pow256((n - i) as nat) == 256 * pow256((n - i - 1) as nat),
            ;
        }
    }
    acc
}

pub proof fn lemma_pow256_mono(a: nat, b: nat)
    requires
        a <= b,
    ensures
        pow256(a) <= pow256(b),
    decreases b,
{
    if a < b {
        lemma_pow256_mono(a, (b - 1) as nat);
        assert(pow256(b) == 256 * pow256((b - 1) as nat));
        assert(pow256((b - 1) as nat) <= 256 * pow256((b - 1) as nat)) by (nonlinear_arith)
            requires
                pow256((b - 1) as nat) >= 0,
        ;
    }
}

/// Simulates a 16-byte aarch64 patch placed at `pc`: returns the address
/// the branch lands on, or `None` when the bytes are not a recognized patch
/// or the destination falls outside the address space.
pub fn decode_branch(patch: &Vec<u8>, pc: u64) -> (r: Option<u64>)
    ensures
        match r {
            Some(d) => decode_aarch64(patch@, pc) == Some(d as int),
            None => match decode_aarch64(patch@, pc) {
                Some(d) => d < 0 || d > u64::MAX,
                None => true,
            },
        },
{
    proof {
        lemma_pow256_values();
    }
    if patch.len() != 16 {
        return None;
    }
    let insn: u64 = read_le(patch, 0, 4);
    proof {
        assert(patch@.subrange(0, 4) =~= patch@.take(4));
    }
    if insn / 0x400_0000 == 5 {
        let imm: u64 = insn % 0x400_0000;
        if imm >= 0x200_0000 {
            let back: u64 = 4 * (0x400_0000 - imm);
            if pc >= back {
                Some(pc - back)
            } else {
                None
            }
        } else {
            let fwd: u64 = 4 * imm;
            if pc <= u64::MAX - fwd {
                Some(pc + fwd)
            } else {
                None
            }
        }
    } else {
        let is_long: bool = patch[0] == 0x50 && patch[1] == 0x00 && patch[2] == 0x00
            && patch[3] == 0x58 && patch[4] == 0x00 && patch[5] == 0x02 && patch[6] == 0x1f
            && patch[7] == 0xd6;
        if is_long {
            proof {
                assert(patch@.take(8) =~= aarch64_long_prefix());
            }
            let dest: u64 = read_le(patch, 8, 8);
            proof {
                assert(patch@.subrange(8, 16) =~= patch@.skip(8));
            }
            Some(dest)
        } else {
            proof {
                if patch@.take(8) == aarch64_long_prefix() {
                    assert(patch@[0] == 0x50 && patch@[1] == 0x00 && patch@[2] == 0x00
                        && patch@[3] == 0x58 && patch@[4] == 0x00 && patch@[5] == 0x02
                        && patch@[6] == 0x1f && patch@[7] == 0xd6);
                }
            }
            None
        }
    }
}

} // verus!

use bhook::arch::{backup_len, Arch};
use bhook::decode::decode_branch;
use bhook::patch::{clear_thumb_bit, generate_patch, is_aligned, is_thumb};

#[test]
fn backup_len_per_architecture() {
    assert_eq!(backup_len(Arch::X86), 7);
    assert_eq!(backup_len(Arch::X86_64), 12);
    assert_eq!(backup_len(Arch::Aarch64), 16);
    assert_eq!(backup_len(Arch::Arm), 9);
}

#[test]
fn x86_patch_bytes_exact() {
    let patch = generate_patch(Arch::X86, 0x40_0000, 0x1234_5678);
    assert_eq!(patch, vec![0xb8, 0x78, 0x56, 0x34, 0x12, 0xff, 0xe0]);
    assert_eq!(patch.len(), backup_len(Arch::X86));
}

#[test]
fn x86_64_patch_bytes_exact() {
    let patch = generate_patch(Arch::X86_64, 0x40_0000, 0x1122_3344_5566_7788);
    assert_eq!(
        patch,
        vec![0x48, 0xb8, 0x88, 0x77, 0x66, 0x55, 0x44, 0x33, 0x22, 0x11, 0xff, 0xe0]
    );
    assert_eq!(patch.len(), backup_len(Arch::X86_64));
}

#[test]
fn generation_is_idempotent() {
    let a = generate_patch(Arch::Aarch64, 0x1_0000, 0x9_0000);
    let b = generate_patch(Arch::Aarch64, 0x1_0000, 0x9_0000);
    assert_eq!(a, b);
    let c = generate_patch(Arch::Arm, 0x2_0001, 0x3_0000);
    let d = generate_patch(Arch::Arm, 0x2_0001, 0x3_0000);
    assert_eq!(c, d);
}

#[test]
fn aarch64_short_forward_encoding() {
    let target: u64 = 0x1_0000;
    let hook: u64 = 0x1_0008;
    let patch = generate_patch(Arch::Aarch64, target, hook);
    assert_eq!(patch.len(), backup_len(Arch::Aarch64));
    // B +8: 0x14000002, then zero padding to the fixed footprint.
    assert_eq!(&patch[0..4], &[0x02, 0x00, 0x00, 0x14]);
    assert_eq!(&patch[4..16], &[0u8; 12]);
    assert_eq!(decode_branch(&patch, target), Some(hook));
}

#[test]
fn aarch64_forward_boundary_selects_short_form() {
    let target: u64 = 0x1000_0000;
    let hook: u64 = target + 0x7ff_fffc;
    let patch = generate_patch(Arch::Aarch64, target, hook);
    assert_eq!(patch.len(), backup_len(Arch::Aarch64));
    // B with the largest forward immediate: 0x15ffffff.
    assert_eq!(&patch[0..4], &[0xff, 0xff, 0xff, 0x15]);
    assert_eq!(decode_branch(&patch, target), Some(hook));
}

#[test]
fn aarch64_one_word_past_forward_boundary_selects_long_form() {
    let target: u64 = 0x1000_0000;
    let hook: u64 = target + 0x800_0000;
    let patch = generate_patch(Arch::Aarch64, target, hook);
    assert_eq!(patch.len(), backup_len(Arch::Aarch64));
    // ldr x16, #8; br x16; inline literal.
    assert_eq!(&patch[0..8], &[0x50, 0x00, 0x00, 0x58, 0x00, 0x02, 0x1f, 0xd6]);
    assert_eq!(&patch[8..16], &hook.to_le_bytes());
    assert_eq!(decode_branch(&patch, target), Some(hook));
}

#[test]
fn aarch64_backward_boundary_selects_short_form() {
    let target: u64 = 0x1000_0000;
    let hook: u64 = target - 0x800_0000;
    let patch = generate_patch(Arch::Aarch64, target, hook);
    assert_eq!(patch.len(), backup_len(Arch::Aarch64));
    // B with the most negative immediate: 0x16000000.
    assert_eq!(&patch[0..4], &[0x00, 0x00, 0x00, 0x16]);
    assert_eq!(decode_branch(&patch, target), Some(hook));
}

#[test]
fn aarch64_one_word_past_backward_boundary_selects_long_form() {
    let target: u64 = 0x1000_0000;
    let hook: u64 = target - 0x800_0004;
    let patch = generate_patch(Arch::Aarch64, target, hook);
    assert_eq!(patch.len(), backup_len(Arch::Aarch64));
    assert_eq!(&patch[0..8], &[0x50, 0x00, 0x00, 0x58, 0x00, 0x02, 0x1f, 0xd6]);
    assert_eq!(&patch[8..16], &hook.to_le_bytes());
    assert_eq!(decode_branch(&patch, target), Some(hook));
}

#[test]
fn aarch64_long_form_reaches_distant_hook() {
    let target: u64 = 0x1_0000;
    let hook: u64 = 0x7fff_ffff_0000;
    let patch = generate_patch(Arch::Aarch64, target, hook);
    assert_eq!(patch.len(), backup_len(Arch::Aarch64));
    assert_eq!(decode_branch(&patch, target), Some(hook));
}

#[test]
fn arm_mode_patch_bytes_exact() {
    let patch = generate_patch(Arch::Arm, 0x2_0000, 0x3_0000);
    // ldr pc, [pc, #-4]; inline literal; one byte of padding.
    assert_eq!(
        patch,
        vec![0x04, 0xf0, 0x1f, 0xe5, 0x00, 0x00, 0x03, 0x00, 0x00]
    );
    assert_eq!(patch.len(), backup_len(Arch::Arm));
}

#[test]
fn thumb_aligned_patch_bytes_exact() {
    // Tagged 0x20001: the untagged entry 0x20000 is 4-byte aligned.
    let patch = generate_patch(Arch::Arm, 0x2_0001, 0x3_0000);
    // ldr.w pc, [pc]; inline literal; one byte of padding.
    assert_eq!(
        patch,
        vec![0xdf, 0xf8, 0x00, 0xf0, 0x00, 0x00, 0x03, 0x00, 0x00]
    );
    assert_eq!(patch.len(), backup_len(Arch::Arm));
}

#[test]
fn thumb_unaligned_patch_overruns_window_by_one() {
    // Tagged 0x20003: the untagged entry 0x20002 is not 4-byte aligned, so
    // an alignment no-op precedes the load and the sequence needs one byte
    // more than the fixed window.
    let patch = generate_patch(Arch::Arm, 0x2_0003, 0x3_0000);
    assert_eq!(
        patch,
        vec![0x00, 0xbf, 0xdf, 0xf8, 0x00, 0xf0, 0x00, 0x00, 0x03, 0x00]
    );
    assert_eq!(patch.len(), backup_len(Arch::Arm) + 1);
}

#[test]
fn thumb_helpers() {
    assert!(is_thumb(0x2_0001));
    assert!(!is_thumb(0x2_0000));
    assert_eq!(clear_thumb_bit(0x2_0001), 0x2_0000);
    assert_eq!(clear_thumb_bit(0x2_0000), 0x2_0000);
    assert!(is_aligned(0x2_0000));
    assert!(!is_aligned(0x2_0002));
}

#[test]
fn x86_patch_accepts_largest_hook_address() {
    let patch = generate_patch(Arch::X86, 0x40_0000, 0xffff_ffff);
    assert_eq!(patch, vec![0xb8, 0xff, 0xff, 0xff, 0xff, 0xff, 0xe0]);
}

#[test]
fn aarch64_zero_displacement_branches_to_self() {
    let target: u64 = 0x1_0000;
    let patch = generate_patch(Arch::Aarch64, target, target);
    assert_eq!(&patch[0..4], &[0x00, 0x00, 0x00, 0x14]);
    assert_eq!(decode_branch(&patch, target), Some(target));
}

#[test]
fn decoder_rejects_foreign_bytes() {
    let bytes = vec![0xc3u8; 16];
    assert_eq!(decode_branch(&bytes, 0x1000), None);
    let short = vec![0xc3u8; 4];
    assert_eq!(decode_branch(&short, 0x1000), None);
}

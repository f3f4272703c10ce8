use bhook::applier::{apply, restore, write_address, CodeWindow};
use bhook::arch::{backup_len, Arch};

fn window_with(addr: u64, len: usize) -> CodeWindow {
    let bytes: Vec<u8> = (0..len).map(|i| (0x30 + i) as u8).collect();
    CodeWindow { addr, bytes }
}

#[test]
fn write_address_strips_thumb_tag() {
    assert_eq!(write_address(Arch::Arm, 0x1001), 0x1000);
    assert_eq!(write_address(Arch::Arm, 0x1000), 0x1000);
    assert_eq!(write_address(Arch::X86_64, 0x1001), 0x1001);
    assert_eq!(write_address(Arch::Aarch64, 0x1000), 0x1000);
}

#[test]
fn apply_captures_backup_before_writing() {
    let target: u64 = 0x40_0000;
    let mut window = window_with(target, 16);
    let original = window.bytes.clone();
    let backup = apply(&mut window, Arch::X86_64, target, 0xdead_beef);
    let n = backup_len(Arch::X86_64);
    assert_eq!(backup.bytes, original[..n].to_vec());
    // The patch now sits over the front; the tail is untouched.
    assert_eq!(window.bytes[0], 0x48);
    assert_eq!(window.bytes[1], 0xb8);
    assert_eq!(window.bytes[n..], original[n..]);
}

#[test]
fn apply_then_restore_round_trips() {
    let target: u64 = 0x40_0000;
    let mut window = window_with(target, 16);
    let original = window.bytes.clone();
    let backup = apply(&mut window, Arch::X86_64, target, 0xdead_beef);
    assert_ne!(window.bytes, original);
    restore(&mut window, &backup);
    assert_eq!(window.bytes, original);
}

#[test]
fn aarch64_round_trips_on_both_forms() {
    let target: u64 = 0x10_0000;
    for hook in [target + 8, target + 0x4000_0000] {
        let mut window = window_with(target, 24);
        let original = window.bytes.clone();
        let backup = apply(&mut window, Arch::Aarch64, target, hook);
        assert_ne!(window.bytes, original);
        restore(&mut window, &backup);
        assert_eq!(window.bytes, original);
    }
}

#[test]
fn arm_round_trips_on_all_sub_cases() {
    // Arm mode, Thumb aligned, Thumb unaligned (the 10-byte overrun case).
    for target in [0x2_0000u64, 0x2_0001, 0x2_0003] {
        let addr = write_address(Arch::Arm, target);
        let mut window = window_with(addr, 16);
        let original = window.bytes.clone();
        let backup = apply(&mut window, Arch::Arm, target, 0x3_0000);
        assert_ne!(window.bytes, original);
        restore(&mut window, &backup);
        assert_eq!(window.bytes, original);
    }
}

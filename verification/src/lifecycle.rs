//! The hook lifecycle: a persistent context per installed hook, and the two
//! operations a hook uses — install, and the revert / reapply pair that
//! brackets a call of the original function from inside the hook body.
//!
//! The revert/reapply window is a non-atomic critical section over the
//! shared bytes at the target: while one invocation is inside it, a
//! concurrent caller of the target on another thread may execute whichever
//! bytes are physically present at that instant. The contracts here hold
//! for the single-threaded cooperative model; nothing guards the window.

use vstd::prelude::*;
use crate::arch::Arch;
use crate::applier::{apply, restore, write_address_spec, written, Backup, CodeWindow};
use crate::patch::{lemma_patch_bytes_len, patch_bytes, patch_inputs_ok, patch_len_spec};

verus! {

/// The unit of state for one installed hook: the original (nominal) target
/// address, the replacement's address, and the backup captured at install
/// time. Created by `install`, read by every revert/reapply cycle, never
/// applied to any address but its own.
pub struct HookContext {
    pub arch: Arch,
    pub original: u64,
    pub hook: u64,
    pub backup: Backup,
}

impl HookContext {
    /// A context as `install` creates it: addresses the architecture's
    /// encoding can represent, and a backup exactly as long as the patch,
    /// captured at the target's write address.
    pub open spec fn wf(self) -> bool {
        &&& patch_inputs_ok(self.arch, self.original, self.hook)
        &&& self.backup.addr@ == write_address_spec(self.arch, self.original)
        &&& self.backup.bytes@.len() == patch_bytes(self.arch, self.original, self.hook).len()
    }

    /// Whether `window` is the byte window this hook patches: it sits at
    /// the target's write address and is long enough for the patch.
    pub open spec fn window_ok(self, window: CodeWindow) -> bool {
        &&& window.addr == write_address_spec(self.arch, self.original)
        &&& patch_len_spec(self.arch, self.original) <= window.bytes@.len()
    }

    /// The window shows this hook's patch: a call of the original lands in
    /// the replacement.
    pub open spec fn is_patched(self, window: CodeWindow) -> bool {
        window.bytes@.take(patch_bytes(self.arch, self.original, self.hook).len() as int)
            == patch_bytes(self.arch, self.original, self.hook)
    }

    /// The window shows the bytes captured at install time: a call of the
    /// original runs the true implementation.
    pub open spec fn is_reverted(self, window: CodeWindow) -> bool {
        window.bytes@.take(self.backup.bytes@.len() as int) == self.backup.bytes@
    }
}

/// Installs a hook: applies the patch redirecting `original` to `hook` over
/// the window at the target's write address, and stores the backup together
/// with both addresses in the returned context.
pub fn install(window: &mut CodeWindow, arch: Arch, original: u64, hook: u64) -> (ctx: HookContext)
    requires
        patch_inputs_ok(arch, original, hook),
        old(window).addr == write_address_spec(arch, original),
        patch_len_spec(arch, original) <= old(window).bytes@.len(),
    ensures
        ctx.arch == arch && ctx.original == original && ctx.hook == hook,
        ctx.wf(),
        ctx.backup.bytes@ == old(window).bytes@.take(
            patch_bytes(arch, original, hook).len() as int,
        ),
        final(window).addr == old(window).addr,
        final(window).bytes@ == written(old(window).bytes@, patch_bytes(arch, original, hook)),
        ctx.window_ok(*final(window)),
        ctx.is_patched(*final(window)),
{
    proof {
        lemma_patch_bytes_len(arch, original, hook);
    }
    let backup = apply(window, arch, original, hook);
    let ctx = HookContext { arch, original, hook, backup };
    proof {
        let patch = patch_bytes(arch, original, hook);
        assert(window.bytes@.take(patch.len() as int) =~= patch);
    }
    ctx
}

/// Reverts the hook so its body can call the original: writes the
/// install-time backup back over the patch, leaving the true
/// implementation in place at the target. Usable only while the hook's
/// patch is applied.
pub fn begin_call_original(window: &mut CodeWindow, ctx: &HookContext)
    requires
        ctx.wf(),
        ctx.window_ok(*old(window)),
        ctx.is_patched(*old(window)),
    ensures
        final(window).addr == old(window).addr,
        final(window).bytes@ == written(old(window).bytes@, ctx.backup.bytes@),
        ctx.window_ok(*final(window)),
        ctx.is_reverted(*final(window)),
{
    proof {
        lemma_patch_bytes_len(ctx.arch, ctx.original, ctx.hook);
    }
    restore(window, &ctx.backup);
    proof {
        assert(window.bytes@.take(ctx.backup.bytes@.len() as int) =~= ctx.backup.bytes@);
    }
}

/// Reapplies the hook after the original returned: the revert / reapply
/// pair leaves the function hooked again, so a later call — without going
/// through the call-original helper — still reaches the replacement.
pub fn end_call_original(window: &mut CodeWindow, ctx: &HookContext)
    requires
        ctx.wf(),
        ctx.window_ok(*old(window)),
        ctx.is_reverted(*old(window)),
    ensures
        final(window).addr == old(window).addr,
        final(window).bytes@ == written(
            old(window).bytes@,
            patch_bytes(ctx.arch, ctx.original, ctx.hook),
        ),
        ctx.window_ok(*final(window)),
        ctx.is_patched(*final(window)),
{
    proof {
        lemma_patch_bytes_len(ctx.arch, ctx.original, ctx.hook);
    }
    let reverted_backup = apply(window, ctx.arch, ctx.original, ctx.hook);
    proof {
        let patch = patch_bytes(ctx.arch, ctx.original, ctx.hook);
        assert(window.bytes@.take(patch.len() as int) =~= patch);
        // The backup captured while reverted is the install-time backup
        // again: the context stays the hook's single source of truth.
        assert(reverted_backup.bytes@ == ctx.backup.bytes@);
    }
}

} // verus!

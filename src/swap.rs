//! The staged swap that replaces a canonical directory: remove the old copy, then move the
//! staged copy into place, falling back to copy-then-clean-up when the move is refused.
use vstd::prelude::*;

verus! {

/// The next action of a swap.
#[derive(PartialEq, Eq, Structural, Clone, Copy, Debug)]
pub enum SwapPhase {
    /// Remove the old canonical directory.
    RemoveOld,
    /// Rename the staging directory to the canonical path.
    RenameStaging,
    /// The rename was refused (e.g. across volumes): copy staging to the canonical path.
    CopyStaging,
    /// Remove the staging directory after the fallback copy (failure is only logged).
    RemoveStaging,
    /// The canonical directory holds the new content.
    Done,
    /// Removing the old directory failed; the update is reported as failed.
    FailedRemoving,
    /// The fallback copy failed; the update is reported as failed.
    FailedCopying,
}

/// Where content at the canonical path came from.
pub enum Generation {
    Old,
    New,
}

pub open spec fn swap_step(phase: SwapPhase, succeeded: bool) -> SwapPhase {
    match phase {
        SwapPhase::RemoveOld => if succeeded {
            SwapPhase::RenameStaging
        } else {
            SwapPhase::FailedRemoving
        },
        SwapPhase::RenameStaging => if succeeded {
            SwapPhase::Done
        } else {
            SwapPhase::CopyStaging
        },
        SwapPhase::CopyStaging => if succeeded {
            SwapPhase::RemoveStaging
        } else {
            SwapPhase::FailedCopying
        },
        SwapPhase::RemoveStaging => SwapPhase::Done,
        _ => phase,
    }
}

/// The phase after performing `phase`'s action with the given outcome.
pub fn next_swap_phase(phase: SwapPhase, succeeded: bool) -> (r: SwapPhase)
    ensures
        r == swap_step(phase, succeeded),
{
    match phase {
        SwapPhase::RemoveOld => if succeeded {
            SwapPhase::RenameStaging
        } else {
            SwapPhase::FailedRemoving
        },
        SwapPhase::RenameStaging => if succeeded {
            SwapPhase::Done
        } else {
            SwapPhase::CopyStaging
        },
        SwapPhase::CopyStaging => if succeeded {
            SwapPhase::RemoveStaging
        } else {
            SwapPhase::FailedCopying
        },
        SwapPhase::RemoveStaging => SwapPhase::Done,
        _ => phase,
    }
}

/// Whether a phase ends the swap.
pub fn is_finished(phase: SwapPhase) -> (r: bool)
    ensures
        r == (phase == SwapPhase::Done || phase == SwapPhase::FailedRemoving || phase
            == SwapPhase::FailedCopying),
{
    match phase {
        SwapPhase::Done | SwapPhase::FailedRemoving | SwapPhase::FailedCopying => true,
        _ => false,
    }
}

/// The generations of content a reader can find at the canonical path while the swap is in
/// a phase.
pub open spec fn visible(phase: SwapPhase) -> Set<Generation> {
    match phase {
        SwapPhase::RemoveOld | SwapPhase::FailedRemoving => set![Generation::Old],
        SwapPhase::RenameStaging | SwapPhase::CopyStaging => Set::empty(),
        _ => set![Generation::New],
    }
}

/// What the canonical path holds after a phase's action ran with the given outcome, given
/// what it held before. A failed removal or a failed move leaves what was there; a copy,
/// whole or partial, adds new content; a successful move puts exactly the new content there.
pub open spec fn effect(phase: SwapPhase, succeeded: bool, before: Set<Generation>) -> Set<
    Generation,
> {
    match phase {
        SwapPhase::RemoveOld => if succeeded {
            Set::empty()
        } else {
            before
        },
        SwapPhase::RenameStaging => if succeeded {
            set![Generation::New]
        } else {
            before
        },
        SwapPhase::CopyStaging => before.insert(Generation::New),
        _ => before,
    }
}

/// A swap never shows old and new content together: whatever each action does, what the
/// canonical path holds stays within what the next phase allows, and no phase allows both
/// generations. A reader before the swap sees only old content, after it only new content.
pub proof fn law_swap_never_mixes(phase: SwapPhase, succeeded: bool, before: Set<Generation>)
    requires
        before.subset_of(visible(phase)),
    ensures
        effect(phase, succeeded, before).subset_of(visible(swap_step(phase, succeeded))),
        !(visible(swap_step(phase, succeeded)).contains(Generation::Old) && visible(
            swap_step(phase, succeeded),
        ).contains(Generation::New)),
        visible(SwapPhase::RemoveOld) == set![Generation::Old],
        visible(SwapPhase::Done) == set![Generation::New],
{
    match phase {
        SwapPhase::CopyStaging => {
            assert(before =~= Set::<Generation>::empty());
        },
        _ => {},
    }
}

} // verus!

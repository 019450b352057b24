//! Stage-scoped actions that mutate exactly one world flag.

use vstd::prelude::*;

verus! {

/// What a trigger does to its flag: flip its membership in the flag set, or
/// insert it unconditionally. There is no unset action.
#[derive(Clone, Copy, Debug, PartialEq, Eq, Structural)]
pub enum TriggerAction {
    Toggle,
    SetFlag,
}

/// A named, stage-scoped action invoked by a Use command or by entering the
/// stage (the reserved trigger name "on enter").
#[derive(Clone, Debug)]
pub struct Trigger {
    /// The flag the trigger affects.
    pub flag: String,
    /// Text shown in the stage summary when the trigger is visible.
    pub description: String,
    pub visible: bool,
    pub action: TriggerAction,
}

/// A trigger's action when the document does not give one.
pub fn default_trigger_action() -> (r: TriggerAction)
    ensures
        r == TriggerAction::Toggle,
{
    TriggerAction::Toggle
}

/// A trigger's visibility when the document does not give one.
pub fn default_trigger_visibility() -> (r: bool)
    ensures
        r == true,
{
    true
}

/// The flag set after a trigger fires.
pub open spec fn apply_action(flags: Set<Seq<char>>, action: TriggerAction, flag: Seq<char>) -> Set<Seq<char>> {
    match action {
        TriggerAction::Toggle => if flags.contains(flag) {
            flags.remove(flag)
        } else {
            flags.insert(flag)
        },
        TriggerAction::SetFlag => flags.insert(flag),
    }
}

/// Applying the same Toggle trigger twice returns the flag set to its
/// original state: Toggle is self-inverse.
pub proof fn lemma_toggle_twice(flags: Set<Seq<char>>, flag: Seq<char>)
    ensures
        apply_action(apply_action(flags, TriggerAction::Toggle, flag), TriggerAction::Toggle, flag) == flags,
{
    assert(apply_action(apply_action(flags, TriggerAction::Toggle, flag), TriggerAction::Toggle, flag) =~= flags);
}

/// Applying a SetFlag trigger twice leaves the same flag set as applying it
/// once: SetFlag is idempotent.
pub proof fn lemma_set_idempotent(flags: Set<Seq<char>>, flag: Seq<char>)
    ensures
        apply_action(apply_action(flags, TriggerAction::SetFlag, flag), TriggerAction::SetFlag, flag)
            == apply_action(flags, TriggerAction::SetFlag, flag),
{
    assert(apply_action(apply_action(flags, TriggerAction::SetFlag, flag), TriggerAction::SetFlag, flag)
        =~= apply_action(flags, TriggerAction::SetFlag, flag));
}

} // verus!

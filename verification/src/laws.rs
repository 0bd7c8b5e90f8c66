//! The operations' guarantees, stated and proved as laws over their
//! specifications.

use vstd::prelude::*;
use crate::commands::rename_cmd;
use crate::ops::{
    bind_spec, current_of, decoded, first_focused, first_with_num, name_conflict, rename_spec,
    swap_spec, tmp_view, visibles, OpError,
};
use crate::workspace::{synth_view, WorkspaceRecordView};

verus! {

/// Bind no-op: when the focused workspace already holds the target slot,
/// bind emits no commands.
pub proof fn lemma_bind_noop(s: Seq<WorkspaceRecordView>, to: int)
    requires
        current_of(s) is Some,
        current_of(s)->0.num == Some(to),
    ensures
        bind_spec(s, to) == Ok::<Option<Seq<Seq<char>>>, OpError>(None),
{
}

/// Bind with a free slot: binding to a slot no existing workspace holds
/// emits exactly one command, the rename that moves the focused workspace to
/// the target identity.
pub proof fn lemma_bind_free_slot(s: Seq<WorkspaceRecordView>, to: int)
    requires
        current_of(s) is Some,
        current_of(s)->0.num != Some(to),
        first_with_num(decoded(s), to) is None,
    ensures
        bind_spec(s, to) == Ok::<Option<Seq<Seq<char>>>, OpError>(
            Some(
                seq![rename_cmd(current_of(s)->0, synth_view(Some(to), current_of(s)->0.name))],
            ),
        ),
        bind_spec(s, to)->Ok_0->0.len() == 1,
{
}

/// Bind with an occupied, named slot: exactly three commands, whose final
/// mapping is a valid exchange — the focused workspace moves to the target
/// slot under its own name, and the destination's name comes back under the
/// focused workspace's original slot.
pub proof fn lemma_bind_occupied_swap(s: Seq<WorkspaceRecordView>, to: int)
    requires
        current_of(s) is Some,
        current_of(s)->0.num != Some(to),
        first_with_num(decoded(s), to) is Some,
        decoded(s)[first_with_num(decoded(s), to)->0].name is Some,
    ensures
        ({
            let cur = current_of(s)->0;
            let dest = decoded(s)[first_with_num(decoded(s), to)->0];
            bind_spec(s, to) == Ok::<Option<Seq<Seq<char>>>, OpError>(
                Some(
                    seq![
                        rename_cmd(dest, tmp_view()),
                        rename_cmd(cur, synth_view(Some(to), cur.name)),
                        rename_cmd(tmp_view(), synth_view(cur.num, dest.name)),
                    ],
                ),
            )
        }),
        bind_spec(s, to)->Ok_0->0.len() == 3,
{
}

/// Bind with an occupied, unnamed slot: the operation fails before any
/// command is constructed, since freeing the slot would leave its workspace
/// with neither number nor name.
pub proof fn lemma_bind_unaddressable(s: Seq<WorkspaceRecordView>, to: int)
    requires
        current_of(s) is Some,
        current_of(s)->0.num != Some(to),
        first_with_num(decoded(s), to) is Some,
        decoded(s)[first_with_num(decoded(s), to)->0].name is None,
    ensures
        bind_spec(s, to) == Err::<Option<Seq<Seq<char>>>, OpError>(
            OpError::DestinationUnaddressable,
        ),
{
}

/// Rename to a name some other workspace already carries: the operation
/// fails with a name conflict, and no command is emitted.
pub proof fn lemma_rename_conflict(s: Seq<WorkspaceRecordView>, nm: Seq<char>)
    requires
        first_focused(decoded(s)) is Some,
        name_conflict(decoded(s), first_focused(decoded(s))->0, nm),
    ensures
        rename_spec(s, nm) == Err::<Option<Seq<Seq<char>>>, OpError>(OpError::NameConflict),
{
}

/// Swap with exactly two visible workspaces, one of them focused: the
/// three-command output exchange, the focused workspace moving first.
pub proof fn lemma_swap_two_visible(s: Seq<WorkspaceRecordView>)
    requires
        visibles(decoded(s)).len() == 2,
        visibles(decoded(s))[0].focused != visibles(decoded(s))[1].focused,
    ensures
        swap_spec(s) is Ok,
        swap_spec(s)->Ok_0 is Some,
        swap_spec(s)->Ok_0->0.len() == 3,
{
}

/// Swap with any other count of visible workspaces is a no-op.
pub proof fn lemma_swap_other_count(s: Seq<WorkspaceRecordView>)
    requires
        visibles(decoded(s)).len() != 2,
    ensures
        swap_spec(s) == Ok::<Option<Seq<Seq<char>>>, OpError>(None),
{
}

} // verus!

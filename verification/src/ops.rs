//! The user-facing operations over a workspace snapshot.
//!
//! Each operation is a pure function over the snapshot (an ordered list of
//! raw records) and explicit parameters, producing an ordered command list —
//! or nothing, when there is nothing to do — or failing fast with an error
//! before any command is constructed.

use vstd::prelude::*;
use vstd::string::StringExecFns;
use itertools::Itertools;
use crate::commands::{
    move_container_cmd, rename_cmd, rename_in_place_cmd, show_cmds, swap_cmds,
};
use crate::workspace::{
    decode_record, opt_str_view, synth_view, Workspace, WorkspaceRecord, WorkspaceRecordView,
    WorkspaceView,
};

verus! {

/// The failures an operation can report.  Each aborts the operation before
/// any command is emitted.
#[derive(Debug, Clone, Copy, PartialEq, Eq, Structural)]
pub enum OpError {
    /// The snapshot holds no focused workspace: a snapshot invariant
    /// violation, not user-recoverable.
    NoFocusedWorkspace,
    /// The bind target slot is occupied by a workspace with no name; freeing
    /// it would leave that workspace unaddressable.
    DestinationUnaddressable,
    /// The rename target name is already in use by a different workspace.
    NameConflict,
}

/// The snapshot's records, decoded into identities in order.
pub open spec fn decoded(s: Seq<WorkspaceRecordView>) -> Seq<WorkspaceView> {
    s.map_values(|r: WorkspaceRecordView| decode_record(r))
}

/// The position of the first focused identity at or after `i`, if any.
pub open spec fn first_focused_from(d: Seq<WorkspaceView>, i: int) -> Option<int>
    decreases d.len() - i,
{
    if i >= d.len() {
        None
    } else if d[i].focused {
        Some(i)
    } else {
        first_focused_from(d, i + 1)
    }
}

/// The position of the first focused identity, if any.
pub open spec fn first_focused(d: Seq<WorkspaceView>) -> Option<int> {
    first_focused_from(d, 0)
}

/// The position of the first identity holding slot `n` at or after `i`.
pub open spec fn first_with_num_from(d: Seq<WorkspaceView>, n: int, i: int) -> Option<int>
    decreases d.len() - i,
{
    if i >= d.len() {
        None
    } else if d[i].num == Some(n) {
        Some(i)
    } else {
        first_with_num_from(d, n, i + 1)
    }
}

/// The position of the first identity holding slot `n`, if any.
pub open spec fn first_with_num(d: Seq<WorkspaceView>, n: int) -> Option<int> {
    first_with_num_from(d, n, 0)
}

/// The position of the first identity named `nm` at or after `i`.
pub open spec fn first_with_name_from(d: Seq<WorkspaceView>, nm: Seq<char>, i: int) -> Option<
    int,
>
    decreases d.len() - i,
{
    if i >= d.len() {
        None
    } else if d[i].name == Some(nm) {
        Some(i)
    } else {
        first_with_name_from(d, nm, i + 1)
    }
}

/// The position of the first identity named `nm`, if any.
pub open spec fn first_with_name(d: Seq<WorkspaceView>, nm: Seq<char>) -> Option<int> {
    first_with_name_from(d, nm, 0)
}

/// The focused identity of a snapshot, if any: the first record with the
/// focus flag, decoded.
pub open spec fn current_of(s: Seq<WorkspaceRecordView>) -> Option<WorkspaceView> {
    match first_focused(decoded(s)) {
        Some(i) => Some(decoded(s)[i]),
        None => None,
    }
}

/// The mathematical value of an operation result.
pub open spec fn cmds_view(r: Result<Option<Vec<String>>, OpError>) -> Result<
    Option<Seq<Seq<char>>>,
    OpError,
> {
    match r {
        Ok(Some(v)) => Ok(Some(v.deep_view())),
        Ok(None) => Ok(None),
        Err(e) => Err(e),
    }
}

/// Every identity decoded from a snapshot record carries its output.
pub proof fn lemma_decoded_output(s: Seq<WorkspaceRecordView>)
    ensures
        decoded(s).len() == s.len(),
        forall|i: int| 0 <= i < s.len() ==> (#[trigger] decoded(s)[i]).output is Some,
{
    assert forall|i: int| 0 <= i < s.len() implies (#[trigger] decoded(s)[i]).output is Some by {
        assert(decoded(s)[i] == decode_record(s[i]));
    }
}

/// The position of the first record with the focus flag, decoded on the fly.
fn find_focused_idx(ws: &Vec<WorkspaceRecord>) -> (r: Option<usize>)
    ensures
        match r {
            Some(i) => i < ws@.len() && first_focused(decoded(ws.deep_view())) == Some(i as int),
            None => first_focused(decoded(ws.deep_view())) is None,
        },
{
    let ghost d = decoded(ws.deep_view());
    let mut i: usize = 0;
    while i < ws.len()
        invariant
            i <= ws@.len(),
            d == decoded(ws.deep_view()),
            d.len() == ws@.len(),
            first_focused(d) == first_focused_from(d, i as int),
        decreases ws@.len() - i,
    {
        proof {
            assert(d[i as int] == decode_record(ws.deep_view()[i as int]));
        }
        if ws[i].focused {
            return Some(i);
        }
        i = i + 1;
    }
    None
}

/// The position of the first record whose decoded identity holds slot `to`.
fn find_num_idx(ws: &Vec<WorkspaceRecord>, to: i32) -> (r: Option<usize>)
    ensures
        match r {
            Some(i) => i < ws@.len() && first_with_num(decoded(ws.deep_view()), to as int)
                == Some(i as int),
            None => first_with_num(decoded(ws.deep_view()), to as int) is None,
        },
{
    let ghost d = decoded(ws.deep_view());
    let mut i: usize = 0;
    while i < ws.len()
        invariant
            i <= ws@.len(),
            d == decoded(ws.deep_view()),
            d.len() == ws@.len(),
            first_with_num(d, to as int) == first_with_num_from(d, to as int, i as int),
        decreases ws@.len() - i,
    {
        let w = Workspace::from_record(&ws[i]);
        proof {
            assert(d[i as int] == decode_record(ws.deep_view()[i as int]));
        }
        match w.num {
            Some(n) => if n == to {
                return Some(i);
            },
            None => {},
        }
        i = i + 1;
    }
    None
}

/// Locates the focused identity of the snapshot: the snapshot invariant owes
/// exactly one focused record, and its absence is reported as
/// [`OpError::NoFocusedWorkspace`].
pub fn find_current(ws: &Vec<WorkspaceRecord>) -> (r: Result<Workspace, OpError>)
    ensures
        (match r {
            Ok(w) => current_of(ws.deep_view()) == Some(w@),
            Err(e) => current_of(ws.deep_view()) is None && e == OpError::NoFocusedWorkspace,
        }),
{
    match find_focused_idx(ws) {
        Some(i) => Ok(Workspace::from_record(&ws[i])),
        None => Err(OpError::NoFocusedWorkspace),
    }
}

/// The temporary identity that bind parks the destination workspace on
/// while its slot is being vacated.
pub open spec fn tmp_view() -> WorkspaceView {
    synth_view(None, Some("internal-tmp-swapping"@))
}

/// What bind returns: nothing when the focused workspace already holds the
/// target slot; one rename when the slot is free; a three-step indirect swap
/// when the slot is held by a named workspace; and an error when it is held
/// by a nameless one, or when no workspace is focused.
pub open spec fn bind_spec(s: Seq<WorkspaceRecordView>, to: int) -> Result<
    Option<Seq<Seq<char>>>,
    OpError,
> {
    let d = decoded(s);
    match first_focused(d) {
        None => Err(OpError::NoFocusedWorkspace),
        Some(i) => {
            let cur = d[i];
            if cur.num == Some(to) {
                Ok(None)
            } else {
                let target = synth_view(Some(to), cur.name);
                match first_with_num(d, to) {
                    Some(j) => {
                        let dest = d[j];
                        if dest.name is None {
                            Err(OpError::DestinationUnaddressable)
                        } else {
                            Ok(
                                Some(
                                    seq![
                                        rename_cmd(dest, tmp_view()),
                                        rename_cmd(cur, target),
                                        rename_cmd(tmp_view(), synth_view(cur.num, dest.name)),
                                    ],
                                ),
                            )
                        }
                    },
                    None => Ok(Some(seq![rename_cmd(cur, target)])),
                }
            }
        },
    }
}

/// Clones an optional name, keeping its mathematical value.
fn clone_opt_string(o: &Option<String>) -> (r: Option<String>)
    ensures
        opt_str_view(r) == opt_str_view(*o),
{
    match o {
        Some(s) => Some(s.clone()),
        None => None,
    }
}

/// Binds the focused workspace to slot `to`, keeping its name.  When the
/// slot is held by a named workspace the two workspaces exchange slots
/// through a temporary name, so that no intermediate command leaves two live
/// workspaces sharing an identifier.
pub fn bind(ws: &Vec<WorkspaceRecord>, to: i32) -> (r: Result<Option<Vec<String>>, OpError>)
    ensures
        cmds_view(r) == bind_spec(ws.deep_view(), to as int),
{
    let cur = match find_focused_idx(ws) {
        None => {
            return Err(OpError::NoFocusedWorkspace);
        },
        Some(i) => Workspace::from_record(&ws[i]),
    };
    match cur.num {
        Some(n) => if n == to {
            return Ok(None);
        },
        None => {},
    }
    let new_ws = Workspace::new(Some(to), clone_opt_string(&cur.name));
    match find_num_idx(ws, to) {
        Some(j) => {
            let dest = Workspace::from_record(&ws[j]);
            if dest.name.is_none() {
                return Err(OpError::DestinationUnaddressable);
            }
            let tmp = Workspace::new(None, Some(String::from_str("internal-tmp-swapping")));
            let mut cmds: Vec<String> = Vec::new();
            cmds.push(dest.move_to(&tmp));
            cmds.push(cur.move_to(&new_ws));
            let swap_ws = Workspace::new(cur.num, dest.name);
            cmds.push(tmp.move_to(&swap_ws));
            proof {
                assert(cmds.deep_view() =~~= (bind_spec(
                    ws.deep_view(),
                    to as int,
                )->Ok_0->0));
            }
            Ok(Some(cmds))
        },
        None => {
            let mut cmds: Vec<String> = Vec::new();
            cmds.push(cur.move_to(&new_ws));
            proof {
                assert(cmds.deep_view() =~~= (bind_spec(
                    ws.deep_view(),
                    to as int,
                )->Ok_0->0));
            }
            Ok(Some(cmds))
        },
    }
}

/// Whether some identity other than the one at `me` carries the name `nm`.
pub open spec fn name_conflict(d: Seq<WorkspaceView>, me: int, nm: Seq<char>) -> bool {
    exists|j: int| 0 <= j < d.len() && j != me && (#[trigger] d[j]).name == Some(nm)
}

/// What rename returns: an in-place rename of the focused workspace to the
/// new name under its current slot, unless another workspace already carries
/// that name.
pub open spec fn rename_spec(s: Seq<WorkspaceRecordView>, nm: Seq<char>) -> Result<
    Option<Seq<Seq<char>>>,
    OpError,
> {
    let d = decoded(s);
    match first_focused(d) {
        None => Err(OpError::NoFocusedWorkspace),
        Some(i) => if name_conflict(d, i, nm) {
            Err(OpError::NameConflict)
        } else {
            Ok(Some(seq![rename_in_place_cmd(synth_view(d[i].num, Some(nm)))]))
        },
    }
}

/// Renames the focused workspace in place, refusing a name that a different
/// workspace already carries.
pub fn rename(ws: &Vec<WorkspaceRecord>, name: String) -> (r: Result<
    Option<Vec<String>>,
    OpError,
>)
    ensures
        cmds_view(r) == rename_spec(ws.deep_view(), name@),
{
    let ghost d = decoded(ws.deep_view());
    let idx = match find_focused_idx(ws) {
        None => {
            return Err(OpError::NoFocusedWorkspace);
        },
        Some(i) => i,
    };
    let cur = Workspace::from_record(&ws[idx]);
    let mut j: usize = 0;
    while j < ws.len()
        invariant
            j <= ws@.len(),
            d == decoded(ws.deep_view()),
            d.len() == ws@.len(),
            idx < ws@.len(),
            first_focused(d) == Some(idx as int),
            forall|k: int| 0 <= k < j && k != idx ==> (#[trigger] d[k]).name != Some(name@),
        decreases ws@.len() - j,
    {
        if j != idx {
            let w = Workspace::from_record(&ws[j]);
            proof {
                assert(d[j as int] == decode_record(ws.deep_view()[j as int]));
            }
            match &w.name {
                Some(n) => if n.eq(&name) {
                    proof {
                        assert(d[j as int].name == Some(name@));
                        assert(name_conflict(d, idx as int, name@));
                    }
                    return Err(OpError::NameConflict);
                },
                None => {},
            }
        }
        j = j + 1;
    }
    proof {
        assert(!name_conflict(d, idx as int, name@));
    }
    let renamed = Workspace::new(cur.num, Some(name));
    let mut s = String::from_str("rename workspace to \"");
    let renamed_id = renamed.id();
    s.append(renamed_id.as_str());
    s.append("\"");
    let mut cmds: Vec<String> = Vec::new();
    cmds.push(s);
    proof {
        assert(s@ =~= rename_in_place_cmd(synth_view(d[idx as int].num, Some(name@))));
        assert(cmds.deep_view() =~~= (rename_spec(ws.deep_view(), name@)->Ok_0->0));
    }
    Ok(Some(cmds))
}

/// A position returned by `first_with_name_from` carries that name, and no
/// earlier one does.
pub proof fn lemma_first_with_name_from(d: Seq<WorkspaceView>, nm: Seq<char>, i: int)
    requires
        0 <= i,
    ensures
        match first_with_name_from(d, nm, i) {
            Some(k) => i <= k < d.len() && d[k].name == Some(nm),
            None => forall|j: int| i <= j < d.len() ==> (#[trigger] d[j]).name != Some(nm),
        },
    decreases d.len() - i,
{
    if i < d.len() && d[i].name != Some(nm) {
        lemma_first_with_name_from(d, nm, i + 1);
    }
}

/// The identity a user-supplied name addresses: the first existing identity
/// carrying that name, or an identity synthesized from the name alone when
/// none does.
pub open spec fn find_or_create_by_name_spec(s: Seq<WorkspaceRecordView>, nm: Seq<char>)
    -> WorkspaceView {
    let d = decoded(s);
    match first_with_name(d, nm) {
        Some(i) => d[i],
        None => synth_view(None, Some(nm)),
    }
}

/// The identity a user-supplied slot addresses: the first existing identity
/// holding that slot, or an identity synthesized from the slot alone.
pub open spec fn find_or_create_by_number_spec(s: Seq<WorkspaceRecordView>, n: int)
    -> WorkspaceView {
    let d = decoded(s);
    match first_with_num(d, n) {
        Some(i) => d[i],
        None => synth_view(Some(n), None),
    }
}

/// Returns the first existing workspace named `name`, or a synthesized
/// target carrying only that name, letting users address workspaces that do
/// not exist yet.
pub fn find_or_create_by_name(ws: &Vec<WorkspaceRecord>, name: String) -> (r: Workspace)
    ensures
        r@ == find_or_create_by_name_spec(ws.deep_view(), name@),
{
    let ghost d = decoded(ws.deep_view());
    let mut i: usize = 0;
    while i < ws.len()
        invariant
            i <= ws@.len(),
            d == decoded(ws.deep_view()),
            d.len() == ws@.len(),
            first_with_name(d, name@) == first_with_name_from(d, name@, i as int),
        decreases ws@.len() - i,
    {
        let w = Workspace::from_record(&ws[i]);
        proof {
            assert(d[i as int] == decode_record(ws.deep_view()[i as int]));
        }
        match &w.name {
            Some(n) => if n.eq(&name) {
                return w;
            },
            None => {},
        }
        i = i + 1;
    }
    Workspace::new(None, Some(name))
}

/// Returns the first existing workspace holding slot `number`, or a
/// synthesized target carrying only that slot.
pub fn find_or_create_by_number(ws: &Vec<WorkspaceRecord>, number: i32) -> (r: Workspace)
    ensures
        r@ == find_or_create_by_number_spec(ws.deep_view(), number as int),
{
    match find_num_idx(ws, number) {
        Some(i) => Workspace::from_record(&ws[i]),
        None => Workspace::new(Some(number), None),
    }
}

/// What move returns: one command moving the focused container to the
/// workspace the name addresses.
pub open spec fn move_to_spec(s: Seq<WorkspaceRecordView>, nm: Seq<char>) -> Result<
    Option<Seq<Seq<char>>>,
    OpError,
> {
    Ok(Some(seq![move_container_cmd(find_or_create_by_name_spec(s, nm))]))
}

/// Moves the focused container to the workspace named `name`, existing or
/// not.
pub fn move_to(ws: &Vec<WorkspaceRecord>, name: String) -> (r: Result<
    Option<Vec<String>>,
    OpError,
>)
    ensures
        cmds_view(r) == move_to_spec(ws.deep_view(), name@),
{
    let w = find_or_create_by_name(ws, name);
    let mut s = String::from_str("move container to workspace ");
    let target_id = w.id();
    s.append(target_id.as_str());
    let mut cmds: Vec<String> = Vec::new();
    cmds.push(s);
    proof {
        assert(s@ =~= move_container_cmd(w@));
        assert(cmds.deep_view() =~~= (move_to_spec(ws.deep_view(), name@)->Ok_0->0));
    }
    Ok(Some(cmds))
}

/// What show returns: nothing when the target is the focused identity
/// itself; an output exchange when the target is already visible elsewhere;
/// otherwise the plain show commands, pulling the target to the focused
/// workspace's output when both outputs are known and differ.
pub open spec fn show_spec(s: Seq<WorkspaceRecordView>, t: WorkspaceView) -> Result<
    Option<Seq<Seq<char>>>,
    OpError,
> {
    match current_of(s) {
        None => Err(OpError::NoFocusedWorkspace),
        Some(cur) => if t == cur {
            Ok(None)
        } else if t.visible {
            Ok(Some(swap_cmds(cur, t)))
        } else {
            Ok(Some(show_cmds(t, cur.output)))
        },
    }
}

/// Shows the workspace `target`: focuses it, exchanging outputs when it is
/// already visible on another output.  A visible target must carry its
/// output, as every target read from a snapshot does.
pub fn show(ws: &Vec<WorkspaceRecord>, target: Workspace) -> (r: Result<
    Option<Vec<String>>,
    OpError,
>)
    requires
        target@.visible ==> target@.output is Some,
    ensures
        cmds_view(r) == show_spec(ws.deep_view(), target@),
{
    let idx = match find_focused_idx(ws) {
        None => {
            return Err(OpError::NoFocusedWorkspace);
        },
        Some(i) => i,
    };
    let cur = Workspace::from_record(&ws[idx]);
    proof {
        lemma_decoded_output(ws.deep_view());
    }
    if target.same_as(&cur) {
        return Ok(None);
    }
    if target.visible {
        let cmds = cur.swap_with(&target);
        proof {
            assert(cmds.deep_view() =~~= (show_spec(ws.deep_view(), target@)->Ok_0->0));
        }
        Ok(Some(cmds))
    } else {
        let cmds = target.show(cur.output);
        proof {
            assert(cmds.deep_view() =~~= (show_spec(ws.deep_view(), target@)->Ok_0->0));
        }
        Ok(Some(cmds))
    }
}

/// A position returned by `first_with_num_from` carries that slot.
pub proof fn lemma_first_with_num_from(d: Seq<WorkspaceView>, n: int, i: int)
    requires
        0 <= i,
    ensures
        match first_with_num_from(d, n, i) {
            Some(k) => i <= k < d.len() && d[k].num == Some(n),
            None => forall|j: int| i <= j < d.len() ==> (#[trigger] d[j]).num != Some(n),
        },
    decreases d.len() - i,
{
    if i < d.len() && d[i].num != Some(n) {
        lemma_first_with_num_from(d, n, i + 1);
    }
}

/// Shows the workspace the user addressed by name.
pub fn show_by_name(ws: &Vec<WorkspaceRecord>, name: String) -> (r: Result<
    Option<Vec<String>>,
    OpError,
>)
    ensures
        cmds_view(r) == show_spec(
            ws.deep_view(),
            find_or_create_by_name_spec(ws.deep_view(), name@),
        ),
{
    let ghost nm = name@;
    let target = find_or_create_by_name(ws, name);
    proof {
        lemma_decoded_output(ws.deep_view());
        lemma_first_with_name_from(decoded(ws.deep_view()), nm, 0);
        if target@.visible {
            assert(target@.output is Some);
        }
    }
    show(ws, target)
}

/// Shows the workspace the user addressed by slot number.
pub fn show_by_number(ws: &Vec<WorkspaceRecord>, number: i32) -> (r: Result<
    Option<Vec<String>>,
    OpError,
>)
    ensures
        cmds_view(r) == show_spec(
            ws.deep_view(),
            find_or_create_by_number_spec(ws.deep_view(), number as int),
        ),
{
    let target = find_or_create_by_number(ws, number);
    proof {
        lemma_decoded_output(ws.deep_view());
        lemma_first_with_num_from(decoded(ws.deep_view()), number as int, 0);
        if target@.visible {
            assert(target@.output is Some);
        }
    }
    show(ws, target)
}

/// The names of the snapshot's identities, in snapshot order; identities
/// with no name contribute nothing.
pub open spec fn names_of(d: Seq<WorkspaceView>) -> Seq<Seq<char>>
    decreases d.len(),
{
    if d.len() == 0 {
        Seq::empty()
    } else {
        let rest = names_of(d.drop_last());
        match d.last().name {
            Some(nm) => rest.push(nm),
            None => rest,
        }
    }
}

/// Lexicographic order on character sequences: a proper prefix comes first,
/// and otherwise the first differing character decides.
pub open spec fn lex_le(a: Seq<char>, b: Seq<char>) -> bool
    decreases a.len(),
{
    if a.len() == 0 {
        true
    } else if b.len() == 0 {
        false
    } else if a[0] == b[0] {
        lex_le(a.drop_first(), b.drop_first())
    } else {
        (a[0] as int) < (b[0] as int)
    }
}

/// Whether a sequence of names is in nondecreasing lexicographic order.
pub open spec fn sorted_lex(s: Seq<Seq<char>>) -> bool {
    forall|i: int, j: int| 0 <= i < j < s.len() ==> lex_le(s[i], s[j])
}

/// Relies on `itertools::Itertools::sorted`, which collects the items into
/// a vector and sorts it: the result holds the same strings, in the
/// nondecreasing order of `String`'s comparison, which is lexicographic on
/// the characters.
#[verifier::external_body]
fn sorted_strings(v: Vec<String>) -> (r: Vec<String>)
    ensures
        r.deep_view().to_multiset() == v.deep_view().to_multiset(),
        sorted_lex(r.deep_view()),
{
    v.into_iter().sorted().collect()
}

/// Lists the names of the snapshot's workspaces, lexicographically sorted;
/// workspaces with no name are excluded.  A pure projection: no commands.
pub fn list(ws: &Vec<WorkspaceRecord>) -> (r: Vec<String>)
    ensures
        r.deep_view().to_multiset() == names_of(decoded(ws.deep_view())).to_multiset(),
        sorted_lex(r.deep_view()),
{
    let ghost d = decoded(ws.deep_view());
    let mut names: Vec<String> = Vec::new();
    let mut i: usize = 0;
    while i < ws.len()
        invariant
            i <= ws@.len(),
            d == decoded(ws.deep_view()),
            d.len() == ws@.len(),
            names.deep_view() == names_of(d.subrange(0, i as int)),
        decreases ws@.len() - i,
    {
        let w = Workspace::from_record(&ws[i]);
        proof {
            assert(d[i as int] == decode_record(ws.deep_view()[i as int]));
        }
        match w.name {
            Some(nm) => names.push(nm),
            None => {},
        }
        proof {
            assert(d.subrange(0, i as int + 1).drop_last() =~= d.subrange(0, i as int));
            assert(d.subrange(0, i as int + 1).last() == d[i as int]);
            assert(names.deep_view() =~= names_of(d.subrange(0, i as int + 1)));
        }
        i = i + 1;
    }
    proof {
        assert(d.subrange(0, ws@.len() as int) =~= d);
    }
    sorted_strings(names)
}

/// The snapshot's visible identities, in snapshot order.
pub open spec fn visibles(d: Seq<WorkspaceView>) -> Seq<WorkspaceView>
    decreases d.len(),
{
    if d.len() == 0 {
        Seq::empty()
    } else {
        let rest = visibles(d.drop_last());
        if d.last().visible {
            rest.push(d.last())
        } else {
            rest
        }
    }
}

/// Every visible identity of a decoded snapshot carries its output.
proof fn lemma_visibles_output(d: Seq<WorkspaceView>)
    requires
        forall|i: int| 0 <= i < d.len() ==> (#[trigger] d[i]).output is Some,
    ensures
        forall|i: int| 0 <= i < visibles(d).len() ==> (#[trigger] visibles(d)[i]).output is Some,
    decreases d.len(),
{
    if d.len() > 0 {
        assert(forall|i: int|
            0 <= i < d.drop_last().len() ==> (#[trigger] d.drop_last()[i]).output is Some);
        lemma_visibles_output(d.drop_last());
    }
}

/// What swap returns: with exactly two visible workspaces, the output
/// exchange between the focused one and the other; with any other count of
/// visible workspaces, nothing.  Two visible workspaces of which none or
/// both are focused violate the snapshot invariant.
pub open spec fn swap_spec(s: Seq<WorkspaceRecordView>) -> Result<
    Option<Seq<Seq<char>>>,
    OpError,
> {
    let vis = visibles(decoded(s));
    if vis.len() != 2 {
        Ok(None)
    } else if vis[0].focused && !vis[1].focused {
        Ok(Some(swap_cmds(vis[0], vis[1])))
    } else if vis[1].focused && !vis[0].focused {
        Ok(Some(swap_cmds(vis[1], vis[0])))
    } else {
        Err(OpError::NoFocusedWorkspace)
    }
}

/// Swaps the outputs of the two visible workspaces; a no-op unless exactly
/// two are visible.
pub fn swap(ws: &Vec<WorkspaceRecord>) -> (r: Result<Option<Vec<String>>, OpError>)
    ensures
        cmds_view(r) == swap_spec(ws.deep_view()),
{
    let ghost d = decoded(ws.deep_view());
    let mut vis: Vec<Workspace> = Vec::new();
    let mut i: usize = 0;
    while i < ws.len()
        invariant
            i <= ws@.len(),
            d == decoded(ws.deep_view()),
            d.len() == ws@.len(),
            vis.deep_view() == visibles(d.subrange(0, i as int)),
        decreases ws@.len() - i,
    {
        let w = Workspace::from_record(&ws[i]);
        proof {
            assert(d[i as int] == decode_record(ws.deep_view()[i as int]));
        }
        if w.visible {
            vis.push(w);
        }
        proof {
            assert(d.subrange(0, i as int + 1).drop_last() =~= d.subrange(0, i as int));
            assert(d.subrange(0, i as int + 1).last() == d[i as int]);
            assert(vis.deep_view() =~~= visibles(d.subrange(0, i as int + 1)));
        }
        i = i + 1;
    }
    proof {
        assert(d.subrange(0, ws@.len() as int) =~= d);
        lemma_decoded_output(ws.deep_view());
        lemma_visibles_output(d);
    }
    if vis.len() != 2 {
        return Ok(None);
    }
    let a = &vis[0];
    let b = &vis[1];
    if a.focused && !b.focused {
        let cmds = a.swap_with(b);
        proof {
            assert(cmds.deep_view() =~~= (swap_spec(ws.deep_view())->Ok_0->0));
        }
        Ok(Some(cmds))
    } else if b.focused && !a.focused {
        let cmds = b.swap_with(a);
        proof {
            assert(cmds.deep_view() =~~= (swap_spec(ws.deep_view())->Ok_0->0));
        }
        Ok(Some(cmds))
    } else {
        Err(OpError::NoFocusedWorkspace)
    }
}

} // verus!

//! Construction of the protocol commands that the operations emit.
//!
//! A command is an opaque string for the transport; several commands destined
//! for one submission are joined by `"; "` and applied by the transport in
//! order.  Every command the library emits is built here.

use vstd::prelude::*;
use vstd::string::StringExecFns;
use crate::digits::{int_chars, i32_string};
use crate::workspace::{encode_ws, opt_str_view, Workspace, WorkspaceView};

verus! {

/// `rename workspace <src> to <dst>`: moves the workspace addressed by
/// `src` to the identity `dst`.
pub open spec fn rename_cmd(src: WorkspaceView, dst: WorkspaceView) -> Seq<char> {
    "rename workspace "@ + encode_ws(src) + " to "@ + encode_ws(dst)
}

/// `rename workspace to "<w>"`: renames the focused workspace in place.
pub open spec fn rename_in_place_cmd(w: WorkspaceView) -> Seq<char> {
    "rename workspace to \""@ + encode_ws(w) + "\""@
}

/// The command focusing a workspace: by number when it has one, else by its
/// full id.
pub open spec fn workspace_cmd(w: WorkspaceView) -> Seq<char> {
    match w.num {
        Some(n) => "workspace number "@ + int_chars(n),
        None => "workspace "@ + encode_ws(w),
    }
}

/// `move container to workspace <w>`: moves the focused container.
pub open spec fn move_container_cmd(w: WorkspaceView) -> Seq<char> {
    "move container to workspace "@ + encode_ws(w)
}

/// `move workspace to output <o>`: moves the focused workspace to an output.
pub open spec fn move_output_cmd(o: Seq<char>) -> Seq<char> {
    "move workspace to output "@ + o
}

/// The commands that show a workspace: focus it, then, when both its own
/// output and the override are known and differ, move it to the override.
pub open spec fn show_cmds(w: WorkspaceView, over: Option<Seq<char>>) -> Seq<Seq<char>> {
    match (w.output, over) {
        (Some(o1), Some(o2)) => if o1 != o2 {
            seq![workspace_cmd(w), move_output_cmd(o2)]
        } else {
            seq![workspace_cmd(w)]
        },
        _ => seq![workspace_cmd(w)],
    }
}

/// The three-command output exchange between visible workspaces `a` (the
/// focused one) and `b`: move `a` to `b`'s output, re-show `b`, move `b`'s
/// workspace back to `a`'s original output.
pub open spec fn swap_cmds(a: WorkspaceView, b: WorkspaceView) -> Seq<Seq<char>> {
    seq![move_output_cmd(b.output->0)] + show_cmds(b, None) + seq![move_output_cmd(a.output->0)]
}

/// The single batch string: the commands joined by `"; "`.
pub open spec fn join_cmds(cmds: Seq<Seq<char>>) -> Seq<char>
    decreases cmds.len(),
{
    if cmds.len() == 0 {
        Seq::empty()
    } else if cmds.len() == 1 {
        cmds[0]
    } else {
        join_cmds(cmds.drop_last()) + "; "@ + cmds.last()
    }
}

impl Workspace {
    /// The command that moves this workspace to the identity `dest`.
    pub fn move_to(&self, dest: &Workspace) -> (r: String)
        ensures
            r@ == rename_cmd(self@, dest@),
    {
        let mut s = String::from_str("rename workspace ");
        let src_id = self.id();
        s.append(src_id.as_str());
        s.append(" to ");
        let dst_id = dest.id();
        s.append(dst_id.as_str());
        proof {
            assert(s@ =~= rename_cmd(self@, dest@));
        }
        s
    }

    /// The commands that focus this workspace and, when `output` names a
    /// known output differing from its own, move it there.
    pub fn show(&self, output: Option<String>) -> (r: Vec<String>)
        ensures
            r.deep_view() == show_cmds(self@, opt_str_view(output)),
    {
        let mut cmds: Vec<String> = Vec::new();
        let first = match self.num {
            Some(n) => {
                let mut s = String::from_str("workspace number ");
                let d = i32_string(n);
                s.append(d.as_str());
                s
            },
            None => {
                let mut s = String::from_str("workspace ");
                let own_id = self.id();
                s.append(own_id.as_str());
                s
            },
        };
        cmds.push(first);
        match (&self.output, &output) {
            (Some(o1), Some(o2)) => {
                if !o1.eq(o2) {
                    let mut s = String::from_str("move workspace to output ");
                    s.append(o2.as_str());
                    cmds.push(s);
                }
            },
            _ => {},
        }
        proof {
            assert(cmds.deep_view() =~~= show_cmds(self@, opt_str_view(output)));
        }
        cmds
    }

    /// The output exchange with another visible workspace: both outputs must
    /// be known.
    pub fn swap_with(&self, other: &Workspace) -> (r: Vec<String>)
        requires
            self@.output is Some,
            other@.output is Some,
        ensures
            r.deep_view() == swap_cmds(self@, other@),
    {
        let mut cmds: Vec<String> = Vec::new();
        let mut s1 = String::from_str("move workspace to output ");
        s1.append(other.output.as_ref().unwrap().as_str());
        cmds.push(s1);
        let mut mid = other.show(None);
        cmds.append(&mut mid);
        let mut s2 = String::from_str("move workspace to output ");
        s2.append(self.output.as_ref().unwrap().as_str());
        cmds.push(s2);
        proof {
            assert(cmds.deep_view() =~~= swap_cmds(self@, other@));
        }
        cmds
    }
}

/// Joins an ordered command list into the single batch string that the
/// transport applies sequentially.
pub fn join_commands(cmds: &Vec<String>) -> (r: String)
    ensures
        r@ == join_cmds(cmds.deep_view()),
{
    let mut out = String::new();
    let mut k: usize = 0;
    while k < cmds.len()
        invariant
            k <= cmds.len(),
            cmds.deep_view().len() == cmds@.len(),
            out@ == join_cmds(cmds.deep_view().subrange(0, k as int)),
        decreases cmds.len() - k,
    {
        if k > 0 {
            out.append("; ");
        }
        let c: &String = &cmds[k];
        out.append(c.as_str());
        proof {
            let all = cmds.deep_view();
            let pre = all.subrange(0, k as int);
            let post = all.subrange(0, k as int + 1);
            assert(post.drop_last() =~= pre);
            assert(post.last() == all[k as int]);
            assert(out@ =~= join_cmds(post));
        }
        k = k + 1;
    }
    proof {
        assert(cmds.deep_view().subrange(0, cmds@.len() as int) =~= cmds.deep_view());
    }
    out
}

} // verus!

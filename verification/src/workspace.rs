//! Workspace identities and the label codec.
//!
//! The window manager reports each workspace with a raw numeric slot and a
//! display label.  The label encodes the workspace's identity: `"<num>: <name>"`
//! when both a slot and a name are set, a bare number when only a slot is set,
//! and a bare name otherwise, with `-1` as the manager's sentinel for "no
//! slot".  [`Workspace::from_record`] decodes a raw record into a structured
//! identity and [`Workspace::id`] re-encodes an identity for use inside
//! protocol commands.

use vstd::prelude::*;
use vstd::string::{StrSliceExecFns, StringExecFns};
use crate::digits::{int_chars, lemma_int_chars_dash_one, lemma_int_chars_no_sep, i32_string};

verus! {

/// A raw workspace record, exactly as the window manager reports it:
/// the numeric slot (`-1` when the workspace has none), the display label,
/// the output hosting the workspace, and its presentation state.
#[derive(Debug, Clone, PartialEq)]
pub struct WorkspaceRecord {
    pub num: i32,
    pub name: String,
    pub output: String,
    pub visible: bool,
    pub focused: bool,
    pub urgent: bool,
}

/// The mathematical value of a raw workspace record.
pub struct WorkspaceRecordView {
    pub num: int,
    pub name: Seq<char>,
    pub output: Seq<char>,
    pub visible: bool,
    pub focused: bool,
    pub urgent: bool,
}

impl View for WorkspaceRecord {
    type V = WorkspaceRecordView;

    open spec fn view(&self) -> WorkspaceRecordView {
        WorkspaceRecordView {
            num: self.num as int,
            name: self.name@,
            output: self.output@,
            visible: self.visible,
            focused: self.focused,
            urgent: self.urgent,
        }
    }
}

impl DeepView for WorkspaceRecord {
    type V = WorkspaceRecordView;

    open spec fn deep_view(&self) -> WorkspaceRecordView {
        self.view()
    }
}

/// A structured workspace identity: an optional numeric slot, an optional
/// name, and — for workspaces read from a snapshot — the hosting output and
/// presentation state.  Identities synthesized as targets carry no output and
/// default presentation state.
#[derive(Debug, Clone, PartialEq)]
pub struct Workspace {
    pub num: Option<i32>,
    pub name: Option<String>,
    pub output: Option<String>,
    pub visible: bool,
    pub focused: bool,
}

/// The mathematical value of a workspace identity.
#[verifier::ext_equal]
pub struct WorkspaceView {
    pub num: Option<int>,
    pub name: Option<Seq<char>>,
    pub output: Option<Seq<char>>,
    pub visible: bool,
    pub focused: bool,
}

/// The mathematical value of an optional 32-bit number.
pub open spec fn opt_num_view(o: Option<i32>) -> Option<int> {
    match o {
        Some(n) => Some(n as int),
        None => None,
    }
}

/// The mathematical value of an optional string.
pub open spec fn opt_str_view(o: Option<String>) -> Option<Seq<char>> {
    match o {
        Some(s) => Some(s@),
        None => None,
    }
}

impl View for Workspace {
    type V = WorkspaceView;

    open spec fn view(&self) -> WorkspaceView {
        WorkspaceView {
            num: opt_num_view(self.num),
            name: opt_str_view(self.name),
            output: opt_str_view(self.output),
            visible: self.visible,
            focused: self.focused,
        }
    }
}

impl DeepView for Workspace {
    type V = WorkspaceView;

    open spec fn deep_view(&self) -> WorkspaceView {
        self.view()
    }
}

/// The two-character separator between the number part and the name part of
/// a label.
pub open spec fn sep_chars() -> Seq<char> {
    seq![':', ' ']
}

/// The position of the first occurrence of the separator at or after
/// position `i`, if any.
pub open spec fn find_sep_from(s: Seq<char>, i: int) -> Option<int>
    decreases s.len() - i,
{
    if i + 2 > s.len() {
        None
    } else if s[i] == ':' && s[i + 1] == ' ' {
        Some(i)
    } else {
        find_sep_from(s, i + 1)
    }
}

/// The position of the first occurrence of the `": "` separator in a label,
/// if any.
pub open spec fn find_sep(s: Seq<char>) -> Option<int> {
    find_sep_from(s, 0)
}

/// An identity synthesized from its parts alone: no output, default
/// presentation state.
pub open spec fn synth_view(num: Option<int>, name: Option<Seq<char>>) -> WorkspaceView {
    WorkspaceView { num, name, output: None, visible: false, focused: false }
}

/// The decoded (number, name) pair of a label reported together with raw
/// slot `num`.  The label is split at the first `": "`: with no separator it
/// is either the bare rendering of a real slot or a bare name; with one, a
/// `-1` before the separator marks a nameless slot sentinel, and the whole
/// remainder after the separator is the name.
pub open spec fn decode_parts(num: int, label: Seq<char>) -> (Option<int>, Option<Seq<char>>) {
    match find_sep(label) {
        None => if label == int_chars(num) && num != -1 {
            (Some(num), None)
        } else {
            (None, Some(label))
        },
        Some(i) => {
            let first = label.subrange(0, i);
            let rest = label.subrange(i + 2, label.len() as int);
            if first == seq!['-', '1'] {
                (None, Some(rest))
            } else {
                (Some(num), Some(rest))
            }
        },
    }
}

/// The identity decoded from a raw snapshot record: the decoded (number,
/// name) pair, with the output and presentation state copied verbatim.
pub open spec fn decode_record(r: WorkspaceRecordView) -> WorkspaceView {
    WorkspaceView {
        num: decode_parts(r.num, r.name).0,
        name: decode_parts(r.num, r.name).1,
        output: Some(r.output),
        visible: r.visible,
        focused: r.focused,
    }
}

/// The label that addresses an identity inside a command: number and name
/// where present, joined by `": "`.
pub open spec fn encode_ws(w: WorkspaceView) -> Seq<char> {
    match (w.num, w.name) {
        (Some(n), Some(nm)) => int_chars(n) + sep_chars() + nm,
        (Some(n), None) => int_chars(n),
        (None, Some(nm)) => nm,
        (None, None) => Seq::empty(),
    }
}

/// The position of the first separator, computed over the characters of `s`.
fn find_sep_exec(s: &str) -> (r: Option<usize>)
    ensures
        match r {
            Some(i) => find_sep(s@) == Some(i as int) && i + 2 <= s@.len() && s@[i as int]
                == ':' && s@[i as int + 1] == ' ',
            None => find_sep(s@) is None,
        },
{
    let n = s.unicode_len();
    let mut i: usize = 0;
    while n >= 2 && i <= n - 2
        invariant
            n == s@.len(),
            0 <= i <= n,
            find_sep(s@) == find_sep_from(s@, i as int),
        decreases n - i,
    {
        let c1 = s.get_char(i);
        let c2 = s.get_char(i + 1);
        if c1 == ':' && c2 == ' ' {
            return Some(i);
        }
        i = i + 1;
    }
    None
}

impl Workspace {
    /// An identity synthesized from its parts: a bind or show target that
    /// need not exist yet.  It carries no output and default presentation
    /// state.
    pub fn new(num: Option<i32>, name: Option<String>) -> (w: Workspace)
        ensures
            w@ == synth_view(opt_num_view(num), opt_str_view(name)),
    {
        Workspace { num, name, output: None, visible: false, focused: false }
    }

    /// Decodes a raw snapshot record into a structured identity.
    pub fn from_record(r: &WorkspaceRecord) -> (w: Workspace)
        ensures
            w@ == decode_record(r@),
    {
        let label: &str = r.name.as_str();
        let n = label.unicode_len();
        match find_sep_exec(label) {
            None => {
                let num_str = i32_string(r.num);
                if r.num != -1 && r.name.eq(&num_str) {
                    Workspace {
                        num: Some(r.num),
                        name: None,
                        output: Some(r.output.clone()),
                        visible: r.visible,
                        focused: r.focused,
                    }
                } else {
                    Workspace {
                        num: None,
                        name: Some(r.name.clone()),
                        output: Some(r.output.clone()),
                        visible: r.visible,
                        focused: r.focused,
                    }
                }
            },
            Some(i) => {
                let rest = label.substring_char(i + 2, n).to_owned();
                let dash_one = i == 2 && label.get_char(0) == '-' && label.get_char(1) == '1';
                proof {
                    let first = r.name@.subrange(0, i as int);
                    if dash_one {
                        assert(first =~= seq!['-', '1']);
                    } else {
                        if first == seq!['-', '1'] {
                            assert(r.name@.subrange(0, i as int).len() == i);
                            assert(first[0] == r.name@[0] && first[1] == r.name@[1]);
                            assert(false);
                        }
                    }
                }
                if dash_one {
                    Workspace {
                        num: None,
                        name: Some(rest),
                        output: Some(r.output.clone()),
                        visible: r.visible,
                        focused: r.focused,
                    }
                } else {
                    Workspace {
                        num: Some(r.num),
                        name: Some(rest),
                        output: Some(r.output.clone()),
                        visible: r.visible,
                        focused: r.focused,
                    }
                }
            },
        }
    }

    /// The label that addresses this identity inside a generated command.
    pub fn id(&self) -> (r: String)
        ensures
            r@ == encode_ws(self@),
    {
        match (self.num, &self.name) {
            (Some(n), Some(nm)) => {
                let mut s = i32_string(n);
                s.append(": ");
                s.append(nm.as_str());
                proof {
                    reveal_strlit(": ");
                    assert((": ")@ =~= sep_chars());
                    assert(s@ =~= encode_ws(self@));
                }
                s
            },
            (Some(n), None) => i32_string(n),
            (None, Some(nm)) => nm.clone(),
            (None, None) => String::new(),
        }
    }

    /// Whether two identities agree on every attribute.
    pub fn same_as(&self, other: &Workspace) -> (r: bool)
        ensures
            r == (self@ == other@),
    {
        let num_eq = match (self.num, other.num) {
            (Some(a), Some(b)) => a == b,
            (None, None) => true,
            _ => false,
        };
        let name_eq = match (&self.name, &other.name) {
            (Some(a), Some(b)) => a.eq(b),
            (None, None) => true,
            _ => false,
        };
        let out_eq = match (&self.output, &other.output) {
            (Some(a), Some(b)) => a.eq(b),
            (None, None) => true,
            _ => false,
        };
        let r = num_eq && name_eq && out_eq && self.visible == other.visible && self.focused
            == other.focused;
        proof {
            if r {
                assert(self@ =~~= other@);
            }
        }
        r
    }
}

/// If the separator occurs at `k` and no colon occurs before `k`, then `k`
/// is where the first separator is found.
proof fn lemma_find_sep_at(s: Seq<char>, k: int, i: int)
    requires
        0 <= i <= k,
        k + 2 <= s.len(),
        s[k] == ':',
        s[k + 1] == ' ',
        forall|j: int| 0 <= j < k ==> s[j] != ':',
    ensures
        find_sep_from(s, i) == Some(k),
    decreases k - i,
{
    if i < k {
        lemma_find_sep_at(s, k, i + 1);
    }
}

/// A label without a colon has no separator.
proof fn lemma_find_sep_none(s: Seq<char>, i: int)
    requires
        0 <= i,
        forall|j: int| 0 <= j < s.len() ==> s[j] != ':',
    ensures
        find_sep_from(s, i) is None,
    decreases s.len() - i,
{
    if i + 2 <= s.len() {
        lemma_find_sep_none(s, i + 1);
    }
}

/// Codec round trip: an identity that is a number, a name, or both, encoded
/// and decoded back with its number (or the `-1` sentinel when it has none),
/// is returned unchanged — provided the number is not the sentinel itself,
/// and a pure name contains no `": "` of its own.
pub proof fn lemma_codec_round_trip(num: Option<int>, name: Option<Seq<char>>)
    requires
        num is Some || name is Some,
        num != Some(-1int),
        num is None ==> find_sep(name->0) is None,
    ensures
        decode_parts(
            match num { Some(n) => n, None => -1 },
            encode_ws(synth_view(num, name)),
        ) == (num, name),
{
    let enc = encode_ws(synth_view(num, name));
    match (num, name) {
        (Some(n), Some(nm)) => {
            lemma_int_chars_no_sep(n);
            let l = int_chars(n).len() as int;
            assert(enc[l] == ':' && enc[l + 1] == ' ');
            assert(forall|j: int| 0 <= j < l ==> enc[j] == int_chars(n)[j] && enc[j] != ':');
            lemma_find_sep_at(enc, l, 0);
            let first = enc.subrange(0, l);
            let rest = enc.subrange(l + 2, enc.len() as int);
            assert(first =~= int_chars(n));
            assert(rest =~= nm);
            if first == seq!['-', '1'] {
                lemma_int_chars_dash_one(n);
                assert(false);
            }
        },
        (Some(n), None) => {
            lemma_int_chars_no_sep(n);
            lemma_find_sep_none(enc, 0);
        },
        (None, Some(nm)) => {
            assert(enc == nm);
        },
        (None, None) => {
            assert(false);
        },
    }
}

} // verus!

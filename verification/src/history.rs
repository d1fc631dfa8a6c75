//! The command history of a shell.
//!
//! Commands are kept oldest first. Browsing starts at the position after the
//! newest command (`Index::Current`), walks back through the commands with
//! [`History::previous`] (`Index::Past(0)` is the newest command, `Past(1)`
//! the one before, ...) and ends at the oldest one (`Index::Last`).
//!
//! ```text
//!           +-------+-------+-------+-------+-------+
//! commands: |   0   |   1   |   2   |   3   |   4   |
//!           +-------+-------+-------+-------+-------+
//!               ^       ^       ^       ^       ^       ^
//!               |       |       |       |       |       |
//!    index:   last   past(3) past(2) past(1) past(0) current
//! ```

use vstd::prelude::*;

verus! {

/// A position in the history.
#[derive(Clone, Copy, Debug, PartialEq, Eq, Structural)]
pub enum Index {
    /// After the newest command: nothing is selected.
    Current,
    /// The command `n + 1` places back from the end.
    Past(usize),
    /// The oldest command.
    Last,
}

impl Default for Index {
    fn default() -> (r: Self)
        ensures
            r == Index::Current,
    {
        Index::Current
    }
}

/// `s` with every run of equal neighbours cut down to one element.
pub open spec fn dedup_seq(s: Seq<Seq<char>>) -> Seq<Seq<char>>
    decreases s.len(),
{
    if s.len() == 0 {
        s
    } else {
        let prev = dedup_seq(s.drop_last());
        if prev.len() > 0 && prev.last() == s.last() {
            prev
        } else {
            prev.push(s.last())
        }
    }
}

/// The contents of each string of `v`.
pub open spec fn texts(v: Seq<String>) -> Seq<Seq<char>> {
    v.map_values(|s: String| s@)
}

/// The command at position `index` of a history holding `cmds` (oldest
/// first), if the position names one.
pub open spec fn command_at(cmds: Seq<Seq<char>>, index: Index) -> Option<Seq<char>> {
    match index {
        Index::Current => None,
        Index::Past(n) => if n < cmds.len() {
            Some(cmds[cmds.len() - 1 - n])
        } else {
            None
        },
        Index::Last => if cmds.len() > 0 {
            Some(cmds[0])
        } else {
            None
        },
    }
}

/// The position one step further back from `index` in a history of `len`
/// commands, as [`History::previous`] moves.
pub open spec fn step_back(len: nat, index: Index) -> Index {
    match index {
        Index::Current => if len <= 1 {
            Index::Last
        } else {
            Index::Past(0)
        },
        Index::Past(n) => if n + 2 == len {
            Index::Last
        } else {
            Index::Past((n + 1) as usize)
        },
        Index::Last => Index::Last,
    }
}

/// The position one step forward from `index` in a history of `len`
/// commands, as [`History::next`] moves.
pub open spec fn step_forward(len: nat, index: Index) -> Index {
    match index {
        Index::Current => Index::Current,
        Index::Past(n) => if n == 0 {
            Index::Current
        } else {
            Index::Past((n - 1) as usize)
        },
        Index::Last => if len == 0 {
            Index::Last
        } else if len == 1 {
            Index::Current
        } else {
            Index::Past((len - 2) as usize)
        },
    }
}

/// Whether position `index` is a valid position in a history of `len`
/// commands: a `Past(n)` position names a command other than the oldest.
pub open spec fn index_in_bounds(len: nat, index: Index) -> bool {
    match index {
        Index::Past(n) => n + 2 <= len,
        _ => true,
    }
}

/// The command history of a shell.
#[derive(Clone, Debug)]
pub struct History {
    commands: Vec<String>,
    index: Index,
}

impl History {
    /// The commands, oldest first.
    pub closed spec fn spec_commands(&self) -> Seq<Seq<char>> {
        texts(self.commands@)
    }

    /// The selected position.
    pub closed spec fn spec_index(&self) -> Index {
        self.index
    }

    /// A `Past(n)` position always names a command other than the oldest one.
    pub open spec fn wf(&self) -> bool {
        index_in_bounds(self.spec_commands().len(), self.spec_index())
    }

    /// Creates an empty history.
    pub fn new() -> (r: Self)
        ensures
            r.wf(),
            r.spec_commands() == Seq::<Seq<char>>::empty(),
            r.spec_index() == Index::Current,
    {
        let r = History { commands: Vec::new(), index: Index::Current };
        assert(r.spec_commands() =~= Seq::<Seq<char>>::empty());
        r
    }

    /// The selected position.
    pub fn index(&self) -> (r: Index)
        ensures
            r == self.spec_index(),
    {
        self.index
    }

    /// The number of commands held.
    pub fn len(&self) -> (r: usize)
        ensures
            r == self.spec_commands().len(),
    {
        self.commands.len()
    }

    /// Drops repeated neighbouring commands and moves back to `Current`.
    pub fn reset(&mut self)
        ensures
            final(self).wf(),
            final(self).spec_commands() == dedup_seq(old(self).spec_commands()),
            final(self).spec_index() == Index::Current,
    {
        let mut old_commands: Vec<String> = Vec::new();
        std::mem::swap(&mut old_commands, &mut self.commands);
        let ghost src = texts(old_commands@);
        let mut out: Vec<String> = Vec::new();
        let n = old_commands.len();
        let mut i: usize = 0;
        while i < n
            invariant
                n == old_commands@.len(),
                src == texts(old_commands@),
                i <= n,
                texts(out@) == dedup_seq(src.subrange(0, i as int)),
            decreases n - i,
        {
            let ghost prefix = src.subrange(0, i as int);
            assert(src.subrange(0, i + 1).drop_last() =~= prefix);
            assert(src.subrange(0, i + 1).last() == old_commands@[i as int]@);
            let keep = if out.len() == 0 {
                true
            } else {
                let last = out.len() - 1;
                assert(texts(out@)[last as int] == out@[last as int]@);
                !(out[last] == old_commands[i])
            };
            if keep {
                let c = old_commands[i].clone();
                out.push(c);
                assert(texts(out@) =~= dedup_seq(prefix).push(src[i as int]));
            }
            i = i + 1;
        }
        assert(src.subrange(0, n as int) =~= src);
        self.commands = out;
        self.index = Index::Current;
    }

    /// Moves one command back in the history and returns the command found
    /// there, or `None` once the oldest command has been passed.
    pub fn previous(&mut self) -> (r: Option<String>)
        requires
            old(self).wf(),
        ensures
            final(self).wf(),
            final(self).spec_commands() == old(self).spec_commands(),
            final(self).spec_index() == step_back(
                old(self).spec_commands().len(),
                old(self).spec_index(),
            ),
            r matches Some(s) ==> old(self).spec_index() != Index::Last
                && command_at(final(self).spec_commands(), final(self).spec_index()) == Some(s@),
            r is None <==> (old(self).spec_index() == Index::Last
                || old(self).spec_commands().len() == 0),
    {
        let len = self.commands.len();
        match self.index {
            Index::Current => {
                if len == 0 {
                    self.index = Index::Last;
                    None
                } else if len == 1 {
                    self.index = Index::Last;
                    Some(self.commands[0].clone())
                } else {
                    self.index = Index::Past(0);
                    Some(self.commands[len - 1].clone())
                }
            },
            Index::Past(idx) => {
                if idx + 2 == len {
                    self.index = Index::Last;
                    Some(self.commands[0].clone())
                } else {
                    let idx = idx + 1;
                    self.index = Index::Past(idx);
                    Some(self.commands[len - (idx + 1)].clone())
                }
            },
            Index::Last => None,
        }
    }

    /// Moves one command forward in the history and returns the command found
    /// there; moving forward onto `Current` (or staying there) gives `None`.
    pub fn next(&mut self) -> (r: Option<String>)
        requires
            old(self).wf(),
        ensures
            final(self).wf(),
            final(self).spec_commands() == old(self).spec_commands(),
            final(self).spec_index() == step_forward(
                old(self).spec_commands().len(),
                old(self).spec_index(),
            ),
            r matches Some(s) ==> command_at(final(self).spec_commands(), final(self).spec_index())
                == Some(s@),
            r is None <==> (final(self).spec_index() == Index::Current
                || old(self).spec_commands().len() == 0),
    {
        let len = self.commands.len();
        match self.index {
            Index::Current => None,
            Index::Past(idx) => {
                if idx == 0 {
                    self.index = Index::Current;
                    None
                } else {
                    let idx = idx - 1;
                    self.index = Index::Past(idx);
                    Some(self.commands[len - (idx + 1)].clone())
                }
            },
            Index::Last => {
                if len == 0 {
                    None
                } else if len == 1 {
                    self.index = Index::Current;
                    None
                } else {
                    self.index = Index::Past(len - 2);
                    Some(self.commands[1].clone())
                }
            },
        }
    }

    /// Records `command` as the newest command, after dropping repeated
    /// neighbours, and moves back to `Current`.
    pub fn push(&mut self, command: String)
        ensures
            final(self).wf(),
            final(self).spec_commands() == dedup_seq(old(self).spec_commands()).push(command@),
            final(self).spec_index() == Index::Current,
    {
        self.reset();
        self.commands.push(command);
        proof {
            assert(self.spec_commands() =~= dedup_seq(old(self).spec_commands()).push(command@));
        }
    }
}

impl Default for History {
    fn default() -> (r: Self)
        ensures
            r.wf(),
            r.spec_commands() == Seq::<Seq<char>>::empty(),
            r.spec_index() == Index::Current,
    {
        History::new()
    }
}

/// After a command is pushed, moving back once selects that command.
pub proof fn lemma_previous_after_push(cmds: Seq<Seq<char>>, command: Seq<char>)
    ensures
        ({
            let after = dedup_seq(cmds).push(command);
            command_at(after, step_back(after.len(), Index::Current)) == Some(command)
        }),
{
}

/// Moving forward undoes moving back, from any position but the oldest one,
/// in a non-empty history.
pub proof fn lemma_next_undoes_previous(len: nat, index: Index)
    requires
        0 < len <= usize::MAX,
        index != Index::Last,
        index matches Index::Past(n) ==> n + 2 <= len,
    ensures
        step_forward(len, step_back(len, index)) == index,
{
}

/// Moving back undoes moving forward, from any position but `Current`, in a
/// non-empty history.
pub proof fn lemma_previous_undoes_next(len: nat, index: Index)
    requires
        0 < len <= usize::MAX,
        index != Index::Current,
        index matches Index::Past(n) ==> n + 2 <= len,
    ensures
        step_back(len, step_forward(len, index)) == index,
{
}

/// Dropping repeated neighbours twice is the same as doing it once.
pub proof fn lemma_dedup_idempotent(s: Seq<Seq<char>>)
    ensures
        dedup_seq(dedup_seq(s)) == dedup_seq(s),
    decreases s.len(),
{
    if s.len() > 0 {
        let prev = dedup_seq(s.drop_last());
        lemma_dedup_idempotent(s.drop_last());
        lemma_dedup_no_adjacent_repeats(s.drop_last());
        if !(prev.len() > 0 && prev.last() == s.last()) {
            let d = prev.push(s.last());
            assert(d.drop_last() =~= prev);
        }
    }
}

/// No two neighbours of a deduplicated sequence are equal.
pub proof fn lemma_dedup_no_adjacent_repeats(s: Seq<Seq<char>>)
    ensures
        forall|i: int| 0 <= i < dedup_seq(s).len() - 1 ==> #[trigger] dedup_seq(s)[i] != dedup_seq(s)[i + 1],
    decreases s.len(),
{
    if s.len() > 0 {
        let prev = dedup_seq(s.drop_last());
        lemma_dedup_no_adjacent_repeats(s.drop_last());
        if !(prev.len() > 0 && prev.last() == s.last()) {
            let d = prev.push(s.last());
            assert forall|i: int| 0 <= i < d.len() - 1 implies #[trigger] d[i] != d[i + 1] by {
                if i < prev.len() - 1 {
                    assert(prev[i] != prev[i + 1]);
                }
            }
        }
    }
}

/// Every position a history moves to stays valid, and the command found at
/// a valid position other than `Current` is one of the history's commands:
/// browsing never reads past the commands, and never changes them.
pub proof fn lemma_browsing_stays_in_bounds(cmds: Seq<Seq<char>>, index: Index)
    requires
        index_in_bounds(cmds.len(), index),
    ensures
        index_in_bounds(cmds.len(), step_back(cmds.len(), index)),
        index_in_bounds(cmds.len(), step_forward(cmds.len(), index)),
        command_at(cmds, index) matches Some(c) ==> cmds.contains(c),
        (index != Index::Current && cmds.len() > 0) ==> command_at(cmds, index) is Some,
{
    if let Some(c) = command_at(cmds, index) {
        match index {
            Index::Past(n) => {
                assert(cmds[cmds.len() - 1 - n] == c);
            },
            _ => {
                assert(cmds[0] == c);
            },
        }
    }
}

} // verus!

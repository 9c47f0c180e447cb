//! The bounded tail of CamillaDSP's stderr that the stdin-pipe supervisor
//! keeps for classifying an early exit.
use vstd::prelude::*;

verus! {

/// How many of the most recent stderr lines are kept.
pub const STDERR_TAIL_LINES: usize = 40;

/// The most recent stderr lines of a CamillaDSP process, oldest first.
pub struct StderrTail {
    lines: Vec<String>,
}

/// The last `n` elements of `s` (all of them when there are fewer).
pub open spec fn last_n(s: Seq<Seq<char>>, n: nat) -> Seq<Seq<char>> {
    if s.len() <= n {
        s
    } else {
        s.skip(s.len() - n)
    }
}

/// The lines joined with `'\n'`.
pub open spec fn joined_lines(s: Seq<Seq<char>>) -> Seq<char>
    decreases s.len(),
{
    if s.len() == 0 {
        seq![]
    } else if s.len() == 1 {
        s[0]
    } else {
        joined_lines(s.drop_last()) + seq!['\n'] + s.last()
    }
}

impl View for StderrTail {
    type V = Seq<Seq<char>>;

    closed spec fn view(&self) -> Seq<Seq<char>> {
        self.lines@.map_values(|l: String| l@)
    }
}

impl StderrTail {
    /// The buffer's bound holds.
    pub closed spec fn wf(&self) -> bool {
        self.lines.len() <= STDERR_TAIL_LINES
    }

    /// An empty tail.
    pub fn new() -> (t: Self)
        ensures
            t@ == Seq::<Seq<char>>::empty(),
            t.wf(),
    {
        let t = StderrTail { lines: Vec::new() };
        assert(t@ =~= Seq::<Seq<char>>::empty());
        t
    }

    /// Append a line, dropping the oldest one when the tail is full.
    pub fn push(&mut self, line: String)
        requires
            old(self).wf(),
        ensures
            final(self).wf(),
            final(self)@ == last_n(old(self)@.push(line@), STDERR_TAIL_LINES as nat),
            final(self)@.len() <= STDERR_TAIL_LINES,
    {
        let ghost before = self@;
        if self.lines.len() >= STDERR_TAIL_LINES {
            let ghost v = self.lines@;
            self.lines.remove(0);
            proof {
                assert(self@ =~= before.drop_first());
            }
        }
        let ghost mid = self@;
        self.lines.push(line);
        proof {
            assert(self@ =~= mid.push(line@));
            let all = before.push(line@);
            if before.len() >= STDERR_TAIL_LINES {
                assert(all.skip(all.len() - STDERR_TAIL_LINES as nat) =~= before.drop_first().push(line@));
            } else {
                assert(last_n(all, STDERR_TAIL_LINES as nat) == all);
            }
        }
    }

    /// The kept lines, oldest first, joined with newlines.
    pub fn text(&self) -> (s: String)
        ensures
            s@ == joined_lines(self@),
    {
        let mut s = String::new();
        let mut i: usize = 0;
        let ghost all = self@;
        while i < self.lines.len()
            invariant
                i <= self.lines.len(),
                all == self@,
                all.len() == self.lines.len(),
                forall|k: int| 0 <= k < self.lines.len() ==> #[trigger] all[k] == self.lines@[k]@,
                s@ == joined_lines(all.take(i as int)),
            decreases self.lines.len() - i,
        {
            if i > 0 {
                s.append("\n");
                proof {
                    reveal_strlit("\n");
                }
            }
            s.append(self.lines[i].as_str());
            proof {
                assert(all.take(i as int + 1).drop_last() =~= all.take(i as int));
                if i == 0 {
                    assert(s@ =~= all[0]);
                } else {
                    assert(s@ =~= joined_lines(all.take(i as int)) + seq!['\n'] + all[i as int]);
                }
            }
            i = i + 1;
        }
        proof {
            assert(all.take(i as int) =~= all);
        }
        s
    }
}

} // verus!

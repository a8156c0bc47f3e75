use vstd::prelude::*;

verus! {

/// One run of the table: `count` consecutive instructions emitted on `line`.
#[derive(Debug)]
struct LineNumberItem {
    line: usize,
    count: usize,
}

/// Why recording a line was refused.
#[derive(Copy, Clone, Debug, PartialEq, Eq, Structural)]
pub enum LineFault {
    /// Line numbers start at 1.
    ZeroLine,
    /// The line is smaller than the one recorded last.
    Decreasing,
}

/// Run-length encoded map from instruction offset to source line.
#[derive(Debug)]
pub struct LineNumber {
    list: Vec<LineNumberItem>,
}

/// The line of every recorded instruction, one entry per instruction, in the order of the runs.
pub open spec fn expand(runs: Seq<(nat, nat)>) -> Seq<nat>
    decreases runs.len(),
{
    if runs.len() == 0 {
        Seq::empty()
    } else {
        Seq::new(runs[0].1, |i: int| runs[0].0) + expand(runs.skip(1))
    }
}

/// The table after recording `line`, or `None` where the line must be refused.
pub open spec fn record_spec(lines: Seq<nat>, line: nat) -> Option<Seq<nat>> {
    if line == 0 || (lines.len() > 0 && line < lines.last()) {
        None
    } else {
        Some(lines.push(line))
    }
}

/// The line of the instruction at `offset`, or 0 where no instruction was recorded there.
pub open spec fn line_at_spec(lines: Seq<nat>, offset: nat) -> nat {
    if offset < lines.len() {
        lines[offset as int]
    } else {
        0
    }
}

/// Records each of `lines` in order, starting from `start`; `None` once one is refused.
pub open spec fn record_all(start: Seq<nat>, lines: Seq<nat>) -> Option<Seq<nat>>
    decreases lines.len(),
{
    if lines.len() == 0 {
        Some(start)
    } else {
        match record_all(start, lines.drop_last()) {
            Some(t) => record_spec(t, lines.last()),
            None => None,
        }
    }
}

/// Every line is positive, and no line is smaller than one before it.
pub open spec fn non_decreasing_positive(lines: Seq<nat>) -> bool {
    &&& forall|i: int| 0 <= i < lines.len() ==> lines[i] > 0
    &&& forall|i: int, j: int| 0 <= i <= j < lines.len() ==> lines[i] <= lines[j]
}

proof fn lemma_expand_push(runs: Seq<(nat, nat)>, x: (nat, nat))
    ensures
        expand(runs.push(x)) =~= expand(runs) + Seq::new(x.1, |i: int| x.0),
    decreases runs.len(),
{
    if runs.len() > 0 {
        assert(runs.push(x).skip(1) =~= runs.skip(1).push(x));
        lemma_expand_push(runs.skip(1), x);
    } else {
        assert(runs.push(x).skip(1) =~= runs);
    }
}

proof fn lemma_expand_index(runs: Seq<(nat, nat)>, r: int)
    requires
        runs.len() > 0,
        0 <= r,
    ensures
        r < runs[0].1 ==> r < expand(runs).len() && expand(runs)[r] == runs[0].0,
        r >= runs[0].1 ==> (r < expand(runs).len() <==> r - runs[0].1 < expand(runs.skip(1)).len()),
        r >= runs[0].1 && r < expand(runs).len() ==> expand(runs)[r] == expand(runs.skip(1))[r
            - runs[0].1],
{
}

proof fn lemma_record_all_accepts(lines: Seq<nat>)
    requires
        non_decreasing_positive(lines),
    ensures
        record_all(Seq::empty(), lines) == Some(lines),
    decreases lines.len(),
{
    if lines.len() > 0 {
        let init = lines.drop_last();
        assert(non_decreasing_positive(init));
        lemma_record_all_accepts(init);
        assert(init.push(lines.last()) =~= lines);
    }
}

/// Recording a run of non-decreasing positive lines into an empty table accepts every one of
/// them, and afterwards the lookup of each offset gives the line that was current when its
/// instruction was recorded.
pub proof fn lemma_recorded_lines_are_found(lines: Seq<nat>)
    requires
        non_decreasing_positive(lines),
    ensures
        record_all(Seq::empty(), lines) matches Some(t) && forall|i: nat|
            i < lines.len() ==> line_at_spec(t, i) == lines[i as int],
{
    lemma_record_all_accepts(lines);
}

/// The runs of a well-formed table: positive lines and counts, lines strictly increasing.
pub open spec fn runs_wf(runs: Seq<(nat, nat)>) -> bool {
    &&& forall|i: int| 0 <= i < runs.len() ==> runs[i].0 > 0 && runs[i].1 > 0
    &&& forall|i: int, j: int| 0 <= i < j < runs.len() ==> runs[i].0 < runs[j].0
}

/// The runs after recording one more instruction on `line`: the last run grows where it has
/// that line, else a new run of one instruction starts.
pub open spec fn record_runs(runs: Seq<(nat, nat)>, line: nat) -> Seq<(nat, nat)> {
    if runs.len() == 0 || line != runs.last().0 {
        runs.push((line, 1))
    } else {
        runs.update(runs.len() - 1, (line, runs.last().1 + 1))
    }
}

proof fn lemma_count_within_total(runs: Seq<(nat, nat)>, i: int)
    requires
        0 <= i < runs.len(),
    ensures
        runs[i].1 <= expand(runs).len(),
    decreases runs.len(),
{
    if i > 0 {
        lemma_count_within_total(runs.skip(1), i - 1);
    }
}

/// A table with no records maps every offset to line 0.
pub proof fn lemma_empty_table_has_no_lines(offset: nat)
    ensures
        line_at_spec(Seq::empty(), offset) == 0,
{
}

impl LineNumber {
    pub closed spec fn runs(&self) -> Seq<(nat, nat)> {
        self.list@.map_values(|it: LineNumberItem| (it.line as nat, it.count as nat))
    }

    /// The line of each recorded instruction, in order.
    pub open spec fn view(&self) -> Seq<nat> {
        expand(self.runs())
    }

    pub closed spec fn wf(&self) -> bool {
        runs_wf(self.runs())
    }

    pub fn new() -> (r: LineNumber)
        ensures
            r.wf(),
            r.view() == Seq::<nat>::empty(),
            r.runs() == Seq::<(nat, nat)>::empty(),
    {
        let r = LineNumber { list: Vec::new() };
        assert(r.runs() =~= Seq::<(nat, nat)>::empty());
        r
    }

    /// Records one more instruction on `line`.
    pub fn add_line(&mut self, line: usize) -> (r: Result<(), LineFault>)
        requires
            old(self).wf(),
            old(self).view().len() < usize::MAX,
        ensures
            final(self).wf(),
            match record_spec(old(self).view(), line as nat) {
                Some(t) => r is Ok && final(self).view() == t && final(self).runs() == record_runs(
                    old(self).runs(),
                    line as nat,
                ),
                None => r is Err && final(self).view() == old(self).view() && final(self).runs()
                    == old(self).runs(),
            },
            r == Err::<(), LineFault>(LineFault::ZeroLine) <==> line == 0,
    {
        let current_line = self.current_line();
        if line == 0 {
            return Err(LineFault::ZeroLine);
        }
        if current_line > line {
            return Err(LineFault::Decreasing);
        }
        let list_len = self.list.len();
        let ghost old_runs = self.runs();
        if list_len == 0 || current_line != line {
            proof {
                if list_len > 0 {
                    assert(old_runs[list_len - 1].0 == current_line as nat);
                }
            }
            self.list.push(LineNumberItem { line, count: 1 });
            proof {
                assert(self.runs() =~= old_runs.push((line as nat, 1)));
                lemma_expand_push(old_runs, (line as nat, 1));
                assert(Seq::new(1, |i: int| line as nat) =~= seq![line as nat]);
            }
        } else {
            let count = self.list[list_len - 1].count;
            proof {
                lemma_count_within_total(old_runs, list_len - 1);
            }
            self.list.set(list_len - 1, LineNumberItem { line, count: count + 1 });
            proof {
                let prefix = old_runs.drop_last();
                assert(old_runs =~= prefix.push((line as nat, count as nat)));
                assert(self.runs() =~= prefix.push((line as nat, count as nat + 1)));
                lemma_expand_push(prefix, (line as nat, count as nat));
                lemma_expand_push(prefix, (line as nat, count as nat + 1));
                assert(Seq::new(count as nat + 1, |i: int| line as nat) =~= Seq::new(
                    count as nat,
                    |i: int| line as nat,
                ).push(line as nat));
            }
        }
        Ok(())
    }

    /// The source line of the instruction at `chunk_idx`; 0 where there is none.
    pub fn get_line(&self, chunk_idx: usize) -> (r: usize)
        requires
            self.wf(),
        ensures
            r as nat == line_at_spec(self.view(), chunk_idx as nat),
    {
        let list = &self.list;
        let mut i: usize = 0;
        let mut rest: usize = chunk_idx;
        assert(self.runs().skip(0) =~= self.runs());
        while i < list.len()
            invariant
                self.wf(),
                list == &self.list,
                i <= list.len(),
                line_at_spec(self.view(), chunk_idx as nat) == line_at_spec(
                    expand(self.runs().skip(i as int)),
                    rest as nat,
                ),
            decreases list.len() - i,
        {
            let count = list[i].count;
            proof {
                let tail = self.runs().skip(i as int);
                lemma_expand_index(tail, rest as int);
                assert(tail.skip(1) =~= self.runs().skip(i + 1));
            }
            if rest < count {
                return list[i].line;
            }
            rest = rest - count;
            i = i + 1;
        }
        proof {
            assert(self.runs().skip(i as int) =~= Seq::<(nat, nat)>::empty());
        }
        0
    }

    /// The line recorded last, or 0 for an empty table.
    fn current_line(&self) -> (r: usize)
        requires
            self.wf(),
        ensures
            self.view().len() == 0 ==> r == 0,
            self.view().len() > 0 ==> r as nat == self.view().last(),
            self.list@.len() > 0 ==> r == self.list@.last().line,
            self.list@.len() == 0 <==> self.view().len() == 0,
    {
        let n = self.list.len();
        if n == 0 {
            proof {
                assert(self.runs() =~= Seq::<(nat, nat)>::empty());
            }
            0
        } else {
            proof {
                let runs = self.runs();
                assert(runs =~= runs.drop_last().push(runs.last()));
                lemma_expand_push(runs.drop_last(), runs.last());
            }
            self.list[n - 1].line
        }
    }
}

} // verus!

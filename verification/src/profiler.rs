//! The phase profiler: a stack of open phases, the records of finished (or
//! skipped) ones, and the tree report built from those records.
//!
//! Records arrive children-first: a phase ends before the phase it is nested
//! in. The program supplies the clock (in nanoseconds) and the memory readings.
use vstd::prelude::*;

use vstd::utf8::encode_utf8;

use crate::format::{fixed_point_text, format_fixed_point, u128_decimal};
use crate::paste::{parse_u64, parsed_u64};
use crate::text::{
    char_is_whitespace, chars_eq, chars_of, copy_range, decimal_text, has_prefix, is_white_space,
    push_all, signed_decimal_text, split, split_chars, starts_with, str_eq, string_of, trim_start,
};

verus! {

/// A finished phase, or one recorded as skipped.
#[derive(Clone, Debug)]
pub struct PhaseRecord {
    pub name: String,
    pub elapsed_nanos: u64,
    pub memory_before_kb: u64,
    pub memory_after_kb: u64,
    /// Nesting depth; 0 = top-level phase, >0 = sub-phase.
    pub depth: usize,
    /// True for records that were skipped; shown as SKIPPED in the report.
    pub skipped: bool,
}

impl PhaseRecord {
    /// The change in memory over the phase, in kilobytes.
    pub fn memory_delta_kb(&self) -> (r: i64)
        requires
            i64::MIN <= (self.memory_after_kb as i64) - (self.memory_before_kb as i64) <= i64::MAX,
        ensures
            r == (self.memory_after_kb as i64) - (self.memory_before_kb as i64),
    {
        self.memory_after_kb as i64 - self.memory_before_kb as i64
    }
}

/// An open phase: its name, start time and memory at the start.
#[derive(Clone, Debug)]
pub struct PhaseFrame {
    pub name: String,
    pub start_nanos: u64,
    pub memory_before_kb: u64,
}

/// The profiler of one process.
#[derive(Clone, Debug)]
pub struct Profiler {
    pub enabled: bool,
    pub verbose: bool,
    pub records: Vec<PhaseRecord>,
    pub start_nanos: Option<u64>,
    pub total_memory_before_kb: u64,
    pub stack: Vec<PhaseFrame>,
}

/// The names of the open phases, outermost first.
pub open spec fn frame_names(stack: Seq<PhaseFrame>) -> Seq<Seq<char>> {
    stack.map_values(|f: PhaseFrame| f@)
}

impl View for PhaseFrame {
    type V = Seq<char>;

    open spec fn view(&self) -> Seq<char> {
        self.name@
    }
}

/// The position of the last open phase named `name`.
pub open spec fn last_frame_named(stack: Seq<PhaseFrame>, name: Seq<char>) -> Option<int> {
    frame_names(stack).index_of_last(name)
}

/// A reading of zero when the memory could not be read.
pub open spec fn reading(kb: Option<u64>) -> u64 {
    match kb {
        Some(v) => v,
        None => 0,
    }
}

/// The record an ended phase leaves: its frame's name, the time since the
/// frame started, the memory before and now, and the depth of the phases
/// still open.
pub open spec fn ended(frame: PhaseFrame, now: u64, memory_kb: Option<u64>, depth: nat) -> (
    Seq<char>,
    u64,
    u64,
    u64,
    nat,
    bool,
) {
    (
        frame.name@,
        (if now >= frame.start_nanos {
            now - frame.start_nanos
        } else {
            0
        }) as u64,
        frame.memory_before_kb,
        reading(memory_kb),
        depth,
        false,
    )
}

/// The content of a record.
pub open spec fn record_view(r: PhaseRecord) -> (Seq<char>, u64, u64, u64, nat, bool) {
    (r.name@, r.elapsed_nanos, r.memory_before_kb, r.memory_after_kb, r.depth as nat, r.skipped)
}

impl Profiler {
    /// A profiler with no phases.
    pub fn new(enabled: bool, verbose: bool) -> (r: Profiler)
        ensures
            r.enabled == enabled,
            r.verbose == verbose,
            r.records@.len() == 0,
            r.stack@.len() == 0,
            r.start_nanos is None,
            r.total_memory_before_kb == 0,
    {
        Profiler {
            enabled,
            verbose,
            records: Vec::new(),
            start_nanos: None,
            total_memory_before_kb: 0,
            stack: Vec::new(),
        }
    }

    /// Starts the session at `now` (when enabled).
    pub fn begin(&mut self, now: u64, memory_kb: Option<u64>)
        ensures
            final(self).enabled == old(self).enabled,
            final(self).verbose == old(self).verbose,
            final(self).records@ == old(self).records@,
            final(self).stack@ == old(self).stack@,
            old(self).enabled ==> final(self).start_nanos == Some(now)
                && final(self).total_memory_before_kb == reading(memory_kb),
            !old(self).enabled ==> final(self).start_nanos == old(self).start_nanos
                && final(self).total_memory_before_kb == old(self).total_memory_before_kb,
    {
        if !self.enabled {
            return;
        }
        self.start_nanos = Some(now);
        self.total_memory_before_kb = match memory_kb {
            Some(v) => v,
            None => 0,
        };
    }

    /// Opens a phase named `name` at `now` (when enabled), starting the
    /// session first if it has not started.
    pub fn begin_phase(&mut self, name: &str, now: u64, memory_kb: Option<u64>)
        ensures
            final(self).enabled == old(self).enabled,
            final(self).verbose == old(self).verbose,
            final(self).records@ == old(self).records@,
            old(self).enabled && old(self).start_nanos is None ==> final(self).start_nanos == Some(
                now,
            ) && final(self).total_memory_before_kb == reading(memory_kb),
            !old(self).enabled || old(self).start_nanos is Some ==> final(self).start_nanos == old(
                self,
            ).start_nanos && final(self).total_memory_before_kb == old(
                self,
            ).total_memory_before_kb,
            old(self).enabled ==> final(self).stack@.len() == old(self).stack@.len() + 1,
            old(self).enabled ==> frame_names(final(self).stack@) == frame_names(
                old(self).stack@,
            ).push(name@) && final(self).stack@.last().start_nanos == now
                && final(self).stack@.last().memory_before_kb == reading(memory_kb)
                && final(self).stack@.drop_last() == old(self).stack@,
            !old(self).enabled ==> final(self).stack@ == old(self).stack@,
    {
        if !self.enabled {
            return;
        }
        if self.start_nanos.is_none() {
            self.begin(now, memory_kb);
        }
        let frame = PhaseFrame {
            name: string_of(&chars_of(name)),
            start_nanos: now,
            memory_before_kb: match memory_kb {
                Some(v) => v,
                None => 0,
            },
        };
        let ghost before = self.stack@;
        self.stack.push(frame);
        assert(frame_names(self.stack@) =~= frame_names(before).push(name@));
        assert(self.stack@.drop_last() =~= before);
    }

    /// Ends the innermost open phase named `name` (or, when none has that
    /// name, the innermost phase) at `now`, and records it with the depth of
    /// the phases still open. Nothing happens when disabled or when no phase
    /// is open.
    pub fn end_phase(&mut self, name: &str, now: u64, memory_kb: Option<u64>)
        ensures
            final(self).enabled == old(self).enabled,
            final(self).verbose == old(self).verbose,
            final(self).start_nanos == old(self).start_nanos,
            final(self).total_memory_before_kb == old(self).total_memory_before_kb,
            !old(self).enabled || old(self).stack@.len() == 0 ==> final(self).stack@ == old(
                self,
            ).stack@ && final(self).records@ == old(self).records@,
            old(self).enabled ==> (last_frame_named(old(self).stack@, name@) matches Some(k) ==> {
                &&& 0 <= k < old(self).stack@.len()
                &&& final(self).stack@.len() == old(self).stack@.len() - 1
                &&& final(self).stack@ == old(self).stack@.remove(k)
                &&& final(self).records@.len() == old(self).records@.len() + 1
                &&& final(self).records@.drop_last() == old(self).records@
                &&& record_view(final(self).records@.last()) == ended(
                    old(self).stack@[k],
                    now,
                    memory_kb,
                    (old(self).stack@.len() - 1) as nat,
                )
            }),
            old(self).enabled && old(self).stack@.len() > 0 && last_frame_named(
                old(self).stack@,
                name@,
            ) is None ==> {
                &&& final(self).stack@.len() == old(self).stack@.len() - 1
                &&& final(self).stack@ == old(self).stack@.drop_last()
                &&& final(self).records@.len() == old(self).records@.len() + 1
                &&& final(self).records@.drop_last() == old(self).records@
                &&& record_view(final(self).records@.last()) == ended(
                    old(self).stack@.last(),
                    now,
                    memory_kb,
                    (old(self).stack@.len() - 1) as nat,
                )
            },
    {
        proof {
            frame_names(self.stack@).index_of_last_ensures(name@);
        }
        if !self.enabled || self.stack.len() == 0 {
            return;
        }
        let ghost names = frame_names(self.stack@);
        let wanted = chars_of(name);
        let mut i: usize = self.stack.len();
        let mut found = false;
        while i > 0
            invariant_except_break
                !found,
                i <= self.stack@.len(),
                names == frame_names(self.stack@),
                wanted@ == name@,
                forall|j: int| i <= j < self.stack@.len() ==> names[j] != name@,
            ensures
                i <= self.stack@.len(),
                forall|j: int| i <= j < self.stack@.len() && (!found || j != i - 1) ==> names[j]
                    != name@,
                found ==> i > 0 && names[i - 1] == name@,
                !found ==> i == 0,
            decreases i,
        {
            if chars_eq(&chars_of(self.stack[i - 1].name.as_str()), &wanted) {
                assert(names[i - 1] == self.stack@[i - 1]@);
                found = true;
                break;
            }
            assert(names[i - 1] == self.stack@[i - 1]@);
            i = i - 1;
        }
        let ghost old_stack = self.stack@;
        let frame = if found {
            proof {
                names.index_of_last_ensures(name@);
                assert(names.index_of_last(name@) == Some(i - 1));
            }
            self.stack.remove(i - 1)
        } else {
            proof {
                names.index_of_last_ensures(name@);
                if names.index_of_last(name@) is Some {
                    let k = names.index_of_last(name@)->0;
                    assert(names[k] == name@);
                }
            }
            self.stack.pop().unwrap()
        };
        let elapsed = now.saturating_sub(frame.start_nanos);
        let memory_after_kb = match memory_kb {
            Some(v) => v,
            None => 0,
        };
        let depth = self.stack.len();
        self.records.push(
            PhaseRecord {
                name: frame.name,
                elapsed_nanos: elapsed,
                memory_before_kb: frame.memory_before_kb,
                memory_after_kb,
                depth,
                skipped: false,
            },
        );
        assert(self.records@.drop_last() =~= old(self).records@);
    }

    /// Records an instantaneous, skipped phase (when enabled), at the depth of
    /// the phases open now.
    pub fn skip_phase(&mut self, name: &str, memory_kb: Option<u64>)
        ensures
            final(self).enabled == old(self).enabled,
            final(self).verbose == old(self).verbose,
            final(self).start_nanos == old(self).start_nanos,
            final(self).total_memory_before_kb == old(self).total_memory_before_kb,
            final(self).stack@ == old(self).stack@,
            !old(self).enabled ==> final(self).records@ == old(self).records@,
            old(self).enabled ==> final(self).records@.len() == old(self).records@.len() + 1
                && final(self).records@.drop_last() == old(self).records@
                && record_view(final(self).records@.last()) == (
                name@,
                0u64,
                reading(memory_kb),
                reading(memory_kb),
                old(self).stack@.len(),
                true,
            ),
    {
        if !self.enabled {
            return;
        }
        let memory = match memory_kb {
            Some(v) => v,
            None => 0,
        };
        let depth = self.stack.len();
        self.records.push(
            PhaseRecord {
                name: string_of(&chars_of(name)),
                elapsed_nanos: 0,
                memory_before_kb: memory,
                memory_after_kb: memory,
                depth,
                skipped: true,
            },
        );
        assert(self.records@.drop_last() =~= old(self).records@);
    }

    /// Clears all records and open phases.
    pub fn reset(&mut self)
        ensures
            final(self).enabled == old(self).enabled,
            final(self).verbose == old(self).verbose,
            final(self).records@.len() == 0,
            final(self).stack@.len() == 0,
            final(self).start_nanos is None,
            final(self).total_memory_before_kb == 0,
    {
        self.records = Vec::new();
        self.stack = Vec::new();
        self.start_nanos = None;
        self.total_memory_before_kb = 0;
    }
}

/// The depth of each record.
pub open spec fn depths_of(records: Seq<PhaseRecord>) -> Seq<int> {
    records.map_values(|r: PhaseRecord| r.depth as int)
}

/// The name of each record.
pub open spec fn names_of(records: Seq<PhaseRecord>) -> Seq<Seq<char>> {
    records.map_values(|r: PhaseRecord| r.name@)
}

/// The first record from `j` on that is shallower than record `i`.
pub open spec fn first_shallower(depths: Seq<int>, i: int, j: int) -> Option<int>
    decreases depths.len() - j,
{
    if j < 0 || j >= depths.len() {
        None
    } else if depths[j] < depths[i] {
        Some(j)
    } else {
        first_shallower(depths, i, j + 1)
    }
}

/// The phase a record was nested in: the first later record that is
/// shallower (a phase ends after everything nested in it); `None` at the top.
pub open spec fn parent_of(depths: Seq<int>, i: int) -> Option<int> {
    first_shallower(depths, i, i + 1)
}

/// The records before `bound` nested directly in `parent` (`None`: the
/// top-level records), in order.
pub open spec fn children_before(depths: Seq<int>, parent: Option<int>, bound: int) -> Seq<int>
    decreases bound,
{
    if bound <= 0 {
        Seq::empty()
    } else if parent_of(depths, bound - 1) == parent {
        children_before(depths, parent, bound - 1).push(bound - 1)
    } else {
        children_before(depths, parent, bound - 1)
    }
}

/// The records nested directly in record `i` (they all end before it).
pub open spec fn children_of(depths: Seq<int>, i: int) -> Seq<int> {
    children_before(depths, Some(i), i)
}

/// The top-level records.
pub open spec fn top_level(depths: Seq<int>) -> Seq<int> {
    children_before(depths, None, depths.len() as int)
}

/// What precedes a row's name: nothing at the top level, then `└── ` for a
/// last child and `├── ` for the others.
pub open spec fn connector(root_level: bool, is_last: bool) -> Seq<char> {
    if root_level {
        Seq::empty()
    } else if is_last {
        "└── "@
    } else {
        "├── "@
    }
}

/// The prefix of a node's children: nothing under a top-level node, then the
/// node's prefix continued with blanks after a last child and with a
/// vertical line otherwise.
pub open spec fn nested_prefix(prefix: Seq<char>, root_level: bool, is_last: bool) -> Seq<char> {
    if root_level {
        Seq::empty()
    } else if is_last {
        prefix + "    "@
    } else {
        prefix + "│   "@
    }
}

/// A report row: the tree-drawn name, the record it shows, and whether it is
/// nested.
pub type RowModel = (Seq<char>, int, bool);

/// The rows of record `i` and everything nested in it, depth first.
pub open spec fn node_rows(
    names: Seq<Seq<char>>,
    depths: Seq<int>,
    i: int,
    prefix: Seq<char>,
    root_level: bool,
    is_last: bool,
) -> Seq<RowModel>
    decreases i + 1, 0int,
{
    if i < 0 {
        Seq::empty()
    } else {
        seq![(prefix + connector(root_level, is_last) + names[i], i, !root_level)] + list_rows(
            names,
            depths,
            children_of(depths, i),
            0,
            nested_prefix(prefix, root_level, is_last),
            false,
            i,
        )
    }
}

/// The rows of the records `list[pos..]` (all before `bound`) and what is
/// nested in them.
pub open spec fn list_rows(
    names: Seq<Seq<char>>,
    depths: Seq<int>,
    list: Seq<int>,
    pos: int,
    prefix: Seq<char>,
    root_level: bool,
    bound: int,
) -> Seq<RowModel>
    decreases bound, list.len() - pos,
{
    if pos < 0 || pos >= list.len() || list[pos] < 0 || list[pos] >= bound {
        Seq::empty()
    } else {
        node_rows(names, depths, list[pos], prefix, root_level, pos + 1 == list.len()) + list_rows(
            names,
            depths,
            list,
            pos + 1,
            prefix,
            root_level,
            bound,
        )
    }
}

/// The report's rows: the top-level records in order, each followed by what
/// is nested in it, drawn as a tree.
pub open spec fn report_rows_of(records: Seq<PhaseRecord>) -> Seq<RowModel> {
    list_rows(
        names_of(records),
        depths_of(records),
        top_level(depths_of(records)),
        0,
        Seq::empty(),
        true,
        records.len() as int,
    )
}

/// A row of the report.
#[derive(Clone, Debug)]
pub struct ReportRow {
    pub name: String,
    pub record: usize,
    pub is_sub: bool,
}

impl View for ReportRow {
    type V = RowModel;

    open spec fn view(&self) -> RowModel {
        (self.name@, self.record as int, self.is_sub)
    }
}

/// Indices as integers.
pub open spec fn ints(s: Seq<usize>) -> Seq<int> {
    s.map_values(|x: usize| x as int)
}

/// The views of some rows.
pub open spec fn rows_view(rows: Seq<ReportRow>) -> Seq<RowModel> {
    rows.map_values(|r: ReportRow| r@)
}

proof fn lemma_first_shallower_range(depths: Seq<int>, i: int, j: int)
    ensures
        first_shallower(depths, i, j) matches Some(k) ==> j <= k < depths.len() && depths[k]
            < depths[i],
    decreases depths.len() - j,
{
    if 0 <= j < depths.len() && !(depths[j] < depths[i]) {
        lemma_first_shallower_range(depths, i, j + 1);
    }
}

/// Children lists stop growing once their parent is reached.
proof fn lemma_children_settled(depths: Seq<int>, i: int, bound: int)
    requires
        0 <= i <= bound,
    ensures
        children_before(depths, Some(i), bound) == children_before(depths, Some(i), i),
    decreases bound - i,
{
    if bound > i {
        lemma_first_shallower_range(depths, bound - 1, bound);
        lemma_children_settled(depths, i, bound - 1);
    }
}

/// Every listed child comes before `bound`.
proof fn lemma_children_below(depths: Seq<int>, parent: Option<int>, bound: int)
    ensures
        forall|k: int|
            0 <= k < children_before(depths, parent, bound).len() ==> 0 <= #[trigger] children_before(
                depths,
                parent,
                bound,
            )[k] < bound,
    decreases bound,
{
    if bound > 0 {
        lemma_children_below(depths, parent, bound - 1);
        let prev = children_before(depths, parent, bound - 1);
        let cur = children_before(depths, parent, bound);
        assert forall|k: int| 0 <= k < cur.len() implies 0 <= #[trigger] cur[k] < bound by {
            if k < prev.len() {
                assert(cur[k] == prev[k]);
            }
        }
    }
}

/// Where each record's parent is.
fn parent_indices(records: &Vec<PhaseRecord>) -> (r: Vec<Option<usize>>)
    ensures
        r@.len() == records@.len(),
        forall|i: int|
            0 <= i < r@.len() ==> match #[trigger] r@[i] {
                Some(p) => parent_of(depths_of(records@), i) == Some(p as int),
                None => parent_of(depths_of(records@), i) is None,
            },
{
    let ghost depths = depths_of(records@);
    let n = records.len();
    let mut parents: Vec<Option<usize>> = Vec::new();
    let mut i: usize = 0;
    while i < n
        invariant
            n == records@.len(),
            depths == depths_of(records@),
            i <= n,
            parents@.len() == i,
            forall|k: int|
                0 <= k < i ==> match #[trigger] parents@[k] {
                    Some(p) => parent_of(depths, k) == Some(p as int),
                    None => parent_of(depths, k) is None,
                },
        decreases n - i,
    {
        let mut j: usize = i + 1;
        while j < n && records[j].depth >= records[i].depth
            invariant
                n == records@.len(),
                depths == depths_of(records@),
                i < n,
                i + 1 <= j <= n,
                first_shallower(depths, i as int, i + 1) == first_shallower(
                    depths,
                    i as int,
                    j as int,
                ),
            decreases n - j,
        {
            assert(depths[j as int] == records@[j as int].depth);
            assert(depths[i as int] == records@[i as int].depth);
            j = j + 1;
        }
        if j < n {
            assert(depths[j as int] == records@[j as int].depth);
            assert(depths[i as int] == records@[i as int].depth);
            parents.push(Some(j));
        } else {
            parents.push(None);
        }
        i = i + 1;
    }
    parents
}

fn seq_chars(s: &str) -> (r: Vec<char>)
    ensures
        r@ == s@,
{
    chars_of(s)
}

/// Appends the rows of record `i` and what is nested in it.
fn collect_node(
    records: &Vec<PhaseRecord>,
    children: &Vec<Vec<usize>>,
    i: usize,
    prefix: &Vec<char>,
    root_level: bool,
    is_last: bool,
    out: &mut Vec<ReportRow>,
)
    requires
        i < records@.len(),
        children@.len() == records@.len(),
        forall|k: int|
            0 <= k < records@.len() ==> ints((#[trigger] children@[k])@) == children_of(
                depths_of(records@),
                k,
            ),
    ensures
        rows_view(final(out)@) == rows_view(old(out)@) + node_rows(
            names_of(records@),
            depths_of(records@),
            i as int,
            prefix@,
            root_level,
            is_last,
        ),
    decreases i + 1, 0int,
{
    let mut name = prefix.clone();
    assert(name@ == prefix@);
    if !root_level {
        if is_last {
            push_all(&mut name, &seq_chars("└── "));
        } else {
            push_all(&mut name, &seq_chars("├── "));
        }
    }
    push_all(&mut name, &chars_of(records[i].name.as_str()));
    assert(name@ == prefix@ + connector(root_level, is_last) + names_of(records@)[i as int]);
    let ghost before = out@;
    out.push(ReportRow { name: string_of(&name), record: i, is_sub: !root_level });
    assert(rows_view(out@) == rows_view(before).push(
        (prefix@ + connector(root_level, is_last) + names_of(records@)[i as int], i as int, !root_level),
    )) by {
        assert(rows_view(out@) =~= rows_view(before).push(out@.last()@));
    }
    let mut nested: Vec<char> = Vec::new();
    if !root_level {
        nested = prefix.clone();
        if is_last {
            push_all(&mut nested, &seq_chars("    "));
        } else {
            push_all(&mut nested, &seq_chars("│   "));
        }
    }
    assert(nested@ == nested_prefix(prefix@, root_level, is_last));
    proof {
        lemma_children_below(depths_of(records@), Some(i as int), i as int);
        let list = children@[i as int]@;
        assert forall|k: int| 0 <= k < list.len() implies (#[trigger] list[k]) < i by {
            assert(ints(list)[k] == list[k] as int);
        }
    }
    collect_list(records, children, &children[i], 0, &nested, false, i, out);
    assert(rows_view(out@) =~= rows_view(old(out)@) + node_rows(
        names_of(records@),
        depths_of(records@),
        i as int,
        prefix@,
        root_level,
        is_last,
    ));
}

/// Appends the rows of `list[pos..]` (records before `bound`) and what is
/// nested in them.
fn collect_list(
    records: &Vec<PhaseRecord>,
    children: &Vec<Vec<usize>>,
    list: &Vec<usize>,
    pos: usize,
    prefix: &Vec<char>,
    root_level: bool,
    bound: usize,
    out: &mut Vec<ReportRow>,
)
    requires
        bound <= records@.len(),
        pos <= list@.len(),
        children@.len() == records@.len(),
        forall|k: int|
            0 <= k < records@.len() ==> ints((#[trigger] children@[k])@) == children_of(
                depths_of(records@),
                k,
            ),
        forall|k: int| 0 <= k < list@.len() ==> (#[trigger] list@[k]) < bound,
    ensures
        rows_view(final(out)@) == rows_view(old(out)@) + list_rows(
            names_of(records@),
            depths_of(records@),
            ints(list@),
            pos as int,
            prefix@,
            root_level,
            bound as int,
        ),
    decreases bound, list@.len() - pos,
{
    let ghost l = ints(list@);
    if pos >= list.len() {
        assert(rows_view(out@) =~= rows_view(old(out)@) + Seq::<RowModel>::empty());
        return;
    }
    let node = list[pos];
    assert(l[pos as int] == node as int);
    collect_node(records, children, node, prefix, root_level, pos + 1 == list.len(), out);
    collect_list(records, children, list, pos + 1, prefix, root_level, bound, out);
    assert(rows_view(out@) =~= rows_view(old(out)@) + list_rows(
        names_of(records@),
        depths_of(records@),
        l,
        pos as int,
        prefix@,
        root_level,
        bound as int,
    ));
}

/// The report rows for `records`: the top-level records in order, each
/// followed by the records nested in it, with tree-drawn names.
pub fn report_rows(records: &Vec<PhaseRecord>) -> (r: Vec<ReportRow>)
    ensures
        rows_view(r@) == report_rows_of(records@),
{
    let ghost depths = depths_of(records@);
    let n = records.len();
    let parents = parent_indices(records);
    let mut children: Vec<Vec<usize>> = Vec::new();
    let mut k: usize = 0;
    while k < n
        invariant
            k <= n == records@.len(),
            children@.len() == k,
            forall|j: int| 0 <= j < k ==> (#[trigger] children@[j])@.len() == 0,
        decreases n - k,
    {
        children.push(Vec::new());
        k = k + 1;
    }
    let mut top: Vec<usize> = Vec::new();
    let mut b: usize = 0;
    while b < n
        invariant
            b <= n == records@.len(),
            depths == depths_of(records@),
            parents@.len() == n,
            forall|i: int|
                0 <= i < n ==> match #[trigger] parents@[i] {
                    Some(p) => parent_of(depths, i) == Some(p as int),
                    None => parent_of(depths, i) is None,
                },
            children@.len() == n,
            forall|j: int|
                0 <= j < n ==> ints((#[trigger] children@[j])@)
                    == children_before(depths, Some(j), b as int),
            ints(top@) == children_before(depths, None, b as int),
        decreases n - b,
    {
        proof {
            lemma_first_shallower_range(depths, b as int, b + 1);
        }
        let ghost old_children = children@;
        let ghost old_top = top@;
        match parents[b] {
            Some(p) => {
                let mut list = children[p].clone();
                assert(list@ =~= old_children[p as int]@);
                list.push(b);
                children.set(p, list);
                assert(ints(top@) == children_before(depths, None, b + 1));
                assert forall|j: int| 0 <= j < n implies ints((#[trigger] children@[j])@)
                    == children_before(depths, Some(j), b + 1) by {
                    if j == p {
                        assert(ints(children@[j]@) =~= ints(old_children[j]@).push(b as int));
                    } else {
                        assert(children@[j] == old_children[j]);
                    }
                }
            },
            None => {
                top.push(b);
                assert(ints(top@) =~= ints(old_top).push(b as int));
                assert forall|j: int| 0 <= j < n implies ints((#[trigger] children@[j])@)
                    == children_before(depths, Some(j), b + 1) by {
                    assert(children@[j] == old_children[j]);
                }
            },
        }
        b = b + 1;
    }
    proof {
        assert forall|j: int| 0 <= j < n implies ints((#[trigger] children@[j])@) == children_of(
            depths,
            j,
        ) by {
            lemma_children_settled(depths, j, n as int);
        }
        lemma_children_below(depths, None, n as int);
        assert forall|k: int| 0 <= k < top@.len() implies (#[trigger] top@[k]) < n by {
            assert(ints(top@)[k] == top@[k] as int);
        }
    }
    let mut out: Vec<ReportRow> = Vec::new();
    let empty: Vec<char> = Vec::new();
    collect_list(records, &children, &top, 0, &empty, true, n, &mut out);
    assert(rows_view(out@) =~= report_rows_of(records@));
    out
}

/// The byte length of a name's UTF-8 text (what `str::len` counts).
pub open spec fn byte_len(s: Seq<char>) -> nat {
    encode_utf8(s).len()
}

/// The width of the name column: the longest row name in bytes, and at least 24.
pub open spec fn widest(rows: Seq<RowModel>) -> nat
    decreases rows.len(),
{
    if rows.len() == 0 {
        24
    } else {
        let w = widest(rows.drop_last());
        let b = byte_len(rows.last().0);
        if b > w {
            b
        } else {
            w
        }
    }
}

/// The width of the name column for some rows.
pub fn report_width(rows: &Vec<ReportRow>) -> (r: usize)
    ensures
        r == widest(rows_view(rows@)),
{
    let mut w: usize = 24;
    let mut i: usize = 0;
    while i < rows.len()
        invariant
            i <= rows@.len(),
            w == widest(rows_view(rows@).take(i as int)),
        decreases rows.len() - i,
    {
        assert(rows_view(rows@).take(i + 1).drop_last() =~= rows_view(rows@).take(i as int));
        let b = rows[i].name.as_str().as_bytes().len();
        assert(rows_view(rows@).take(i + 1).last() == rows@[i as int]@);
        assert(b == byte_len(rows_view(rows@).take(i + 1).last().0));
        if b > w {
            w = b;
        }
        i = i + 1;
    }
    assert(rows_view(rows@).take(rows@.len() as int) =~= rows_view(rows@));
    w
}

/// `n` spaces (none for `n <= 0`).
pub open spec fn spaces(n: int) -> Seq<char> {
    Seq::new(
        if n > 0 {
            n as nat
        } else {
            0
        },
        |i: int| ' ',
    )
}

/// `s` followed by spaces up to `width` characters (`{:<width}`).
pub open spec fn pad_end(s: Seq<char>, width: int) -> Seq<char> {
    s + spaces(width - s.len())
}

/// `s` after spaces up to `width` characters (`{:>width}`).
pub open spec fn pad_start(s: Seq<char>, width: int) -> Seq<char> {
    spaces(width - s.len()) + s
}

/// Nanoseconds as milliseconds with two decimal places, rounded half to even.
pub open spec fn millis_text(nanos: nat) -> Seq<char> {
    fixed_point_text(nanos, 1_000_000, 2)
}

/// A signed number with its sign always written (`{:+}`).
pub open spec fn plus_signed_text(n: int) -> Seq<char> {
    if n >= 0 {
        "+"@ + decimal_text(n as nat)
    } else {
        signed_decimal_text(n)
    }
}

/// The change in memory over a record's phase.
pub open spec fn memory_delta(r: PhaseRecord) -> int {
    (r.memory_after_kb as i64) as int - (r.memory_before_kb as i64) as int
}

/// A report line: the name padded to the column width, then `SKIPPED` for a
/// skipped phase, or else the time in milliseconds, the memory before and
/// after, and the signed change.
pub open spec fn record_line(name: Seq<char>, width: int, r: PhaseRecord) -> Seq<char> {
    if r.skipped {
        pad_end(name, width) + " "@ + pad_end("SKIPPED"@, 10) + " "@ + pad_end("-"@, 10) + " "@
            + pad_end("-"@, 10) + " "@ + pad_end("-"@, 10)
    } else {
        pad_end(name, width) + " "@ + pad_start(millis_text(r.elapsed_nanos as nat), 10) + " "@
            + pad_start(decimal_text(r.memory_before_kb as nat), 10) + " KB "@ + pad_start(
            decimal_text(r.memory_after_kb as nat),
            10,
        ) + " KB "@ + pad_start(plus_signed_text(memory_delta(r)), 10) + " KB"@
    }
}

fn push_spaces(v: &mut Vec<char>, n: usize)
    ensures
        final(v)@ == old(v)@ + spaces(n as int),
{
    let mut i: usize = 0;
    while i < n
        invariant
            i <= n,
            v@ == old(v)@ + spaces(i as int),
        decreases n - i,
    {
        v.push(' ');
        i = i + 1;
        assert(v@ =~= old(v)@ + spaces(i as int));
    }
}

fn push_padded_end(v: &mut Vec<char>, s: &Vec<char>, width: usize)
    ensures
        final(v)@ == old(v)@ + pad_end(s@, width as int),
{
    push_all(v, s);
    if s.len() < width {
        push_spaces(v, width - s.len());
    } else {
        push_spaces(v, 0);
    }
    assert(v@ =~= old(v)@ + pad_end(s@, width as int));
}

fn push_padded_start(v: &mut Vec<char>, s: &Vec<char>, width: usize)
    ensures
        final(v)@ == old(v)@ + pad_start(s@, width as int),
{
    if s.len() < width {
        push_spaces(v, width - s.len());
    } else {
        push_spaces(v, 0);
    }
    push_all(v, s);
    assert(v@ =~= old(v)@ + pad_start(s@, width as int));
}

fn plus_signed(n: i128) -> (r: Vec<char>)
    requires
        n > i128::MIN,
    ensures
        r@ == plus_signed_text(n as int),
{
    if n >= 0 {
        let mut v = chars_of("+");
        push_all(&mut v, &u128_decimal(n as u128));
        v
    } else {
        let mut v: Vec<char> = Vec::new();
        v.push('-');
        let magnitude: u128 = (-n) as u128;
        push_all(&mut v, &u128_decimal(magnitude));
        assert(v@ =~= signed_decimal_text(n as int));
        v
    }
}

/// One line of the report for a record shown under `name`.
pub fn render_report_line(name: &str, width: usize, record: &PhaseRecord) -> (r: String)
    ensures
        r@ == record_line(name@, width as int, *record),
{
    let mut v: Vec<char> = Vec::new();
    push_padded_end(&mut v, &chars_of(name), width);
    if record.skipped {
        push_all(&mut v, &chars_of(" "));
        push_padded_end(&mut v, &chars_of("SKIPPED"), 10);
        push_all(&mut v, &chars_of(" "));
        push_padded_end(&mut v, &chars_of("-"), 10);
        push_all(&mut v, &chars_of(" "));
        push_padded_end(&mut v, &chars_of("-"), 10);
        push_all(&mut v, &chars_of(" "));
        push_padded_end(&mut v, &chars_of("-"), 10);
    } else {
        push_all(&mut v, &chars_of(" "));
        push_padded_start(&mut v, &format_fixed_point(record.elapsed_nanos as u128, 1_000_000, 2), 10);
        push_all(&mut v, &chars_of(" "));
        push_padded_start(&mut v, &u128_decimal(record.memory_before_kb as u128), 10);
        push_all(&mut v, &chars_of(" KB "));
        push_padded_start(&mut v, &u128_decimal(record.memory_after_kb as u128), 10);
        push_all(&mut v, &chars_of(" KB "));
        let delta: i128 = (record.memory_after_kb as i64) as i128 - (record.memory_before_kb as i64) as i128;
        push_padded_start(&mut v, &plus_signed(delta), 10);
        push_all(&mut v, &chars_of(" KB"));
    }
    string_of(&v)
}

/// The time of the top-level phases, in nanoseconds.
pub open spec fn top_level_nanos(records: Seq<PhaseRecord>) -> nat
    decreases records.len(),
{
    if records.len() == 0 {
        0
    } else {
        top_level_nanos(records.drop_last()) + if records.last().depth == 0 {
            records.last().elapsed_nanos as nat
        } else {
            0
        }
    }
}

/// The memory change of the top-level phases, in kilobytes.
pub open spec fn top_level_delta(records: Seq<PhaseRecord>) -> int
    decreases records.len(),
{
    if records.len() == 0 {
        0
    } else {
        top_level_delta(records.drop_last()) + if records.last().depth == 0 {
            memory_delta(records.last())
        } else {
            0
        }
    }
}

/// The largest memory reading at the end of a phase (0 without records).
pub open spec fn peak_memory(records: Seq<PhaseRecord>) -> nat
    decreases records.len(),
{
    if records.len() == 0 {
        0
    } else {
        let p = peak_memory(records.drop_last());
        if records.last().memory_after_kb > p {
            records.last().memory_after_kb as nat
        } else {
            p
        }
    }
}

/// The memory changes of the top-level phases, and every partial sum of them,
/// fit an `i64` (the report adds them as `i64`s).
pub open spec fn deltas_fit(records: Seq<PhaseRecord>) -> bool {
    forall|k: int|
        0 <= k <= records.len() ==> i64::MIN <= #[trigger] top_level_delta(records.take(k))
            <= i64::MAX && (k < records.len() && records[k].depth == 0 ==> i64::MIN
            <= memory_delta(records[k]) <= i64::MAX)
}

/// `─` repeated `n` times.
pub open spec fn rule_text(n: nat) -> Seq<char> {
    Seq::new(n, |i: int| '─')
}

/// The report's lines (what the profiler displays): a blank line, the title,
/// the column headers, a rule, one line per row, a rule, the total time and
/// peak memory, and the net memory change. Nothing without records or when
/// profiling is off.
pub open spec fn report_lines_of(enabled: bool, records: Seq<PhaseRecord>) -> Seq<Seq<char>> {
    let rows = report_rows_of(records);
    let w = widest(rows) as int;
    let rule = rule_text((w + 66) as nat);
    if !enabled || records.len() == 0 {
        Seq::empty()
    } else {
        seq![
            Seq::empty(),
            "=== rsclip Profile Report ==="@,
            pad_end("Phase"@, w) + " "@ + pad_start("Time (ms)"@, 10) + " "@ + pad_start(
                "Mem Before"@,
                13,
            ) + " "@ + pad_start("Mem After"@, 13) + " "@ + pad_start("Delta (KB)"@, 13),
            rule,
        ] + rows.map_values(|r: RowModel| record_line(r.0, w, records[r.1])) + seq![
            rule,
            pad_end("Total"@, w) + " "@ + pad_start(millis_text(top_level_nanos(records)), 10)
                + " "@ + pad_start(Seq::empty(), 34) + " "@ + pad_start(
                decimal_text(peak_memory(records)),
                10,
            ) + " KB"@,
            pad_end(Seq::empty(), w) + " "@ + pad_start(Seq::empty(), 36) + " "@ + pad_start(
                "net: "@ + plus_signed_text(top_level_delta(records)),
                10,
            ) + " KB"@,
        ]
    }
}

/// `round_half_even(100 n, 10^6) == round_half_even(n, 10^4)`.
proof fn lemma_millis_rounding(n: nat)
    ensures
        crate::format::round_half_even(n * 100, 1_000_000) == crate::format::round_half_even(
            n,
            10_000,
        ),
{
    let q = n / 10_000;
    let r = n % 10_000;
    vstd::arithmetic::div_mod::lemma_fundamental_div_mod(n as int, 10_000);
    assert(n * 100 == q * 1_000_000 + r * 100) by (nonlinear_arith)
        requires
            n == 10_000 * q + r,
    ;
    vstd::arithmetic::div_mod::lemma_fundamental_div_mod_converse(
        (n * 100) as int,
        1_000_000,
        q as int,
        (r * 100) as int,
    );
}

/// The rows of a node show records up to the node itself.
proof fn lemma_node_rows_in_range(
    names: Seq<Seq<char>>,
    depths: Seq<int>,
    i: int,
    prefix: Seq<char>,
    root_level: bool,
    is_last: bool,
)
    ensures
        forall|k: int|
            0 <= k < node_rows(names, depths, i, prefix, root_level, is_last).len() ==> 0
                <= (#[trigger] node_rows(names, depths, i, prefix, root_level, is_last)[k]).1 <= i,
    decreases i + 1, 0int,
{
    if i >= 0 {
        let kids = children_of(depths, i);
        let nested = nested_prefix(prefix, root_level, is_last);
        lemma_list_rows_in_range(names, depths, kids, 0, nested, false, i);
        let head = seq![(prefix + connector(root_level, is_last) + names[i], i, !root_level)];
        let tail = list_rows(names, depths, kids, 0, nested, false, i);
        assert forall|k: int|
            0 <= k < node_rows(names, depths, i, prefix, root_level, is_last).len() implies 0
                <= (#[trigger] node_rows(names, depths, i, prefix, root_level, is_last)[k]).1
                <= i by {
            if k >= 1 {
                assert(node_rows(names, depths, i, prefix, root_level, is_last)[k] == tail[k - 1]);
            }
        }
    }
}

/// The rows of a list show records below its bound.
proof fn lemma_list_rows_in_range(
    names: Seq<Seq<char>>,
    depths: Seq<int>,
    list: Seq<int>,
    pos: int,
    prefix: Seq<char>,
    root_level: bool,
    bound: int,
)
    ensures
        forall|k: int|
            0 <= k < list_rows(names, depths, list, pos, prefix, root_level, bound).len() ==> 0
                <= (#[trigger] list_rows(names, depths, list, pos, prefix, root_level, bound)[k]).1
                < bound,
    decreases bound, list.len() - pos,
{
    if !(pos < 0 || pos >= list.len() || list[pos] < 0 || list[pos] >= bound) {
        let first = node_rows(names, depths, list[pos], prefix, root_level, pos + 1 == list.len());
        let rest = list_rows(names, depths, list, pos + 1, prefix, root_level, bound);
        lemma_node_rows_in_range(names, depths, list[pos], prefix, root_level, pos + 1 == list.len());
        lemma_list_rows_in_range(names, depths, list, pos + 1, prefix, root_level, bound);
        let all = list_rows(names, depths, list, pos, prefix, root_level, bound);
        assert(all == first + rest);
        assert forall|k: int| 0 <= k < all.len() implies 0 <= (#[trigger] all[k]).1 < bound by {
            if k < first.len() {
                assert(all[k] == first[k]);
            } else {
                assert(all[k] == rest[k - first.len()]);
            }
        }
    }
}

/// Nanoseconds as milliseconds with two decimal places, for any amount.
fn millis(nanos: u128) -> (r: Vec<char>)
    ensures
        r@ == millis_text(nanos as nat),
{
    proof {
        lemma_millis_rounding(nanos as nat);
    }
    let q = nanos / 10_000;
    let rem = nanos % 10_000;
    let s: u128 = if rem > 10_000 - rem || (rem == 10_000 - rem && q % 2 == 1) {
        q + 1
    } else {
        q
    };
    assert(s as nat == crate::format::round_half_even(nanos as nat, 10_000));
    let mut v = u128_decimal(s / 100);
    v.push('.');
    let f = s % 100;
    v.push(crate::text::digit_to_char((f / 10) as u64));
    v.push(crate::text::digit_to_char((f % 10) as u64));
    assert(v@ =~= millis_text(nanos as nat));
    v
}

fn rule_line(n: usize) -> (r: String)
    ensures
        r@ == rule_text(n as nat),
{
    let mut v: Vec<char> = Vec::new();
    let mut i: usize = 0;
    while i < n
        invariant
            i <= n,
            v@ == rule_text(i as nat),
        decreases n - i,
    {
        v.push('─');
        i = i + 1;
        assert(v@ =~= rule_text(i as nat));
    }
    string_of(&v)
}

impl Profiler {
    /// The lines of the profile report (empty without records or when
    /// profiling is off).
    pub fn report_lines(&self) -> (r: Vec<String>)
        requires
            deltas_fit(self.records@),
            self.records@.len() > 0 ==> widest(report_rows_of(self.records@)) + 66 <= usize::MAX,
        ensures
            r@.map_values(|l: String| l@) == report_lines_of(self.enabled, self.records@),
    {
        let mut lines: Vec<String> = Vec::new();
        if !self.enabled || self.records.len() == 0 {
            assert(lines@.map_values(|l: String| l@) =~= report_lines_of(self.enabled, self.records@));
            return lines;
        }
        let ghost records = self.records@;
        // Totals over the top-level phases, and the peak memory.
        let mut total: u128 = 0;
        let mut net: i128 = 0;
        let mut peak: u64 = 0;
        let mut j: usize = 0;
        assert(records.take(0) =~= Seq::<PhaseRecord>::empty());
        while j < self.records.len()
            invariant
                j <= records.len(),
                records == self.records@,
                deltas_fit(records),
                total as nat == top_level_nanos(records.take(j as int)),
                total <= j * 0x1_0000_0000_0000_0000,
                net as int == top_level_delta(records.take(j as int)),
                peak as nat == peak_memory(records.take(j as int)),
            decreases records.len() - j,
        {
            let ghost before = records.take(j as int);
            assert(records.take(j + 1).drop_last() =~= before);
            assert(records.take(j + 1).last() == records[j as int]);
            let r = &self.records[j];
            if r.depth == 0 {
                total = total + r.elapsed_nanos as u128;
                proof {
                    assert(top_level_delta(records.take(j + 1)) <= i64::MAX);
                    assert(top_level_delta(records.take(j + 1)) >= i64::MIN);
                }
                net = net + ((r.memory_after_kb as i64) as i128 - (r.memory_before_kb as i64) as i128);
            }
            if r.memory_after_kb > peak {
                peak = r.memory_after_kb;
            }
            j = j + 1;
        }
        assert(records.take(records.len() as int) =~= records);
        let rows = report_rows(&self.records);
        let width = report_width(&rows);
        let rule = rule_line(width + 66);
        lines.push(string_of(&Vec::new()));
        lines.push(string_of(&chars_of("=== rsclip Profile Report ===")));
        let mut header: Vec<char> = Vec::new();
        push_padded_end(&mut header, &chars_of("Phase"), width);
        push_all(&mut header, &chars_of(" "));
        push_padded_start(&mut header, &chars_of("Time (ms)"), 10);
        push_all(&mut header, &chars_of(" "));
        push_padded_start(&mut header, &chars_of("Mem Before"), 13);
        push_all(&mut header, &chars_of(" "));
        push_padded_start(&mut header, &chars_of("Mem After"), 13);
        push_all(&mut header, &chars_of(" "));
        push_padded_start(&mut header, &chars_of("Delta (KB)"), 13);
        lines.push(string_of(&header));
        lines.push(string_of(&chars_of(rule.as_str())));
        let ghost row_models = rows_view(rows@);
        proof {
            lemma_list_rows_in_range(
                names_of(records),
                depths_of(records),
                top_level(depths_of(records)),
                0,
                Seq::empty(),
                true,
                records.len() as int,
            );
            assert forall|k: int| 0 <= k < rows@.len() implies (#[trigger] rows@[k]).record
                < records.len() by {
                assert(row_models[k] == rows@[k]@);
            }
        }
        let mut i: usize = 0;
        while i < rows.len()
            invariant
                i <= rows@.len(),
                row_models == rows_view(rows@),
                row_models == report_rows_of(records),
                records == self.records@,
                width == widest(row_models),
                lines@.len() == 4 + i,
                forall|k: int|
                    0 <= k < i ==> (#[trigger] lines@[4 + k])@ == record_line(
                        row_models[k].0,
                        width as int,
                        records[row_models[k].1],
                    ),
                lines@[0]@ == Seq::<char>::empty(),
                lines@[1]@ == "=== rsclip Profile Report ==="@,
                lines@[2]@ == header@,
                lines@[3]@ == rule@,
                forall|k: int| 0 <= k < rows@.len() ==> (#[trigger] rows@[k]).record < records.len(),
                total as nat == top_level_nanos(records),
                net as int == top_level_delta(records),
                peak as nat == peak_memory(records),
                rule@ == rule_text((width + 66) as nat),
            decreases rows.len() - i,
        {
            let row = &rows[i];
            assert(row_models[i as int] == row@);
            lines.push(render_report_line(row.name.as_str(), width, &self.records[row.record]));
            i = i + 1;
        }
        let ghost after_rows = lines@;
        lines.push(string_of(&chars_of(rule.as_str())));
        let mut total_line: Vec<char> = Vec::new();
        push_padded_end(&mut total_line, &chars_of("Total"), width);
        push_all(&mut total_line, &chars_of(" "));
        push_padded_start(&mut total_line, &millis(total), 10);
        push_all(&mut total_line, &chars_of(" "));
        push_padded_start(&mut total_line, &Vec::new(), 34);
        push_all(&mut total_line, &chars_of(" "));
        push_padded_start(&mut total_line, &u128_decimal(peak as u128), 10);
        push_all(&mut total_line, &chars_of(" KB"));
        lines.push(string_of(&total_line));
        let mut net_line: Vec<char> = Vec::new();
        push_padded_end(&mut net_line, &Vec::new(), width);
        push_all(&mut net_line, &chars_of(" "));
        push_padded_start(&mut net_line, &Vec::new(), 36);
        push_all(&mut net_line, &chars_of(" "));
        let mut net_text = chars_of("net: ");
        push_all(&mut net_text, &plus_signed(net));
        push_padded_start(&mut net_line, &net_text, 10);
        push_all(&mut net_line, &chars_of(" KB"));
        lines.push(string_of(&net_line));
        proof {
            let n = rows@.len();
            let spec_lines = report_lines_of(self.enabled, self.records@);
            let got = lines@.map_values(|l: String| l@);
            let body = row_models.map_values(
                |r: RowModel| record_line(r.0, width as int, records[r.1]),
            );
            assert(spec_lines.len() == n + 7);
            assert forall|k: int| 0 <= k < n + 7 implies got[k] == spec_lines[k] by {
                if k < 4 {
                    assert(lines@[k] == after_rows[k]);
                }
                if 4 <= k < 4 + n {
                    let j = k - 4;
                    assert(after_rows[4 + j]@ == record_line(
                        row_models[j].0,
                        width as int,
                        records[row_models[j].1],
                    ));
                    assert(lines@[k] == after_rows[k]);
                    assert(lines@[k]@ == record_line(
                        row_models[k - 4].0,
                        width as int,
                        records[row_models[k - 4].1],
                    ));
                    assert(spec_lines[k] == body[k - 4]);
                }
            }
            assert(got =~= spec_lines);
        }
        lines
    }
}


/// The key of the resident-set line in `/proc/self/status`.
pub open spec fn rss_key() -> Seq<char> {
    seq!['V', 'm', 'R', 'S', 'S', ':']
}

/// The characters of `s` up to its first white space.
pub open spec fn leading_word(s: Seq<char>) -> Seq<char>
    decreases s.len(),
{
    if s.len() == 0 || is_white_space(s[0]) {
        Seq::empty()
    } else {
        seq![s[0]] + leading_word(s.drop_first())
    }
}

/// The first word of `s`, as `split_whitespace().next()` gives it.
pub open spec fn first_word(s: Seq<char>) -> Option<Seq<char>> {
    let t = trim_start(s);
    if t.len() == 0 {
        None
    } else {
        Some(leading_word(t))
    }
}

/// The first of `lines` that begins with the resident-set key.
pub open spec fn rss_line(lines: Seq<Seq<char>>) -> Option<Seq<char>>
    decreases lines.len(),
{
    if lines.len() == 0 {
        None
    } else if has_prefix(lines[0], rss_key()) {
        Some(lines[0])
    } else {
        rss_line(lines.drop_first())
    }
}

/// The resident set size that a status text reports, in kilobytes: the first
/// word after the key on the first line that begins with it. Lines are cut at
/// `\n`; a `\r` before it is white space and never part of the word.
pub open spec fn rss_kb_of(status: Seq<char>) -> Option<u64> {
    match rss_line(split(status, '\n')) {
        Some(line) => match first_word(line.skip(rss_key().len() as int)) {
            Some(word) => parsed_u64(word),
            None => None,
        },
        None => None,
    }
}

/// Reads the `VmRSS` figure, in kilobytes, out of the text of a process
/// status file.
pub fn rss_kb_from_status(status: &str) -> (r: Option<u64>)
    ensures
        r == rss_kb_of(status@),
{
    let text = chars_of(status);
    let lines = split_chars(&text, '\n');
    let key: Vec<char> = vec!['V', 'm', 'R', 'S', 'S', ':'];
    assert(key@ =~= rss_key());
    let ghost all = split(status@, '\n');
    let mut i: usize = 0;
    assert(all.skip(0) =~= all);
    while i < lines.len()
        invariant
            i <= lines@.len() == all.len(),
            all == split(status@, '\n'),
            key@ == rss_key(),
            forall|k: int| 0 <= k < lines@.len() ==> (#[trigger] lines@[k])@ == all[k],
            rss_line(all) == rss_line(all.skip(i as int)),
        decreases lines.len() - i,
    {
        let ghost rest = all.skip(i as int);
        assert(rest[0] == all[i as int]);
        if starts_with(&lines[i], &key) {
            let line = &lines[i];
            let n = line.len();
            assert(rss_line(all) == Some(line@));
            assert(rss_key().len() == 6);
            let ghost tail = line@.skip(6);
            let mut a: usize = 6;
            assert(line@.skip(6) =~= tail);
            while a < n && char_is_whitespace(line[a])
                invariant
                    6 <= a <= n == line@.len(),
                    trim_start(tail) == trim_start(line@.skip(a as int)),
                decreases n - a,
            {
                assert(line@.skip(a as int).drop_first() =~= line@.skip(a + 1));
                a = a + 1;
            }
            if a == n {
                assert(line@.skip(a as int) =~= Seq::<char>::empty());
                assert(first_word(tail) is None);
                return None;
            }
            let ghost from_a = line@.skip(a as int);
            assert(trim_start(tail) == from_a) by {
                assert(from_a[0] == line@[a as int]);
            }
            let mut b: usize = a;
            assert(line@.subrange(a as int, a as int) =~= Seq::<char>::empty());
            while b < n && !char_is_whitespace(line[b])
                invariant
                    a <= b <= n == line@.len(),
                    from_a == line@.skip(a as int),
                    leading_word(from_a) == line@.subrange(a as int, b as int) + leading_word(
                        line@.skip(b as int),
                    ),
                decreases n - b,
            {
                let ghost here = line@.skip(b as int);
                assert(here[0] == line@[b as int]);
                assert(here.drop_first() =~= line@.skip(b + 1));
                assert(line@.subrange(a as int, b + 1) =~= line@.subrange(a as int, b as int).push(
                    line@[b as int],
                ));
                assert(line@.subrange(a as int, b as int) + leading_word(here) =~= line@.subrange(
                    a as int,
                    b + 1,
                ) + leading_word(line@.skip(b + 1)));
                b = b + 1;
            }
            assert(leading_word(line@.skip(b as int)) =~= Seq::<char>::empty()) by {
                if b < n {
                    assert(line@.skip(b as int)[0] == line@[b as int]);
                }
            }
            assert(line@.subrange(a as int, b as int) + Seq::<char>::empty() =~= line@.subrange(
                a as int,
                b as int,
            ));
            let word = string_of(&copy_range(line, a, b));
            assert(first_word(tail) == Some(word@));
            return parse_u64(word.as_str());
        }
        assert(rest.drop_first() =~= all.skip(i + 1));
        i = i + 1;
    }
    assert(all.skip(i as int) =~= Seq::<Seq<char>>::empty());
    None
}


/// Whether profiling is on, and whether it is verbose, for the value of the
/// `RSCLIP_PROFILE` environment variable (`None` when it is unset or not
/// text): any value turns it on, and `verbose` or `2` makes it verbose.
pub fn profile_mode(value: Option<&str>) -> (r: (bool, bool))
    ensures
        r == (match value {
            Some(v) => (true, v@ == "verbose"@ || v@ == "2"@),
            None => (false, false),
        }),
{
    match value {
        Some(v) => (true, str_eq(v, "verbose") || str_eq(v, "2")),
        None => (false, false),
    }
}
} // verus!

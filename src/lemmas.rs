use vstd::prelude::*;

use crate::cells::{side_index, Cells};
use crate::parse::{
    all_matched, close_matches, has_match, is_parse_error, lemma_net_concat, net, open_matches,
    tokens, translated, Instruction, ParseError,
};
use crate::{is_jump, BrainfuckVM, RunError, Status};

verus! {

/// Brackets nest properly: no prefix closes more than it opens, and the
/// whole sequence opens as many as it closes.
pub open spec fn balanced(t: Seq<char>) -> bool {
    &&& net(t) == 0
    &&& forall|k: int| 0 <= k <= t.len() ==> net(#[trigger] t.subrange(0, k)) >= 0
}

proof fn lemma_net_extend(t: Seq<char>, i: int, k: int)
    requires
        0 <= i <= k < t.len(),
    ensures
        net(t.subrange(i, k + 1)) == net(t.subrange(i, k)) + if t[k] == '[' {
            1int
        } else if t[k] == ']' {
            -1int
        } else {
            0int
        },
{
    assert(t.subrange(i, k + 1).drop_last() =~= t.subrange(i, k));
}

proof fn lemma_net_split(t: Seq<char>, i: int, j: int)
    requires
        0 <= i <= j <= t.len(),
    ensures
        net(t.subrange(0, j)) == net(t.subrange(0, i)) + net(t.subrange(i, j)),
{
    assert(t.subrange(0, i) + t.subrange(i, j) =~= t.subrange(0, j));
    lemma_net_concat(t.subrange(0, i), t.subrange(i, j));
}

proof fn lemma_find_close(t: Seq<char>, i: int, k: int)
    requires
        balanced(t),
        0 <= i <= k < t.len(),
        t[i] == '[',
        forall|m: int| i <= m <= k ==> net(#[trigger] t.subrange(i, m + 1)) > 0,
    ensures
        exists|j: int| open_matches(t, i, j),
    decreases t.len() - k,
{
    lemma_net_split(t, i, t.len() as int);
    assert(t.subrange(0, t.len() as int) =~= t);
    if k + 1 == t.len() {
        assert(net(t.subrange(i, k + 1)) > 0);
        assert(net(t.subrange(0, i)) >= 0);
    } else {
        lemma_net_extend(t, i, k + 1);
        if net(t.subrange(i, k + 2)) == 0 {
            assert(open_matches(t, i, k + 1));
        } else {
            lemma_find_close(t, i, k + 1);
        }
    }
}

proof fn lemma_find_open(t: Seq<char>, i: int, k: int)
    requires
        balanced(t),
        0 <= k <= i < t.len(),
        t[i] == ']',
        forall|m: int| k <= m <= i ==> net(#[trigger] t.subrange(m, i + 1)) < 0,
    ensures
        exists|j: int| close_matches(t, i, j),
    decreases k,
{
    if k == 0 {
        assert(t.subrange(0, i + 1) == t.subrange(0, i + 1));
        assert(net(t.subrange(0, i + 1)) >= 0);
        assert(net(t.subrange(k, i + 1)) < 0);
    } else {
        let head = seq![t[k - 1]];
        assert(head + t.subrange(k, i + 1) =~= t.subrange(k - 1, i + 1));
        assert(head.drop_last() =~= Seq::<char>::empty());
        assert(net(head.drop_last()) == 0);
        lemma_net_concat(head, t.subrange(k, i + 1));
        if net(t.subrange(k - 1, i + 1)) == 0 {
            assert(close_matches(t, i, k - 1));
        } else {
            lemma_find_open(t, i, k - 1);
        }
    }
}

/// In a sequence whose brackets are balanced every bracket has its
/// counterpart, so no translation error can describe it.
pub proof fn lemma_balanced_matched(t: Seq<char>)
    requires
        balanced(t),
    ensures
        all_matched(t),
        forall|e: ParseError| !is_parse_error(t, e),
{
    assert forall|i: int| 0 <= i < t.len() implies has_match(t, i) by {
        let one = t.subrange(i, i + 1);
        assert(one.drop_last() =~= Seq::<char>::empty());
        assert(net(one.drop_last()) == 0);
        if t[i] == '[' {
            lemma_find_close(t, i, i);
        }
        if t[i] == ']' {
            lemma_find_open(t, i, i);
        }
    }
}

/// Translating a program whose brackets are balanced never fails, and gives
/// exactly one instruction for each character that is not a comment.
pub proof fn lemma_balanced_translates(program: Seq<char>, r: Result<Vec<Instruction>, ParseError>)
    requires
        balanced(tokens(program)),
        translated(program, r),
    ensures
        r is Ok,
        r->Ok_0@.len() == tokens(program).len(),
{
    lemma_balanced_matched(tokens(program));
}

/// Incrementing and then decrementing the cell under the pointer leaves the
/// tape as it was.
pub proof fn lemma_increment_then_decrement(a: Cells, b: Cells, c: Cells)
    requires
        a.wf(),
        a.written(b, a.current().wrapping_add(1)),
        b.written(c, b.current().wrapping_sub(1)),
    ensures
        c.ptr() == a.ptr(),
        c.pos_side() == a.pos_side(),
        c.neg_side() == a.neg_side(),
{
    assert(b.current() == a.current().wrapping_add(1));
    assert(c.pos_side() =~= a.pos_side());
    assert(c.neg_side() =~= a.neg_side());
}

/// Decrementing and then incrementing the cell under the pointer leaves the
/// tape as it was.
pub proof fn lemma_decrement_then_increment(a: Cells, b: Cells, c: Cells)
    requires
        a.wf(),
        a.written(b, a.current().wrapping_sub(1)),
        b.written(c, b.current().wrapping_add(1)),
    ensures
        c.ptr() == a.ptr(),
        c.pos_side() == a.pos_side(),
        c.neg_side() == a.neg_side(),
{
    assert(b.current() == a.current().wrapping_sub(1));
    assert(c.pos_side() =~= a.pos_side());
    assert(c.neg_side() =~= a.neg_side());
}

/// Cell arithmetic wraps at the 8-bit boundary: a cell holding 255 goes to
/// 0 when incremented, and a cell holding 0 goes to 255 when decremented.
pub proof fn lemma_cell_arithmetic_wraps(a: Cells, b: Cells, c: Cells)
    requires
        a.wf(),
        a.current() == 255,
        a.written(b, a.current().wrapping_add(1)),
        b.written(c, b.current().wrapping_sub(1)),
    ensures
        b.current() == 0,
        c.current() == 255,
{
}

/// Moving the pointer onto a position never visited, on either side, finds
/// a zero cell there.
pub proof fn lemma_new_position_reads_zero(a: Cells, b: Cells, p: int)
    requires
        a.wf(),
        a.moved_to(b, p),
        p >= 0 ==> p >= a.pos_side().len(),
        p < 0 ==> side_index(p) >= a.neg_side().len(),
    ensures
        b.current() == 0,
{
}

/// A program without jumps or breakpoints, stepped from its first
/// instruction, is done after exactly as many steps as it has instructions,
/// and not before.
pub proof fn lemma_straight_line_steps(trace: Seq<BrainfuckVM>)
    requires
        trace.len() == trace[0].program().len() + 1,
        trace[0].program().len() > 0,
        trace[0].pc_spec() == 0,
        trace[0].status_spec() != Status::Done,
        forall|i: int|
            0 <= i < trace[0].program().len() ==> !is_jump(#[trigger] trace[0].program()[i])
                && !(trace[0].program()[i] is Breakpoint),
        forall|i: int| 0 <= i < trace.len() - 1 ==> #[trigger] BrainfuckVM::steps_ok(trace, i),
    ensures
        trace.last().status_spec() == Status::Done,
        forall|i: int| 0 <= i < trace.len() - 1 ==> (#[trigger] trace[i]).status_spec() != Status::Done,
{
    let n = trace[0].program().len() as int;
    lemma_straight_line_prefix(trace, n);
}

proof fn lemma_straight_step(a: BrainfuckVM, b: BrainfuckVM)
    requires
        a.status_spec() != Status::Done,
        a.pc_spec() < a.program().len(),
        !is_jump(a.program()[a.pc_spec()]),
        !(a.program()[a.pc_spec()] is Breakpoint),
        a.stepped(b, Ok(b.status_spec())),
    ensures
        b.program() == a.program(),
        b.pc_spec() == a.pc_spec() + 1,
        b.status_spec() == (if a.pc_spec() + 1 >= a.program().len() {
            Status::Done
        } else {
            a.status_spec()
        }),
{
    reveal(BrainfuckVM::stepped);
}

proof fn lemma_straight_line_prefix(trace: Seq<BrainfuckVM>, i: int)
    requires
        trace.len() == trace[0].program().len() + 1,
        trace[0].program().len() > 0,
        trace[0].pc_spec() == 0,
        trace[0].status_spec() != Status::Done,
        forall|i: int|
            0 <= i < trace[0].program().len() ==> !is_jump(#[trigger] trace[0].program()[i])
                && !(trace[0].program()[i] is Breakpoint),
        forall|i: int| 0 <= i < trace.len() - 1 ==> #[trigger] BrainfuckVM::steps_ok(trace, i),
        0 <= i < trace.len(),
    ensures
        forall|m: int| 0 <= m <= i ==> (#[trigger] trace[m]).program() == trace[0].program(),
        forall|m: int| 0 <= m <= i ==> (#[trigger] trace[m]).pc_spec() == m,
        forall|m: int|
            0 <= m <= i && m < trace.len() - 1 ==> (#[trigger] trace[m]).status_spec()
                == trace[0].status_spec(),
        i == trace.len() - 1 ==> trace[i].status_spec() == Status::Done,
    decreases i,
{
    if i > 0 {
        lemma_straight_line_prefix(trace, i - 1);
        let a = trace[i - 1];
        assert(a.program() == trace[0].program());
        assert(a.pc_spec() == i - 1);
        assert(BrainfuckVM::steps_ok(trace, i - 1));
        assert(!is_jump(trace[0].program()[i - 1]));
        lemma_straight_step(a, trace[i]);
    }
}

/// With breakpoints enabled, a step onto a breakpoint that is not the last
/// instruction pauses the machine just after it, and leaves its tape, input
/// and output alone.
pub proof fn lemma_breakpoint_pauses(a: BrainfuckVM, b: BrainfuckVM, r: Result<Status, RunError>)
    requires
        a.wf(),
        a.status_spec() != Status::Done,
        a.pc_spec() + 1 < a.program().len(),
        a.program()[a.pc_spec()] is Breakpoint,
        a.breakpoints(),
        a.stepped(b, r),
    ensures
        r == Ok::<Status, RunError>(Status::Paused),
        b.status_spec() == Status::Paused,
        b.pc_spec() == a.pc_spec() + 1,
        b.tape() == a.tape(),
        b.input() == a.input(),
        b.out() == a.out(),
{
    reveal(BrainfuckVM::stepped);
}

/// With breakpoints disabled, a step over a breakpoint only moves on to the
/// next instruction: the machine behaves as if the breakpoint were not there.
pub proof fn lemma_disabled_breakpoint_is_skipped(
    a: BrainfuckVM,
    b: BrainfuckVM,
    r: Result<Status, RunError>,
)
    requires
        a.wf(),
        a.status_spec() != Status::Done,
        a.pc_spec() < a.program().len(),
        a.program()[a.pc_spec()] is Breakpoint,
        !a.breakpoints(),
        a.stepped(b, r),
    ensures
        r == Ok::<Status, RunError>(b.status_spec()),
        b.pc_spec() == a.pc_spec() + 1,
        b.status_spec() == (if a.pc_spec() + 1 >= a.program().len() {
            Status::Done
        } else {
            a.status_spec()
        }),
        b.tape() == a.tape(),
        b.input() == a.input(),
        b.out() == a.out(),
{
    reveal(BrainfuckVM::stepped);
}

} // verus!

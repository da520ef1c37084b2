use vstd::prelude::*;

verus! {

/// One instruction; a bracket carries the index of its counterpart.
#[derive(Debug, Clone, Copy, PartialEq, Eq, Structural)]
pub enum Instruction {
    PointerIncrement,
    PointerDecrement,
    CellIncrement,
    CellDecrement,
    CellOutput,
    CellInput,
    Open(usize),
    Close(usize),
    Breakpoint,
}

/// Why a program could not be translated: the index, among the program's
/// instructions, of the first bracket that has no counterpart.
#[derive(Debug, Clone, Copy, PartialEq, Eq, Structural)]
pub enum ParseError {
    UnmatchedOpen(usize),
    UnmatchedClose(usize),
}

/// The characters that stand for an instruction; every other character is a comment.
pub open spec fn is_instruction_char(c: char) -> bool {
    c == '>' || c == '<' || c == '+' || c == '-' || c == '.' || c == ',' || c == '['
        || c == ']' || c == '#'
}

/// The instruction characters of `s`, in order, with the comments left out.
pub open spec fn tokens(s: Seq<char>) -> Seq<char>
    decreases s.len(),
{
    if s.len() == 0 {
        Seq::empty()
    } else if is_instruction_char(s.last()) {
        tokens(s.drop_last()).push(s.last())
    } else {
        tokens(s.drop_last())
    }
}

/// How a character changes the bracket depth.
pub open spec fn bracket_delta(c: char) -> int {
    if c == '[' {
        1
    } else if c == ']' {
        -1
    } else {
        0
    }
}

/// Opening brackets minus closing brackets in `t`.
pub open spec fn net(t: Seq<char>) -> int
    decreases t.len(),
{
    if t.len() == 0 {
        0
    } else {
        net(t.drop_last()) + bracket_delta(t.last())
    }
}

/// The `[` at `i` is closed by the `]` at `j`: the depth counted from `i`
/// first returns to zero at `j`.
pub open spec fn open_matches(t: Seq<char>, i: int, j: int) -> bool {
    &&& 0 <= i < j < t.len()
    &&& t[i] == '['
    &&& net(t.subrange(i, j + 1)) == 0
    &&& forall|k: int| i <= k < j ==> net(#[trigger] t.subrange(i, k + 1)) > 0
}

/// The `]` at `i` is opened by the `[` at `j`: the depth counted backward
/// from `i` first returns to zero at `j`.
pub open spec fn close_matches(t: Seq<char>, i: int, j: int) -> bool {
    &&& 0 <= j < i < t.len()
    &&& t[i] == ']'
    &&& net(t.subrange(j, i + 1)) == 0
    &&& forall|k: int| j < k <= i ==> net(#[trigger] t.subrange(k, i + 1)) < 0
}

/// The token at `i` is no bracket, or a bracket with a counterpart.
pub open spec fn has_match(t: Seq<char>, i: int) -> bool {
    &&& t[i] == '[' ==> exists|j: int| open_matches(t, i, j)
    &&& t[i] == ']' ==> exists|j: int| close_matches(t, i, j)
}

/// Every bracket of `t` has a counterpart.
pub open spec fn all_matched(t: Seq<char>) -> bool {
    forall|i: int| 0 <= i < t.len() ==> has_match(t, i)
}

/// `ins` is the translation of the token at `i`.
pub open spec fn translates(t: Seq<char>, i: int, ins: Instruction) -> bool {
    match ins {
        Instruction::PointerIncrement => t[i] == '>',
        Instruction::PointerDecrement => t[i] == '<',
        Instruction::CellIncrement => t[i] == '+',
        Instruction::CellDecrement => t[i] == '-',
        Instruction::CellOutput => t[i] == '.',
        Instruction::CellInput => t[i] == ',',
        Instruction::Open(j) => open_matches(t, i, j as int),
        Instruction::Close(j) => close_matches(t, i, j as int),
        Instruction::Breakpoint => t[i] == '#',
    }
}

/// `p` is the translation of the whole token sequence `t`.
pub open spec fn is_translation(t: Seq<char>, p: Seq<Instruction>) -> bool {
    &&& p.len() == t.len()
    &&& forall|i: int| 0 <= i < t.len() ==> translates(t, i, #[trigger] p[i])
}

/// The bracket at `i` is the first one of `t` without a counterpart.
pub open spec fn first_unmatched(t: Seq<char>, i: int) -> bool {
    &&& 0 <= i < t.len()
    &&& !has_match(t, i)
    &&& forall|k: int| 0 <= k < i ==> has_match(t, k)
}

/// `e` names the first bracket of `t` without a counterpart.
pub open spec fn is_parse_error(t: Seq<char>, e: ParseError) -> bool {
    match e {
        ParseError::UnmatchedOpen(i) => t[i as int] == '[' && first_unmatched(t, i as int),
        ParseError::UnmatchedClose(i) => t[i as int] == ']' && first_unmatched(t, i as int),
    }
}

/// `r` is what translating `program` gives: the instructions if every
/// bracket has its counterpart, else the first bracket that has none.
pub open spec fn translated(program: Seq<char>, r: Result<Vec<Instruction>, ParseError>) -> bool {
    match r {
        Ok(v) => all_matched(tokens(program)) && is_translation(tokens(program), v@),
        Err(e) => is_parse_error(tokens(program), e),
    }
}

/// Depth is additive over concatenation.
pub proof fn lemma_net_concat(a: Seq<char>, b: Seq<char>)
    ensures
        net(a + b) == net(a) + net(b),
    decreases b.len(),
{
    if b.len() == 0 {
        assert(a + b =~= a);
    } else {
        assert((a + b).drop_last() =~= a + b.drop_last());
        lemma_net_concat(a, b.drop_last());
    }
}

fn token_chars(program: &str) -> (r: Vec<char>)
    ensures
        r@ == tokens(program@),
{
    let n = program.unicode_len();
    let mut r: Vec<char> = Vec::new();
    let mut i: usize = 0;
    while i < n
        invariant
            n == program@.len(),
            i <= n,
            r@ == tokens(program@.subrange(0, i as int)),
        decreases n - i,
    {
        let c = program.get_char(i);
        assert(program@.subrange(0, i + 1).drop_last() =~= program@.subrange(0, i as int));
        if c == '>' || c == '<' || c == '+' || c == '-' || c == '.' || c == ',' || c == '['
            || c == ']' || c == '#' {
            r.push(c);
        }
        i += 1;
    }
    assert(program@.subrange(0, n as int) =~= program@);
    r
}

/// Finds the `]` that closes the `[` at `i`.
fn find_close(t: &Vec<char>, i: usize) -> (r: Option<usize>)
    requires
        i < t@.len(),
        t@[i as int] == '[',
    ensures
        match r {
            Some(j) => open_matches(t@, i as int, j as int),
            None => !exists|j: int| open_matches(t@, i as int, j),
        },
{
    let n = t.len();
    let mut close: usize = i;
    let mut opened: usize = 1;
    proof {
        let one = t@.subrange(i as int, i + 1);
        assert(one.drop_last() =~= Seq::<char>::empty());
        assert(net(one.drop_last()) == 0);
        assert(one.last() == t@[i as int]);
    }
    while opened != 0
        invariant
            n == t@.len(),
            i <= close < n,
            t@[i as int] == '[',
            opened as int == net(t@.subrange(i as int, close + 1)),
            opened <= close - i + 1,
            forall|k: int| i <= k < close ==> net(#[trigger] t@.subrange(i as int, k + 1)) > 0,
        decreases n - close,
    {
        if close + 1 >= n {
            assert forall|j: int| !open_matches(t@, i as int, j) by {
                if open_matches(t@, i as int, j) && j != close {
                    assert(i <= j < close);
                }
            }
            return None;
        }
        close += 1;
        assert(t@.subrange(i as int, close + 1).drop_last() =~= t@.subrange(
            i as int,
            close as int,
        ));
        if t[close] == '[' {
            opened += 1;
        } else if t[close] == ']' {
            opened -= 1;
        }
    }
    Some(close)
}

/// Finds the `[` that opens the `]` at `i`.
fn find_open(t: &Vec<char>, i: usize) -> (r: Option<usize>)
    requires
        i < t@.len(),
        t@[i as int] == ']',
    ensures
        match r {
            Some(j) => close_matches(t@, i as int, j as int),
            None => !exists|j: int| close_matches(t@, i as int, j),
        },
{
    let n = t.len();
    let mut open: usize = i;
    let mut closed: usize = 1;
    proof {
        let one = t@.subrange(i as int, i + 1);
        assert(one.drop_last() =~= Seq::<char>::empty());
        assert(net(one.drop_last()) == 0);
        assert(one.last() == t@[i as int]);
    }
    while closed != 0
        invariant
            n == t@.len(),
            open <= i < n,
            t@[i as int] == ']',
            closed as int == -net(t@.subrange(open as int, i + 1)),
            closed <= i - open + 1,
            forall|k: int| open < k <= i ==> net(#[trigger] t@.subrange(k, i + 1)) < 0,
        decreases open,
    {
        if open == 0 {
            assert forall|j: int| !close_matches(t@, i as int, j) by {
                if close_matches(t@, i as int, j) && j != open {
                    assert(open < j <= i);
                }
            }
            return None;
        }
        open -= 1;
        proof {
            let head = seq![t@[open as int]];
            let rest = t@.subrange(open + 1, i + 1);
            assert(head + rest =~= t@.subrange(open as int, i + 1));
            assert(head.drop_last() =~= Seq::<char>::empty());
            assert(net(head.drop_last()) == 0);
            lemma_net_concat(head, rest);
        }
        if t[open] == ']' {
            closed += 1;
        } else if t[open] == '[' {
            closed -= 1;
        }
    }
    Some(open)
}

/// Translates program text into instructions, resolving the target of each bracket.
pub fn parse_program(program: &str) -> (r: Result<Vec<Instruction>, ParseError>)
    ensures
        translated(program@, r),
{
    let t = token_chars(program);
    let n = t.len();
    let mut v: Vec<Instruction> = Vec::new();
    let mut i: usize = 0;
    while i < n
        invariant
            n == t@.len(),
            t@ == tokens(program@),
            i <= n,
            v@.len() == i,
            forall|k: int| 0 <= k < i ==> translates(t@, k, #[trigger] v@[k]),
            forall|k: int| 0 <= k < i ==> #[trigger] has_match(t@, k),
        decreases n - i,
    {
        let c = t[i];
        proof {
            lemma_token_is_instruction_char(program@, i as int);
        }
        let ins = if c == '>' {
            Instruction::PointerIncrement
        } else if c == '<' {
            Instruction::PointerDecrement
        } else if c == '+' {
            Instruction::CellIncrement
        } else if c == '-' {
            Instruction::CellDecrement
        } else if c == '.' {
            Instruction::CellOutput
        } else if c == ',' {
            Instruction::CellInput
        } else if c == '#' {
            Instruction::Breakpoint
        } else if c == '[' {
            match find_close(&t, i) {
                Some(j) => Instruction::Open(j),
                None => {
                    return Err(ParseError::UnmatchedOpen(i));
                },
            }
        } else {
            match find_open(&t, i) {
                Some(j) => Instruction::Close(j),
                None => {
                    return Err(ParseError::UnmatchedClose(i));
                },
            }
        };
        assert(has_match(t@, i as int));
        v.push(ins);
        i += 1;
    }
    Ok(v)
}

/// Every token is an instruction character.
pub proof fn lemma_token_is_instruction_char(s: Seq<char>, i: int)
    requires
        0 <= i < tokens(s).len(),
    ensures
        is_instruction_char(tokens(s)[i]),
    decreases s.len(),
{
    if s.len() > 0 {
        if is_instruction_char(s.last()) && i == tokens(s.drop_last()).len() {
        } else {
            lemma_token_is_instruction_char(s.drop_last(), i);
        }
    }
}

} // verus!

//! Static analysis of a program: the bracket check that runs once before
//! execution.

use crate::error::Error;
use vstd::prelude::*;

verus! {

/// What one character adds to the nesting depth.
pub open spec fn bracket_delta(c: char) -> int {
    if c == '[' {
        1
    } else if c == ']' {
        -1
    } else {
        0
    }
}

/// The nesting depth after the first `n` characters of `prog`: the number of
/// `[` among them minus the number of `]`.
pub open spec fn depth(prog: Seq<char>, n: int) -> int
    decreases n,
{
    if n <= 0 {
        0
    } else {
        depth(prog, n - 1) + bracket_delta(prog[n - 1])
    }
}

/// No `]` stands where no `[` is open: the depth never falls below zero.
pub open spec fn never_negative(prog: Seq<char>) -> bool {
    forall|n: int| 0 <= n <= prog.len() ==> depth(prog, n) >= 0
}

/// The brackets of `prog` are properly nested and fully matched.
pub open spec fn balanced(prog: Seq<char>) -> bool {
    never_negative(prog) && depth(prog, prog.len() as int) == 0
}

/// `text` is properly nested and fully matched, by the grammar of nesting:
/// it is empty; or it is a character that is no bracket, and nested text; or
/// it is a `[`, nested text, a `]`, and nested text.
pub open spec fn nested(text: Seq<char>) -> bool
    decreases text.len(),
{
    if text.len() == 0 {
        true
    } else if text[0] == '[' {
        exists|k: int|
            0 < k < text.len() && text[k] == ']' && nested(#[trigger] text.subrange(1, k))
                && nested(text.subrange(k + 1, text.len() as int))
    } else if text[0] == ']' {
        false
    } else {
        nested(text.drop_first())
    }
}

/// The verdict of the bracket check on `prog`.
pub open spec fn validate(prog: Seq<char>) -> Result<(), Error> {
    if !never_negative(prog) {
        Err(Error::MissingLeftBracket)
    } else if depth(prog, prog.len() as int) > 0 {
        Err(Error::MissingRightBracket)
    } else {
        Ok(())
    }
}

/// The `]` at `close` closes the `[` at `open`: it is the first place after
/// `open` where the nesting depth is back to what it was before `open`.
pub open spec fn closes(prog: Seq<char>, open: int, close: int) -> bool {
    &&& 0 <= open < close < prog.len()
    &&& prog[open] == '['
    &&& depth(prog, close + 1) == depth(prog, open)
    &&& forall|k: int| open < k <= close ==> depth(prog, k) > depth(prog, open)
}

/// Runs every static check on the program.
pub fn all(prog: &[char]) -> (r: Result<(), Error>)
    ensures
        r == validate(prog@),
        r is Ok <==> nested(prog@),
{
    brackets(prog)
}

/// Checks the program for mismatched brackets in one pass from left to
/// right, counting the brackets that are open.
pub fn brackets(prog: &[char]) -> (r: Result<(), Error>)
    ensures
        r == validate(prog@),
        r is Ok <==> nested(prog@),
{
    proof {
        law_balanced_iff_nested(prog@);
    }
    let mut acc: usize = 0;
    let mut i: usize = 0;
    while i < prog.len()
        invariant
            i <= prog.len(),
            acc == depth(prog@, i as int),
            acc <= i,
            forall|n: int| 0 <= n <= i ==> depth(prog@, n) >= 0,
            balanced(prog@) <==> nested(prog@),
        decreases prog.len() - i,
    {
        let c = prog[i];
        if c == '[' {
            acc += 1;
        } else if c == ']' {
            if acc == 0 {
                assert(depth(prog@, i + 1) < 0);
                return Err(Error::MissingLeftBracket);
            } else {
                acc -= 1;
            }
        }
        i += 1;
    }
    if acc != 0 {
        return Err(Error::MissingRightBracket);
    }
    Ok(())
}

/// Validation succeeds exactly on the balanced programs, and each fault
/// names the first way in which a program fails to be balanced.
pub proof fn law_validate_faults(prog: Seq<char>)
    ensures
        validate(prog) is Ok <==> balanced(prog),
        validate(prog) == Err::<(), Error>(Error::MissingLeftBracket) <==> !never_negative(prog),
        validate(prog) == Err::<(), Error>(Error::MissingRightBracket) <==> never_negative(prog)
            && depth(prog, prog.len() as int) > 0,
        !(validate(prog) == Err::<(), Error>(Error::EndOfInput)),
{
}

/// The count of brackets and the grammar of nesting say the same: the
/// depth never falls below zero and ends at zero exactly where the brackets
/// are properly nested and fully matched.
pub proof fn law_balanced_iff_nested(text: Seq<char>)
    ensures
        balanced(text) <==> nested(text),
        validate(text) is Ok <==> nested(text),
{
    if balanced(text) {
        lemma_balanced_is_nested(text);
    }
    if nested(text) {
        lemma_nested_is_balanced(text);
    }
}

/// In a balanced program every `[` has a `]` that closes it.
pub proof fn law_every_loop_closes(prog: Seq<char>, open: int)
    requires
        balanced(prog),
        0 <= open < prog.len(),
        prog[open] == '[',
    ensures
        exists|close: int| closes(prog, open, close),
{
    assert(depth(prog, open + 1) == depth(prog, open) + bracket_delta(prog[open]));
    let close = lemma_search_close(prog, open, open + 1);
    assert(closes(prog, open, close));
}

/// The depth after `n` characters is at most `n`.
pub proof fn lemma_depth_bounds(prog: Seq<char>, n: int)
    requires
        0 <= n,
    ensures
        -n <= depth(prog, n) <= n,
    decreases n,
{
    if n > 0 {
        lemma_depth_bounds(prog, n - 1);
    }
}

/// The depth inside a piece of a program is the depth in the program, less
/// the depth at which the piece begins.
pub proof fn lemma_depth_subrange(prog: Seq<char>, from: int, to: int, n: int)
    requires
        0 <= from,
        0 <= n,
        from + n <= to <= prog.len(),
    ensures
        depth(prog.subrange(from, to), n) == depth(prog, from + n) - depth(prog, from),
    decreases n,
{
    if n > 0 {
        lemma_depth_subrange(prog, from, to, n - 1);
    }
}

/// The bracket that closes a `[` is a `]`.
pub proof fn lemma_closing_bracket(prog: Seq<char>, open: int, close: int)
    requires
        closes(prog, open, close),
    ensures
        prog[close] == ']',
{
    assert(depth(prog, close + 1) == depth(prog, close) + bracket_delta(prog[close]));
}

/// Searches for the closing bracket from `k` on, where the depth has stayed
/// above the depth at `open` so far.
proof fn lemma_search_close(prog: Seq<char>, open: int, k: int) -> (close: int)
    requires
        balanced(prog),
        0 <= open < k <= prog.len(),
        prog[open] == '[',
        forall|j: int| open < j <= k ==> depth(prog, j) > depth(prog, open),
    ensures
        closes(prog, open, close),
    decreases prog.len() - k,
{
    assert(depth(prog, open) >= 0);
    assert(depth(prog, k) > depth(prog, open));
    assert(k < prog.len());
    assert(depth(prog, k + 1) == depth(prog, k) + bracket_delta(prog[k]));
    if depth(prog, k + 1) == depth(prog, open) {
        k
    } else {
        lemma_search_close(prog, open, k + 1)
    }
}

/// Text that is nested by the grammar is balanced by the count.
pub proof fn lemma_nested_is_balanced(text: Seq<char>)
    requires
        nested(text),
    ensures
        balanced(text),
    decreases text.len(),
{
    let len = text.len() as int;
    if len > 0 {
        assert(depth(text, 1) == depth(text, 0) + bracket_delta(text[0]));
        if text[0] == '[' {
            let k = choose|k: int|
                0 < k < text.len() && text[k] == ']' && nested(#[trigger] text.subrange(1, k))
                    && nested(text.subrange(k + 1, text.len() as int));
            let body = text.subrange(1, k);
            let rest = text.subrange(k + 1, len);
            lemma_nested_is_balanced(body);
            lemma_nested_is_balanced(rest);
            lemma_depth_subrange(text, 1, k, k - 1);
            assert(depth(text, k + 1) == depth(text, k) + bracket_delta(text[k]));
            assert forall|n: int| 0 <= n <= len implies depth(text, n) >= 0 by {
                if 1 <= n <= k {
                    lemma_depth_subrange(text, 1, k, n - 1);
                    assert(depth(body, n - 1) >= 0);
                } else if n > k {
                    lemma_depth_subrange(text, k + 1, len, n - k - 1);
                    assert(depth(rest, n - k - 1) >= 0);
                }
            }
            lemma_depth_subrange(text, k + 1, len, len - k - 1);
        } else {
            let rest = text.drop_first();
            assert(rest =~= text.subrange(1, len));
            lemma_nested_is_balanced(rest);
            assert forall|n: int| 0 <= n <= len implies depth(text, n) >= 0 by {
                if n >= 1 {
                    lemma_depth_subrange(text, 1, len, n - 1);
                    assert(depth(rest, n - 1) >= 0);
                }
            }
            lemma_depth_subrange(text, 1, len, len - 1);
        }
    }
}

/// Text that is balanced by the count is nested by the grammar.
pub proof fn lemma_balanced_is_nested(text: Seq<char>)
    requires
        balanced(text),
    ensures
        nested(text),
    decreases text.len(),
{
    let len = text.len() as int;
    if len > 0 {
        assert(depth(text, 1) == depth(text, 0) + bracket_delta(text[0]));
        assert(depth(text, 1) >= 0);
        if text[0] == '[' {
            law_every_loop_closes(text, 0);
            let k = choose|k: int| closes(text, 0, k);
            lemma_closing_bracket(text, 0, k);
            assert(depth(text, k + 1) == depth(text, k) + bracket_delta(text[k]));
            let body = text.subrange(1, k);
            let rest = text.subrange(k + 1, len);
            assert forall|n: int| 0 <= n <= body.len() implies depth(body, n) >= 0 by {
                lemma_depth_subrange(text, 1, k, n);
            }
            lemma_depth_subrange(text, 1, k, k - 1);
            assert(balanced(body));
            assert forall|n: int| 0 <= n <= rest.len() implies depth(rest, n) >= 0 by {
                lemma_depth_subrange(text, k + 1, len, n);
            }
            lemma_depth_subrange(text, k + 1, len, len - k - 1);
            assert(balanced(rest));
            lemma_balanced_is_nested(body);
            lemma_balanced_is_nested(rest);
            assert(nested(text.subrange(1, k)) && nested(text.subrange(k + 1, len)));
        } else {
            let rest = text.drop_first();
            assert(rest =~= text.subrange(1, len));
            assert forall|n: int| 0 <= n <= rest.len() implies depth(rest, n) >= 0 by {
                lemma_depth_subrange(text, 1, len, n);
            }
            lemma_depth_subrange(text, 1, len, len - 1);
            lemma_balanced_is_nested(rest);
        }
    }
}

} // verus!

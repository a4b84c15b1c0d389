//! Preprocessing of source text: the tokenizer that drops every comment
//! character, and the entry point that also validates what is left.

use crate::analyze::{all, nested, validate};
use crate::error::Error;
use crate::ops::{decode, is_op, Op};
use vstd::prelude::*;

verus! {

/// The instruction characters of `text`, in their order. Every other
/// character is a comment.
pub open spec fn instructions(text: Seq<char>) -> Seq<char> {
    text.filter(|c: char| is_op(c))
}

/// The operations that `text` holds, in their order.
pub open spec fn operations(text: Seq<char>) -> Seq<Op> {
    instructions(text).map_values(|c: char| decode(c).unwrap())
}

/// One more character of text adds itself to the instructions if it is
/// one, and nothing otherwise.
pub proof fn lemma_instructions_push(text: Seq<char>, c: char)
    ensures
        instructions(text.push(c)) == if is_op(c) {
            instructions(text).push(c)
        } else {
            instructions(text)
        },
{
    reveal(Seq::filter);
    assert(text.push(c).drop_last() =~= text);
}

/// Text without any character has no instructions.
pub proof fn lemma_instructions_empty()
    ensures
        instructions(Seq::<char>::empty()) == Seq::<char>::empty(),
{
    reveal(Seq::filter);
}

/// Every character that the tokenizer keeps is an instruction.
pub proof fn lemma_instructions_are_ops(text: Seq<char>)
    ensures
        forall|i: int| 0 <= i < instructions(text).len() ==> is_op(#[trigger] instructions(text)[i]),
{
    let pred = |c: char| is_op(c);
    assert forall|i: int| 0 <= i < instructions(text).len() implies is_op(
        #[trigger] instructions(text)[i],
    ) by {
        text.lemma_filter_pred(pred, i);
    }
}

/// Keeps the instruction characters of `prog` and drops the rest.
pub fn strip_comments(prog: &str) -> (res: Vec<char>)
    ensures
        res@ == instructions(prog@),
{
    let mut res: Vec<char> = Vec::new();
    proof {
        lemma_instructions_empty();
    }
    for c in it: prog.chars()
        invariant
            it.seq() == prog@,
            res@ == instructions(prog@.take(it.index() as int)),
    {
        proof {
            lemma_instructions_push(prog@.take(it.index() as int), c);
            assert(prog@.take(it.index() + 1) =~= prog@.take(it.index() as int).push(c));
        }
        if Op::from_char(c).is_some() {
            res.push(c);
        }
    }
    proof {
        assert(prog@.take(prog@.len() as int) =~= prog@);
    }
    res
}

/// Turns the source text into the operations it holds.
pub fn tokenize(prog: &str) -> (res: Vec<Op>)
    ensures
        res@ == operations(prog@),
{
    let chars = strip_comments(prog);
    let mut res: Vec<Op> = Vec::new();
    proof {
        lemma_instructions_are_ops(prog@);
    }
    let mut i: usize = 0;
    while i < chars.len()
        invariant
            i <= chars.len(),
            chars@ == instructions(prog@),
            forall|k: int| 0 <= k < chars@.len() ==> is_op(#[trigger] chars@[k]),
            res@.len() == i,
            forall|k: int| 0 <= k < i ==> decode(chars@[k]) == Some(#[trigger] res@[k]),
        decreases chars.len() - i,
    {
        match Op::from_char(chars[i]) {
            Some(op) => {
                res.push(op);
            },
            None => {
                assert(is_op(chars@[i as int]));
            },
        }
        i += 1;
    }
    assert(res@ =~= operations(prog@));
    res
}

/// Turns the given program into its instruction characters and checks them:
/// every comment character is dropped, and a program whose brackets do not
/// match is refused.
pub fn process(prog: &str) -> (r: Result<Vec<char>, Error>)
    ensures
        match validate(instructions(prog@)) {
            Ok(()) => r matches Ok(chars) && chars@ == instructions(prog@),
            Err(e) => r matches Err(f) && f == e,
        },
        r is Ok <==> nested(instructions(prog@)),
{
    let res = strip_comments(prog);
    match all(res.as_slice()) {
        Ok(()) => Ok(res),
        Err(e) => Err(e),
    }
}

} // verus!

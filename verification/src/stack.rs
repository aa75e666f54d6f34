//! The operand stack and the local slots shared by both interpreters.

use vstd::prelude::*;
use crate::word::ZERO_WORD;

verus! {

/// Pops a stack: its top and the rest; an empty stack gives the zero word and stays empty.
pub open spec fn pop(s: Seq<u64>) -> (u64, Seq<u64>) {
    if s.len() > 0 {
        (s.last(), s.drop_last())
    } else {
        (ZERO_WORD, s)
    }
}

/// The value a pop would give.
pub open spec fn top(s: Seq<u64>) -> u64 {
    pop(s).0
}

/// The value a second pop would give.
pub open spec fn second(s: Seq<u64>) -> u64 {
    pop(pop(s).1).0
}

/// The stack after two pops.
pub open spec fn pop2(s: Seq<u64>) -> Seq<u64> {
    pop(pop(s).1).1
}

/// Local `i`, or the zero word where there is none.
pub open spec fn local_or_zero(locals: Seq<u64>, i: int) -> u64 {
    if 0 <= i < locals.len() {
        locals[i]
    } else {
        ZERO_WORD
    }
}

/// The locals after storing `v` in slot `i`, growing them with zero words to reach it.
pub open spec fn store_local(locals: Seq<u64>, i: int, v: u64) -> Seq<u64> {
    let grown = if i >= locals.len() {
        locals + Seq::new((i + 1 - locals.len()) as nat, |_k: int| ZERO_WORD)
    } else {
        locals
    };
    grown.update(i, v)
}

pub fn pop_word(stack: &mut Vec<u64>) -> (v: u64)
    ensures
        (v, final(stack)@) == pop(old(stack)@),
{
    match stack.pop() {
        Some(v) => v,
        None => ZERO_WORD,
    }
}

pub fn peek_top(stack: &Vec<u64>) -> (v: u64)
    ensures
        v == top(stack@),
{
    let n = stack.len();
    if n > 0 {
        stack[n - 1]
    } else {
        ZERO_WORD
    }
}

pub fn peek_second(stack: &Vec<u64>) -> (v: u64)
    ensures
        v == second(stack@),
{
    let n = stack.len();
    if n > 1 {
        stack[n - 2]
    } else {
        ZERO_WORD
    }
}

pub fn load_local(locals: &Vec<u64>, i: usize) -> (v: u64)
    ensures
        v == local_or_zero(locals@, i as int),
{
    if i < locals.len() {
        locals[i]
    } else {
        ZERO_WORD
    }
}

pub fn store_word(locals: &mut Vec<u64>, i: usize, v: u64)
    requires
        i < usize::MAX,
    ensures
        final(locals)@ == store_local(old(locals)@, i as int, v),
{
    if i >= locals.len() {
        locals.resize(i + 1, ZERO_WORD);
    }
    locals.set(i, v);
    proof {
        let old_locals = old(locals)@;
        let grown = if i >= old_locals.len() {
            old_locals + Seq::new((i + 1 - old_locals.len()) as nat, |_k: int| ZERO_WORD)
        } else {
            old_locals
        };
        assert(locals@ =~= grown.update(i as int, v));
    }
}

} // verus!

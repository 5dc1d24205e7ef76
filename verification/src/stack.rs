//! The bounded call stack of return addresses.

use vstd::prelude::*;

verus! {

/// How many return addresses the call stack can hold.
pub const STACK_DEPTH: usize = 16;

/// Why a stack operation was refused.
#[derive(Clone, Copy, Debug, PartialEq, Eq, Structural)]
pub enum StackError {
    /// A push was attempted on a stack that already holds `STACK_DEPTH` addresses.
    Overflow,
    /// A pop was attempted on an empty stack.
    Underflow,
}

/// What a push makes of the stack `s`: `value` on top of it, or an overflow
/// and no change when the stack is full.
pub open spec fn push_spec(s: Seq<u16>, value: u16) -> (Seq<u16>, Result<(), StackError>) {
    if s.len() < STACK_DEPTH {
        (s.push(value), Ok(()))
    } else {
        (s, Err(StackError::Overflow))
    }
}

/// What a pop makes of the stack `s`: the stack without its top and the top,
/// or an underflow and no change when the stack is empty.
pub open spec fn pop_spec(s: Seq<u16>) -> (Seq<u16>, Result<u16, StackError>) {
    if s.len() > 0 {
        (s.drop_last(), Ok(s.last()))
    } else {
        (s, Err(StackError::Underflow))
    }
}

/// The stack after the values of `values` were pushed on `s` one after the
/// other, and whether every push succeeded.
pub open spec fn push_all(s: Seq<u16>, values: Seq<u16>) -> (Seq<u16>, bool)
    decreases values.len(),
{
    if values.len() == 0 {
        (s, true)
    } else {
        let (before, ok) = push_all(s, values.drop_last());
        let (after, pushed) = push_spec(before, values.last());
        (after, ok && pushed is Ok)
    }
}

/// The stack after `count` pops from `s`, the values that came out in the
/// order in which they came, and whether every pop succeeded.
pub open spec fn pop_many(s: Seq<u16>, count: nat) -> (Seq<u16>, Seq<u16>, bool)
    decreases count,
{
    if count == 0 {
        (s, Seq::empty(), true)
    } else {
        let (before, popped, ok) = pop_many(s, (count - 1) as nat);
        match pop_spec(before) {
            (after, Ok(value)) => (after, popped.push(value), ok),
            (after, Err(_)) => (after, popped, false),
        }
    }
}

/// Pushing `values` on a stack with room for them puts them on top of it.
proof fn lemma_push_all(s: Seq<u16>, values: Seq<u16>)
    requires
        s.len() + values.len() <= STACK_DEPTH,
    ensures
        push_all(s, values) == (s + values, true),
    decreases values.len(),
{
    if values.len() > 0 {
        lemma_push_all(s, values.drop_last());
        assert((s + values.drop_last()).push(values.last()) =~= s + values);
    } else {
        assert(s + values =~= s);
    }
}

/// Popping `count` values brings back the last `count` values, last first.
proof fn lemma_pop_many(s: Seq<u16>, count: nat)
    requires
        count <= s.len(),
    ensures
        pop_many(s, count) == (
            s.subrange(0, s.len() - count),
            s.subrange(s.len() - count, s.len() as int).reverse(),
            true,
        ),
    decreases count,
{
    if count > 0 {
        lemma_pop_many(s, (count - 1) as nat);
        let before = s.subrange(0, s.len() - count + 1);
        assert(before.drop_last() =~= s.subrange(0, s.len() - count));
        assert(s.subrange(s.len() - count + 1, s.len() as int).reverse().push(before.last())
            =~= s.subrange(s.len() - count, s.len() as int).reverse());
    } else {
        assert(s.subrange(0, s.len() as int) =~= s);
        assert(s.subrange(s.len() as int, s.len() as int).reverse() =~= Seq::<u16>::empty());
    }
}

/// Last in, first out: values pushed on a stack that has room for them come
/// back in the reverse order of their pushes, every push and pop succeeds,
/// and the stack is then what it was before.
pub proof fn law_lifo(s: Seq<u16>, values: Seq<u16>)
    requires
        s.len() + values.len() <= STACK_DEPTH,
    ensures
        push_all(s, values) == (s + values, true),
        pop_many(s + values, values.len()) == (s, values.reverse(), true),
{
    lemma_push_all(s, values);
    lemma_pop_many(s + values, values.len());
    assert((s + values).subrange(0, s.len() as int) =~= s);
    assert((s + values).subrange(s.len() as int, (s + values).len() as int) =~= values);
}

/// The 16-level call stack.
///
/// Its view is the sequence of addresses currently held, oldest first.
#[derive(Debug)]
pub struct Stack {
    /// Slots for the return addresses; only those below the pointer are live.
    memory: [u16; 16],
    /// Index of the next free slot.
    stack_pointer: u8,
}

impl View for Stack {
    type V = Seq<u16>;

    closed spec fn view(&self) -> Seq<u16> {
        self.memory@.subrange(0, vstd::math::min(self.stack_pointer as int, STACK_DEPTH as int))
    }
}

impl Default for Stack {
    fn default() -> (s: Self)
        ensures
            s@ == Seq::<u16>::empty(),
    {
        Self::new()
    }
}

impl Stack {
    /// The pointer never leaves the sixteen slots.
    #[verifier::type_invariant]
    spec fn inv(&self) -> bool {
        self.stack_pointer <= STACK_DEPTH
    }

    /// The stack never holds more than `STACK_DEPTH` addresses.
    pub proof fn lemma_bounded(&self)
        ensures
            self@.len() <= STACK_DEPTH,
    {
    }

    /// Constructs an empty stack.
    pub fn new() -> (s: Self)
        ensures
            s@ == Seq::<u16>::empty(),
    {
        Self { memory: [0; 16], stack_pointer: 0 }
    }

    /// The number of addresses currently held.
    pub fn depth(&self) -> (n: usize)
        ensures
            n == self@.len(),
            n <= STACK_DEPTH,
    {
        proof {
            use_type_invariant(self);
        }
        self.stack_pointer as usize
    }

    /// Pushes `value` on top of the stack, or reports an overflow and leaves
    /// the stack as it was when all sixteen slots are taken.
    pub fn push(&mut self, value: u16) -> (r: Result<(), StackError>)
        ensures
            (final(self)@, r) == push_spec(old(self)@, value),
    {
        proof {
            use_type_invariant(&*self);
        }
        if self.stack_pointer >= 16 {
            return Err(StackError::Overflow);
        }
        self.memory[self.stack_pointer as usize] = value;
        self.stack_pointer += 1;
        Ok(())
    }

    /// Pops the most recently pushed address, or reports an underflow when
    /// the stack is empty.
    pub fn pop(&mut self) -> (r: Result<u16, StackError>)
        ensures
            (final(self)@, r) == pop_spec(old(self)@),
    {
        proof {
            use_type_invariant(&*self);
        }
        if self.stack_pointer == 0 {
            return Err(StackError::Underflow);
        }
        self.stack_pointer -= 1;
        Ok(self.memory[self.stack_pointer as usize])
    }
}

} // verus!

use vstd::prelude::*;
use crate::cursor::Cursor;

verus! {

/// A cursor that carries a state beside its position.
pub trait StatefulIterator: Cursor {
    type State;

    /// The state can be reached: the functions that lead to it can be
    /// called.
    spec fn reachable(&self) -> bool;

    /// The cursor carries `state`: that is what `get_state` may hand out.
    spec fn holds(&self, state: Self::State) -> bool;

    /// The state that the cursor carries, to read and to change. Whatever
    /// is done to it, the tokens ahead stay the same.
    fn get_state(&mut self) -> (state: &mut Self::State)
        requires
            old(self).reachable(),
        ensures
            old(self).holds(*state),
            final(self).remaining() == old(self).remaining(),
            final(self).reachable(),
    ;
}

/// The cursor `iter` with the state `state` attached.
#[derive(Clone)]
pub struct WithState<I, S> {
    pub iter: I,
    pub state: S,
}

impl<I, S> WithState<I, S> {
    pub fn new(iter: I, state: S) -> (made: WithState<I, S>)
        ensures
            made.iter == iter,
            made.state == state,
    {
        WithState { iter, state }
    }
}

impl<I, S> Cursor for WithState<I, S> where I: Cursor, S: Copy {
    type Token = I::Token;

    open spec fn remaining(&self) -> Seq<I::Token> {
        self.iter.remaining()
    }

    fn snapshot(&self) -> (copy: Self) {
        WithState { iter: self.iter.snapshot(), state: self.state }
    }

    fn next(&mut self) -> (token: Option<I::Token>)
        ensures
            final(self).state == old(self).state,
    {
        self.iter.next()
    }
}

impl<I, S> StatefulIterator for WithState<I, S> where I: Cursor, S: Copy {
    type State = S;

    open spec fn reachable(&self) -> bool {
        true
    }

    open spec fn holds(&self, state: S) -> bool {
        state == self.state
    }

    fn get_state(&mut self) -> (state: &mut S)
        ensures
            *state == old(self).state,
            final(self).iter == old(self).iter,
            final(self).state == *final(state),
    {
        &mut self.state
    }
}

/// The cursor `iter`, whose state is seen through `lense`: a narrower state
/// for a parser that needs no more.
#[derive(Clone)]
pub struct SubState<I, F> {
    pub iter: I,
    pub lense: F,
}

impl<I, F> SubState<I, F> {
    pub fn new(iter: I, lense: F) -> (made: SubState<I, F>)
        ensures
            made.iter == iter,
            made.lense == lense,
    {
        SubState { iter, lense }
    }

    /// The cursor underneath, where the narrowed cursor has left it.
    pub fn inner(self) -> (iter: I)
        ensures
            iter == self.iter,
    {
        self.iter
    }
}

impl<I, F> Cursor for SubState<I, F> where I: Cursor, F: Copy {
    type Token = I::Token;

    open spec fn remaining(&self) -> Seq<I::Token> {
        self.iter.remaining()
    }

    fn snapshot(&self) -> (copy: Self) {
        SubState { iter: self.iter.snapshot(), lense: self.lense }
    }

    fn next(&mut self) -> (token: Option<I::Token>)
        ensures
            final(self).lense == old(self).lense,
    {
        self.iter.next()
    }
}

impl<I, F, S> StatefulIterator for SubState<I, F> where
    I: StatefulIterator,
    F: Copy + for <'s>Fn(&'s mut I::State) -> &'s mut S,
 {
    type State = S;

    open spec fn reachable(&self) -> bool {
        &&& self.iter.reachable()
        &&& forall|outer: &mut I::State| call_requires(self.lense, (outer,))
    }

    /// `state` is what `lense` finds in a state that the cursor underneath
    /// carries.
    open spec fn holds(&self, state: S) -> bool {
        exists|outer: &mut I::State, inner: &mut S|
            {
                &&& self.iter.holds(*outer)
                &&& #[trigger] call_ensures(self.lense, (outer,), inner)
                &&& *inner == state
            }
    }

    /// The state that `lense` finds in the state of the cursor underneath.
    /// The lens itself stays, and so do the tokens ahead.
    fn get_state(&mut self) -> (state: &mut S)
        ensures
            exists|outer: &mut I::State|
                {
                    &&& old(self).iter.holds(*outer)
                    &&& #[trigger] call_ensures(old(self).lense, (outer,), state)
                },
            final(self).lense == old(self).lense,
    {
        (self.lense)(self.iter.get_state())
    }
}

/// What it takes to reach the state of a narrowed cursor, and what that
/// state is, spelled out for a caller that holds a lens of a type of its
/// own.
pub proof fn lemma_narrowed<I, F, S>(narrow: &SubState<I, F>, state: S) where
    I: StatefulIterator,
    F: Copy + for <'s>Fn(&'s mut I::State) -> &'s mut S,

    ensures
        narrow.reachable() <==> {
            &&& narrow.iter.reachable()
            &&& forall|outer: &mut I::State| call_requires(narrow.lense, (outer,))
        },
        narrow.holds(state) <==> exists|outer: &mut I::State, inner: &mut S|
            {
                &&& narrow.iter.holds(*outer)
                &&& #[trigger] call_ensures(narrow.lense, (outer,), inner)
                &&& *inner == state
            },
{
}

} // verus!

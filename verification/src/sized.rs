use vstd::prelude::*;
use crate::combinators::{
    AbsorbErr, AndCompose, AndThen, AndThenCompose, Attempt, Backtrack, Continue, Discard, Lense,
    MapErr, MapValue, OrCompose, OrElse, OrElseCompose, PreserveAndCompose, Recover, RefParser,
    Scry,
};
use crate::cursor::Cursor;
use crate::parser::Parser;
use crate::repetition::{AtLeastOne, Least, Many, Most};

verus! {

/// The combinators as methods: every parser has them.
pub trait SizedParser<I>: Parser<I> + Sized where I: Cursor {
    fn reference<'p>(&'p self) -> (made: RefParser<'p, Self>)
        ensures
            made.parser == self,
    {
        RefParser::new(self)
    }

    fn discard(self) -> (made: Discard<Self>)
        ensures
            made.parser == self,
    {
        Discard::new(self)
    }

    fn lense<J, F>(self, f: F) -> (made: Lense<Self, F>) where J: Cursor, F: Fn(&mut J) -> &mut I
        ensures
            made.parser == self,
            made.lense == f,
    {
        Lense::new(self, f)
    }

    // Backtracking
    /// Rollback on failure.
    fn attempt(self) -> (made: Attempt<Self>)
        ensures
            made.parser == self,
    {
        Attempt::new(self)
    }

    /// Rollback on success.
    fn scry(self) -> (made: Scry<Self>)
        ensures
            made.parser == self,
    {
        Scry::new(self)
    }

    /// Rollback always.
    fn backtrack(self) -> (made: Backtrack<Self>)
        ensures
            made.parser == self,
    {
        Backtrack::new(self)
    }

    // Value mapping
    fn map<U, F>(self, f: F) -> (made: MapValue<Self, F>) where F: Fn(Self::Value) -> U
        ensures
            made.parser == self,
            made.inner_map == f,
    {
        MapValue::new(self, f)
    }

    fn and_then<U, F>(self, f: F) -> (made: AndThen<Self, F>) where
        F: Fn(Self::Value) -> Result<U, Self::Error>,

        ensures
            made.parser == self,
            made.inner_bind == f,
    {
        AndThen::new(self, f)
    }

    fn and_compose<U, P>(self, p: P) -> (made: AndCompose<Self, P>) where
        P: Parser<I, Value = U, Error = Self::Error>,

        ensures
            made.parser == self,
            made.other == p,
    {
        AndCompose::new(self, p)
    }

    fn preserve_and_compose<U, P>(self, p: P) -> (made: PreserveAndCompose<Self, P>) where
        P: Parser<I, Value = U, Error = Self::Error>,

        ensures
            made.parser == self,
            made.other == p,
    {
        PreserveAndCompose::new(self, p)
    }

    fn and_then_compose<U, P, F>(self, f: F) -> (made: AndThenCompose<Self, F>) where
        P: Parser<I, Value = U, Error = Self::Error>,
        F: Fn(Self::Value) -> P,

        ensures
            made.parser == self,
            made.bind == f,
    {
        AndThenCompose::new(self, f)
    }

    // Error mapping
    fn map_err<F, O>(self, o: O) -> (made: MapErr<Self, O>) where O: Fn(Self::Error) -> F
        ensures
            made.parser == self,
            made.inner_map == o,
    {
        MapErr::new(self, o)
    }

    fn or_else<F, O>(self, o: O) -> (made: OrElse<Self, O>) where
        O: Fn(Self::Error) -> Result<Self::Value, F>,

        ensures
            made.parser == self,
            made.inner_bind == o,
    {
        OrElse::new(self, o)
    }

    fn or_compose<F, P>(self, p: P) -> (made: OrCompose<Self, P>) where
        P: Parser<I, Value = Self::Value, Error = F>,

        ensures
            made.parser == self,
            made.other == p,
    {
        OrCompose::new(self, p)
    }

    fn or_else_compose<F, P, O>(self, o: O) -> (made: OrElseCompose<Self, O>) where
        P: Parser<I, Value = Self::Value, Error = F>,
        O: Fn(Self::Error) -> P,

        ensures
            made.parser == self,
            made.bind == o,
    {
        OrElseCompose::new(self, o)
    }

    // Vector Combinators
    fn many<E>(self) -> (made: Many<Self, E>)
        ensures
            made.parser == self,
    {
        Many::new(self)
    }

    fn some(self) -> (made: AtLeastOne<Self>)
        ensures
            made.parser == self,
    {
        AtLeastOne::new(self)
    }

    fn least_until<U, F, P>(self, end: P) -> (made: Least<Self, P>) where
        P: Parser<I, Value = U, Error = F>,

        ensures
            made.parser == self,
            made.until == end,
    {
        Least::new(self, end)
    }

    /// Needs no `attempt`: the elements are tried on copies of the cursor.
    fn most_until<U, F, P>(self, end: P) -> (made: Most<Self, P>) where
        P: Parser<I, Value = U, Error = F>,

        ensures
            made.parser == self,
            made.until == end,
    {
        Most::new(self, end)
    }

    // Error recovery
    fn continue_with<F, P>(self, p: P) -> (made: Continue<Self, P>) where
        P: Parser<I, Value = (), Error = F>,

        ensures
            made.parser == self,
            made.recover == p,
    {
        Continue::new(self, p)
    }

    fn recover_with<F, P>(self, p: P) -> (made: Recover<Self, P>) where
        P: Parser<I, Value = (), Error = F>,

        ensures
            made.parser == self,
            made.recover == p,
    {
        Recover::new(self, p)
    }

    fn absorb_err<U>(self) -> (made: AbsorbErr<Self>) where
        Self: Parser<I, Value = Result<U, <Self as Parser<I>>::Error>>,

        ensures
            made.parser == self,
    {
        AbsorbErr::new(self)
    }
}

impl<P, I> SizedParser<I> for P where I: Cursor, P: Sized + Parser<I> {

}

} // verus!

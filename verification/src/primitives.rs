use vstd::prelude::*;
use std::marker::PhantomData;
use vstd::std_specs::cmp::PartialEqSpec;
use crate::cursor::Cursor;
use crate::info::{clamp, ParseInfo};
use crate::parser::{ParseResult, Parser};

verus! {

/// Succeeds with a copy of its value and reads nothing.
pub struct Wrap<T, E> where T: Clone {
    pub val: T,
    pub _e: PhantomData<E>,
}

impl<T, E> Clone for Wrap<T, E> where T: Clone {
    fn clone(&self) -> (copy: Wrap<T, E>)
        ensures
            cloned(self.val, copy.val),
    {
        Wrap { val: self.val.clone(), _e: PhantomData }
    }
}

impl<T, E> Wrap<T, E> where T: Clone {
    pub fn new(val: T) -> (parser: Wrap<T, E>)
        ensures
            parser.val == val,
    {
        Wrap { val, _e: PhantomData }
    }
}

impl<I, T, E> Parser<I> for Wrap<T, E> where I: Cursor, T: Clone {
    type Value = T;

    type Error = E;

    open spec fn ready(&self) -> bool {
        true
    }

    open spec fn parsed(&self, start: I, end: I, out: ParseResult<T, E>) -> bool {
        &&& end == start
        &&& out.info == ParseInfo::zero()
        &&& out.res is Ok
        &&& cloned(self.val, out.res->Ok_0)
    }

    fn parse(&self, _iter: &mut I) -> (out: ParseResult<T, E>) {
        ParseInfo::default().ok(self.val.clone())
    }
}

/// Fails with a copy of its error and reads nothing.
pub struct Fail<T, E> where E: Clone {
    pub err: E,
    pub _t: PhantomData<T>,
}

impl<T, E> Clone for Fail<T, E> where E: Clone {
    fn clone(&self) -> (copy: Fail<T, E>)
        ensures
            cloned(self.err, copy.err),
    {
        Fail { err: self.err.clone(), _t: PhantomData }
    }
}

impl<T, E> Fail<T, E> where E: Clone {
    pub fn new(err: E) -> (parser: Fail<T, E>)
        ensures
            parser.err == err,
    {
        Fail { err, _t: PhantomData }
    }
}

impl<I, T, E> Parser<I> for Fail<T, E> where I: Cursor, E: Clone {
    type Value = T;

    type Error = E;

    open spec fn ready(&self) -> bool {
        true
    }

    open spec fn parsed(&self, start: I, end: I, out: ParseResult<T, E>) -> bool {
        &&& end == start
        &&& out.info == ParseInfo::zero()
        &&& out.res is Err
        &&& cloned(self.err, out.res->Err_0)
    }

    fn parse(&self, _iter: &mut I) -> (out: ParseResult<T, E>) {
        ParseInfo::default().err(self.err.clone())
    }
}

/// The parser that always gives a copy of `t`.
pub fn wrap<T, E>(t: T) -> (parser: Wrap<T, E>) where T: Clone
    ensures
        parser.val == t,
{
    Wrap::new(t)
}

/// The parser that always fails with a copy of `e`.
pub fn fail<T, E>(e: E) -> (parser: Fail<T, E>) where E: Clone
    ensures
        parser.err == e,
{
    Fail::new(e)
}

/// A function from a cursor to an outcome, taken as a parser.
#[derive(Clone)]
pub struct Arrow<F> {
    pub func: F,
}

impl<F> Arrow<F> {
    pub fn new(func: F) -> (parser: Arrow<F>)
        ensures
            parser.func == func,
    {
        Arrow { func }
    }
}

impl<F, I, T, E> Parser<I> for Arrow<F> where I: Cursor, F: Fn(I) -> (I, ParseResult<T, E>) {
    type Value = T;

    type Error = E;

    open spec fn ready(&self) -> bool {
        forall|start: I| call_requires(self.func, (start,))
    }

    open spec fn parsed(&self, start: I, end: I, out: ParseResult<T, E>) -> bool {
        call_ensures(self.func, (start,), (end, out))
    }

    fn parse(&self, iter: &mut I) -> (out: ParseResult<T, E>) {
        let (end, out) = (self.func)(iter.snapshot());
        *iter = end;
        out
    }
}

/// The tokens `expect`, one after the other.
#[derive(Clone)]
pub struct ExpectTokens<T, const N: usize> {
    pub expect: [T; N],
}

impl<T, const N: usize> ExpectTokens<T, N> {
    pub fn new(expect: [T; N]) -> (parser: ExpectTokens<T, N>)
        ensures
            parser.expect == expect,
    {
        ExpectTokens { expect }
    }
}

/// The first `count` tokens of `tokens` are those of `expect`, as the
/// tokens' own `==` finds.
pub open spec fn agree<T: PartialEq>(tokens: Seq<T>, expect: Seq<T>, count: int) -> bool {
    &&& 0 <= count <= tokens.len()
    &&& count <= expect.len()
    &&& forall|index: int| 0 <= index < count ==> (#[trigger] tokens[index]).eq_spec(&expect[index])
}

impl<I, T, const N: usize> Parser<I> for ExpectTokens<T, N> where
    I: Cursor<Token = T>,
    T: PartialEq + Clone,
 {
    type Value = [T; N];

    type Error = [T; N];

    open spec fn ready(&self) -> bool {
        T::obeys_eq_spec()
    }

    /// A success has read all `N` tokens and found them as expected. A
    /// failure has read the tokens up to the first that differs, that one
    /// included, or up to the end of the input. Both carry a copy of
    /// `expect`, and both count `N` tokens as examined.
    open spec fn parsed(&self, start: I, end: I, out: ParseResult<[T; N], [T; N]>) -> bool {
        let ahead = start.remaining();
        &&& out.info.read == N
        &&& match out.res {
            Ok(value) => {
                &&& cloned(self.expect, value)
                &&& agree(ahead, self.expect@, N as int)
                &&& out.info.taken == N
                &&& end.remaining() == ahead.skip(N as int)
            },
            Err(error) => {
                &&& cloned(self.expect, error)
                &&& exists|count: int|
                    {
                        &&& count < N
                        &&& #[trigger] agree(ahead, self.expect@, count)
                        &&& if count < ahead.len() {
                            &&& !ahead[count].eq_spec(&self.expect@[count])
                            &&& out.info.taken == count + 1
                            &&& end.remaining() == ahead.skip(count + 1)
                        } else {
                            &&& out.info.taken == count
                            &&& end.remaining() == ahead.skip(count)
                        }
                    }
            },
        }
    }

    fn parse(&self, iter: &mut I) -> (out: ParseResult<[T; N], [T; N]>) {
        let mut count: usize = 0;
        while count < N
            invariant
                T::obeys_eq_spec(),
                count <= N,
                agree(old(iter).remaining(), self.expect@, count as int),
                iter.remaining() == old(iter).remaining().skip(count as int),
            decreases N - count,
        {
            let ghost before = iter.remaining();
            match iter.next() {
                None => {
                    proof {
                        assert(count as int == old(iter).remaining().len());
                        assert(iter.remaining() == old(iter).remaining().skip(count as int));
                    }
                    return ParseInfo::new(count, N).err(self.expect.clone());
                },
                Some(found) => {
                    proof {
                        assert(before[0] == old(iter).remaining()[count as int]);
                        assert(before.drop_first() =~= old(iter).remaining().skip(count + 1));
                    }
                    if found == self.expect[count] {
                        count = count + 1;
                    } else {
                        return ParseInfo::new(count + 1, N).err(self.expect.clone());
                    }
                },
            }
        }
        ParseInfo::new(N, N).ok(self.expect.clone())
    }
}

/// The tokens ahead for as long as `pred` holds of them. The first token of
/// which it does not hold is read too, and dropped.
pub struct ParseWhile<F, Tokens> {
    pub pred: F,
    pub _t: PhantomData<Tokens>,
}

impl<F, Tokens> Clone for ParseWhile<F, Tokens> where F: Clone {
    fn clone(&self) -> (copy: ParseWhile<F, Tokens>)
        ensures
            cloned(self.pred, copy.pred),
    {
        ParseWhile { pred: self.pred.clone(), _t: PhantomData }
    }
}

impl<F, Tokens> ParseWhile<F, Tokens> {
    pub fn new(pred: F) -> (parser: ParseWhile<F, Tokens>)
        ensures
            parser.pred == pred,
    {
        ParseWhile { pred, _t: PhantomData }
    }
}

/// `pred` held of the first `count` tokens of `tokens`.
pub open spec fn held<T, F: Fn(&T) -> bool>(pred: F, tokens: Seq<T>, count: int) -> bool {
    &&& 0 <= count <= tokens.len()
    &&& forall|index: int|
        0 <= index < count ==> call_ensures(pred, (&#[trigger] tokens[index],), true)
}

impl<I, F> Parser<I> for ParseWhile<F, Vec<I::Token>> where I: Cursor, F: Fn(&I::Token) -> bool {
    type Value = Vec<I::Token>;

    type Error = ();

    open spec fn ready(&self) -> bool {
        forall|token: I::Token| call_requires(self.pred, (&token,))
    }

    /// Never fails. The value is the longest run of tokens ahead of which
    /// `pred` held. Where a token stopped the run, that token is consumed
    /// and counted as examined, not as taken.
    open spec fn parsed(&self, start: I, end: I, out: ParseResult<Vec<I::Token>, ()>) -> bool {
        let ahead = start.remaining();
        &&& out.res is Ok
        &&& exists|count: int|
            {
                &&& #[trigger] held(self.pred, ahead, count)
                &&& out.res->Ok_0@ == ahead.take(count)
                &&& out.info.taken == count
                &&& if count < ahead.len() {
                    &&& call_ensures(self.pred, (&ahead[count],), false)
                    &&& end.remaining() == ahead.skip(count + 1)
                    &&& out.info.read == clamp(count + 1)
                } else {
                    &&& end.remaining() == ahead.skip(count)
                    &&& out.info.read == count
                }
            }
    }

    fn parse(&self, iter: &mut I) -> (out: ParseResult<Vec<I::Token>, ()>)
        ensures
            out.res is Ok,
    {
        let mut tokens: Vec<I::Token> = Vec::new();
        loop
            invariant
                forall|token: I::Token| call_requires(self.pred, (&token,)),
                held(self.pred, old(iter).remaining(), tokens@.len() as int),
                tokens@ == old(iter).remaining().take(tokens@.len() as int),
                iter.remaining() == old(iter).remaining().skip(tokens@.len() as int),
            decreases iter.remaining().len(),
        {
            let ghost before = iter.remaining();
            let ghost count = tokens@.len() as int;
            match iter.next() {
                None => {
                    let taken = tokens.len();
                    return ParseInfo::new(taken, taken).ok(tokens);
                },
                Some(token) => {
                    proof {
                        assert(before[0] == old(iter).remaining()[count]);
                        assert(before.drop_first() =~= old(iter).remaining().skip(count + 1));
                    }
                    if (self.pred)(&token) {
                        tokens.push(token);
                        proof {
                            assert(tokens@ =~= old(iter).remaining().take(count + 1));
                        }
                    } else {
                        let taken = tokens.len();
                        return ParseInfo::new(taken, taken.saturating_add(1)).ok(tokens);
                    }
                },
            }
        }
    }
}

} // verus!

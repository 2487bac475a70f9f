use vstd::prelude::*;
use std::marker::PhantomData;
use crate::cursor::Cursor;
use crate::info::ParseInfo;
use crate::parser::{attempted, backtracked, scried, ParseResult, Parser};

verus! {

/// `parser`, which reads a cursor of one type, on a cursor of another
/// type: `lense` leads from the cursor that is given to the one that is
/// read.
#[derive(Clone)]
pub struct Lense<P, F> {
    pub parser: P,
    pub lense: F,
}

impl<P, F> Lense<P, F> {
    pub fn new(parser: P, lense: F) -> (made: Lense<P, F>)
        ensures
            made.parser == parser,
            made.lense == lense,
    {
        Lense { parser, lense }
    }
}

impl<I, J, P, F> Parser<J> for Lense<P, F> where
    I: Cursor,
    P: Parser<I>,
    J: Cursor,
    F: Fn(&mut J) -> &mut I,
 {
    type Value = P::Value;

    type Error = P::Error;

    open spec fn ready(&self) -> bool {
        &&& self.parser.ready()
        &&& forall|outer: &mut J| call_requires(self.lense, (outer,))
    }

    /// `out` is what `parser` gave from the cursor that `lense` found in
    /// `start`. Where the outer cursor is left depends on what `lense`
    /// does with the inner one, of which nothing is said here.
    open spec fn parsed(&self, start: J, end: J, out: ParseResult<P::Value, P::Error>) -> bool {
        exists|outer: &mut J, inner: &mut I, stop: I|
            {
                &&& *outer == start
                &&& #[trigger] call_ensures(self.lense, (outer,), inner)
                &&& #[trigger] self.parser.parsed(*inner, stop, out)
            }
    }

    /// The outcome is that of `parser` on the cursor that `lense` finds in
    /// the one that is given; where `parser` leaves that cursor is what
    /// `lense` sees to be written back.
    fn parse(&self, jter: &mut J) -> (out: ParseResult<P::Value, P::Error>)
        ensures
            exists|outer: &mut J, inner: &mut I|
                {
                    &&& *outer == *old(jter)
                    &&& *final(outer) == *final(jter)
                    &&& #[trigger] call_ensures(self.lense, (outer,), inner)
                    &&& self.parser.parsed(*inner, *final(inner), out)
                },
    {
        let iter: &mut I = (self.lense)(jter);
        let ghost inner = *iter;
        let out = self.parser.parse(iter);
        proof {
            assert(self.parser.parsed(inner, *iter, out));
        }
        out
    }
}

// Backtracking

/// `parser`, with the cursor put back when it fails.
#[derive(Clone)]
pub struct Attempt<P> {
    pub parser: P,
}

impl<P> Attempt<P> {
    pub fn new(parser: P) -> (made: Attempt<P>)
        ensures
            made.parser == parser,
    {
        Attempt { parser }
    }
}

impl<I, P> Parser<I> for Attempt<P> where I: Cursor, P: Parser<I> {
    type Value = P::Value;

    type Error = P::Error;

    open spec fn ready(&self) -> bool {
        self.parser.ready()
    }

    open spec fn parsed(&self, start: I, end: I, out: ParseResult<P::Value, P::Error>) -> bool {
        attempted(&self.parser, start, end, out)
    }

    fn parse(&self, iter: &mut I) -> (out: ParseResult<P::Value, P::Error>)
        ensures
            out.res is Err ==> *final(iter) == *old(iter) && out.info.taken == 0,
    {
        self.parser.attempt_parse(iter)
    }
}

/// `parser`, with the cursor put back when it succeeds.
#[derive(Clone)]
pub struct Scry<P> {
    pub parser: P,
}

impl<P> Scry<P> {
    pub fn new(parser: P) -> (made: Scry<P>)
        ensures
            made.parser == parser,
    {
        Scry { parser }
    }
}

impl<I, P> Parser<I> for Scry<P> where I: Cursor, P: Parser<I> {
    type Value = P::Value;

    type Error = P::Error;

    open spec fn ready(&self) -> bool {
        self.parser.ready()
    }

    open spec fn parsed(&self, start: I, end: I, out: ParseResult<P::Value, P::Error>) -> bool {
        scried(&self.parser, start, end, out)
    }

    fn parse(&self, iter: &mut I) -> (out: ParseResult<P::Value, P::Error>)
        ensures
            out.res is Ok ==> *final(iter) == *old(iter) && out.info.taken == 0,
    {
        self.parser.scry_parse(iter)
    }
}

/// `parser`, with the cursor put back whatever it gave.
#[derive(Clone)]
pub struct Backtrack<P> {
    pub parser: P,
}

impl<P> Backtrack<P> {
    pub fn new(parser: P) -> (made: Backtrack<P>)
        ensures
            made.parser == parser,
    {
        Backtrack { parser }
    }
}

impl<I, P> Parser<I> for Backtrack<P> where I: Cursor, P: Parser<I> {
    type Value = P::Value;

    type Error = P::Error;

    open spec fn ready(&self) -> bool {
        self.parser.ready()
    }

    open spec fn parsed(&self, start: I, end: I, out: ParseResult<P::Value, P::Error>) -> bool {
        backtracked(&self.parser, start, end, out)
    }

    fn parse(&self, iter: &mut I) -> (out: ParseResult<P::Value, P::Error>)
        ensures
            *final(iter) == *old(iter),
            out.info.taken == 0,
    {
        self.parser.backtrack_parse(iter)
    }
}

// Value mapping

/// `parser`, with `inner_map` applied to the value of a success.
#[derive(Clone)]
pub struct MapValue<P, F> {
    pub parser: P,
    pub inner_map: F,
}

impl<P, F> MapValue<P, F> {
    pub fn new(parser: P, inner_map: F) -> (made: MapValue<P, F>)
        ensures
            made.parser == parser,
            made.inner_map == inner_map,
    {
        MapValue { parser, inner_map }
    }
}

impl<I, P, U, F> Parser<I> for MapValue<P, F> where
    I: Cursor,
    P: Parser<I>,
    F: Fn(P::Value) -> U,
 {
    type Value = U;

    type Error = P::Error;

    open spec fn ready(&self) -> bool {
        &&& self.parser.ready()
        &&& forall|value: P::Value| call_requires(self.inner_map, (value,))
    }

    open spec fn parsed(&self, start: I, end: I, out: ParseResult<U, P::Error>) -> bool {
        ||| out.res is Ok && exists|value: P::Value|
            {
                &&& #[trigger] self.parser.parsed(start, end, ParseResult::success(value, out.info))
                &&& call_ensures(self.inner_map, (value,), out.res->Ok_0)
            }
        ||| out.res is Err && self.parser.parsed(
            start,
            end,
            ParseResult::failure(out.res->Err_0, out.info),
        )
    }

    fn parse(&self, iter: &mut I) -> (out: ParseResult<U, P::Error>) {
        let inner = self.parser.parse(iter);
        let ghost witness = inner;
        match inner.res {
            Ok(value) => {
                let ghost given = value;
                let out = inner.info.ok((self.inner_map)(value));
                proof {
                    assert(witness == ParseResult::<P::Value, P::Error>::success(given, out.info));
                    assert(call_ensures(self.inner_map, (given,), out.res->Ok_0));
                }
                out
            },
            Err(error) => {
                let out = inner.info.err(error);
                proof {
                    assert(witness == ParseResult::<P::Value, P::Error>::failure(
                        out.res->Err_0,
                        out.info,
                    ));
                }
                out
            },
        }
    }
}

/// `parser`, with the value of a success dropped.
#[derive(Clone)]
pub struct Discard<P> {
    pub parser: P,
}

impl<P> Discard<P> {
    pub fn new(parser: P) -> (made: Discard<P>)
        ensures
            made.parser == parser,
    {
        Discard { parser }
    }
}

impl<I, P> Parser<I> for Discard<P> where I: Cursor, P: Parser<I> {
    type Value = ();

    type Error = P::Error;

    open spec fn ready(&self) -> bool {
        self.parser.ready()
    }

    open spec fn parsed(&self, start: I, end: I, out: ParseResult<(), P::Error>) -> bool {
        ||| out.res is Ok && exists|value: P::Value| #[trigger]
            self.parser.parsed(start, end, ParseResult::success(value, out.info))
        ||| out.res is Err && self.parser.parsed(
            start,
            end,
            ParseResult::failure(out.res->Err_0, out.info),
        )
    }

    fn parse(&self, iter: &mut I) -> (out: ParseResult<(), P::Error>) {
        let inner = self.parser.parse(iter);
        let ghost witness = inner;
        match inner.res {
            Ok(value) => {
                proof {
                    assert(witness == ParseResult::<P::Value, P::Error>::success(
                        value,
                        witness.info,
                    ));
                }
                inner.info.ok(())
            },
            Err(error) => {
                proof {
                    assert(witness == ParseResult::<P::Value, P::Error>::failure(
                        error,
                        witness.info,
                    ));
                }
                inner.info.err(error)
            },
        }
    }
}

/// `parser`, with `inner_bind` deciding on the value of a success whether it
/// stays one.
#[derive(Clone)]
pub struct AndThen<P, F> {
    pub parser: P,
    pub inner_bind: F,
}

impl<P, F> AndThen<P, F> {
    pub fn new(parser: P, inner_bind: F) -> (made: AndThen<P, F>)
        ensures
            made.parser == parser,
            made.inner_bind == inner_bind,
    {
        AndThen { parser, inner_bind }
    }
}

impl<I, P, U, F> Parser<I> for AndThen<P, F> where
    I: Cursor,
    P: Parser<I>,
    F: Fn(P::Value) -> Result<U, P::Error>,
 {
    type Value = U;

    type Error = P::Error;

    open spec fn ready(&self) -> bool {
        &&& self.parser.ready()
        &&& forall|value: P::Value| call_requires(self.inner_bind, (value,))
    }

    open spec fn parsed(&self, start: I, end: I, out: ParseResult<U, P::Error>) -> bool {
        ||| exists|value: P::Value|
            {
                &&& #[trigger] self.parser.parsed(start, end, ParseResult::success(value, out.info))
                &&& call_ensures(self.inner_bind, (value,), out.res)
            }
        ||| out.res is Err && self.parser.parsed(
            start,
            end,
            ParseResult::failure(out.res->Err_0, out.info),
        )
    }

    fn parse(&self, iter: &mut I) -> (out: ParseResult<U, P::Error>) {
        let inner = self.parser.parse(iter);
        let ghost witness = inner;
        match inner.res {
            Ok(value) => {
                let ghost given = value;
                let out = inner.info.with((self.inner_bind)(value));
                proof {
                    assert(witness == ParseResult::<P::Value, P::Error>::success(given, out.info));
                    assert(call_ensures(self.inner_bind, (given,), out.res));
                }
                out
            },
            Err(error) => {
                let out = inner.info.err(error);
                proof {
                    assert(witness == ParseResult::<P::Value, P::Error>::failure(
                        out.res->Err_0,
                        out.info,
                    ));
                }
                out
            },
        }
    }
}

/// `first` failed from `start`, stopped at `end`, and `out` carries its
/// error and its record.
pub open spec fn failed_first<I: Cursor, P: Parser<I>, U>(
    first: &P,
    start: I,
    end: I,
    out: ParseResult<U, P::Error>,
) -> bool {
    exists|inner: ParseResult<P::Value, P::Error>|
        {
            &&& #[trigger] first.parsed(start, end, inner)
            &&& inner.res is Err
            &&& out.res is Err
            &&& out.res->Err_0 == inner.res->Err_0
            &&& out.info == inner.info
        }
}

/// `first` succeeded from `start` with `value`, and `second` then ran from
/// where it stopped to `end` and gave `res`; `info` is the record of both.
pub open spec fn ran_both<I: Cursor, P: Parser<I>, Q: Parser<I>>(
    first: &P,
    second: &Q,
    start: I,
    end: I,
    value: P::Value,
    res: Result<Q::Value, Q::Error>,
    info: ParseInfo,
) -> bool {
    exists|mid: I, inner: ParseResult<P::Value, P::Error>, then: ParseResult<Q::Value, Q::Error>|
        {
            &&& #[trigger] first.parsed(start, mid, inner)
            &&& inner.res == Ok::<P::Value, P::Error>(value)
            &&& #[trigger] second.parsed(mid, end, then)
            &&& then.res == res
            &&& info == inner.info.followed_by(then.info)
        }
}

/// `parser`, then `other`: the value is that of `other`.
#[derive(Clone)]
pub struct AndCompose<P, Q> {
    pub parser: P,
    pub other: Q,
}

impl<P, Q> AndCompose<P, Q> {
    pub fn new(parser: P, other: Q) -> (made: AndCompose<P, Q>)
        ensures
            made.parser == parser,
            made.other == other,
    {
        AndCompose { parser, other }
    }
}

impl<I, P, E, Q> Parser<I> for AndCompose<P, Q> where
    I: Cursor,
    P: Parser<I, Error = E>,
    Q: Parser<I, Error = E>,
 {
    type Value = Q::Value;

    type Error = E;

    open spec fn ready(&self) -> bool {
        self.parser.ready() && self.other.ready()
    }

    open spec fn parsed(&self, start: I, end: I, out: ParseResult<Q::Value, E>) -> bool {
        ||| failed_first(&self.parser, start, end, out)
        ||| exists|value: P::Value| #[trigger]
            ran_both(&self.parser, &self.other, start, end, value, out.res, out.info)
    }

    fn parse(&self, iter: &mut I) -> (out: ParseResult<Q::Value, E>) {
        let mut info = ParseInfo::default();
        let first = self.parser.parse(iter);
        let ghost inner = first;
        let ghost mid = *iter;
        match first.record_to(&mut info) {
            Ok(value) => {
                let then = self.other.parse(iter);
                let ghost then_seen = then;
                let res = then.record_to(&mut info);
                let out = info.with(res);
                proof {
                    assert(self.parser.parsed(*old(iter), mid, inner));
                    assert(self.other.parsed(mid, *iter, then_seen));
                    assert(out.res == then_seen.res);
                    assert(ran_both(
                        &self.parser,
                        &self.other,
                        *old(iter),
                        *iter,
                        value,
                        out.res,
                        out.info,
                    ));
                }
                out
            },
            Err(error) => {
                let out = info.err(error);
                proof {
                    assert(self.parser.parsed(*old(iter), *iter, inner));
                }
                out
            },
        }
    }
}

/// `parser`, then `other`: the value is that of `parser`, and `other` must
/// succeed too.
#[derive(Clone)]
pub struct PreserveAndCompose<P, Q> {
    pub parser: P,
    pub other: Q,
}

impl<P, Q> PreserveAndCompose<P, Q> {
    pub fn new(parser: P, other: Q) -> (made: PreserveAndCompose<P, Q>)
        ensures
            made.parser == parser,
            made.other == other,
    {
        PreserveAndCompose { parser, other }
    }
}

impl<I, P, E, Q> Parser<I> for PreserveAndCompose<P, Q> where
    I: Cursor,
    P: Parser<I, Error = E>,
    Q: Parser<I, Error = E>,
 {
    type Value = P::Value;

    type Error = E;

    open spec fn ready(&self) -> bool {
        self.parser.ready() && self.other.ready()
    }

    open spec fn parsed(&self, start: I, end: I, out: ParseResult<P::Value, E>) -> bool {
        ||| failed_first(&self.parser, start, end, out)
        ||| exists|value: P::Value, res: Result<Q::Value, E>|
            {
                &&& #[trigger] ran_both(
                    &self.parser,
                    &self.other,
                    start,
                    end,
                    value,
                    res,
                    out.info,
                )
                &&& res is Ok ==> out.res == Ok::<P::Value, E>(value)
                &&& res is Err ==> out.res == Err::<P::Value, E>(res->Err_0)
            }
    }

    fn parse(&self, iter: &mut I) -> (out: ParseResult<P::Value, E>) {
        let mut info = ParseInfo::default();
        let first = self.parser.parse(iter);
        let ghost inner = first;
        let ghost mid = *iter;
        match first.record_to(&mut info) {
            Ok(value) => {
                let then = self.other.parse(iter);
                let ghost then_seen = then;
                let ghost kept = value;
                let out = match then.record_to(&mut info) {
                    Ok(_) => info.ok(value),
                    Err(error) => info.err(error),
                };
                proof {
                    assert(self.parser.parsed(*old(iter), mid, inner));
                    assert(self.other.parsed(mid, *iter, then_seen));
                    assert(ran_both(
                        &self.parser,
                        &self.other,
                        *old(iter),
                        *iter,
                        kept,
                        then_seen.res,
                        out.info,
                    ));
                }
                out
            },
            Err(error) => {
                let out = info.err(error);
                proof {
                    assert(self.parser.parsed(*old(iter), *iter, inner));
                }
                out
            },
        }
    }
}

/// `parser`, then the parser that `bind` makes of its value.
#[derive(Clone)]
pub struct AndThenCompose<P, F> {
    pub parser: P,
    pub bind: F,
}

impl<P, F> AndThenCompose<P, F> {
    pub fn new(parser: P, bind: F) -> (made: AndThenCompose<P, F>)
        ensures
            made.parser == parser,
            made.bind == bind,
    {
        AndThenCompose { parser, bind }
    }
}

impl<I, P, E, Q, F> Parser<I> for AndThenCompose<P, F> where
    I: Cursor,
    P: Parser<I, Error = E>,
    Q: Parser<I, Error = E>,
    F: Fn(P::Value) -> Q,
 {
    type Value = Q::Value;

    type Error = E;

    open spec fn ready(&self) -> bool {
        &&& self.parser.ready()
        &&& forall|value: P::Value| call_requires(self.bind, (value,))
        &&& forall|value: P::Value, next: Q| #[trigger]
            call_ensures(self.bind, (value,), next) ==> next.ready()
    }

    open spec fn parsed(&self, start: I, end: I, out: ParseResult<Q::Value, E>) -> bool {
        ||| failed_first(&self.parser, start, end, out)
        ||| exists|value: P::Value, next: Q|
            {
                &&& #[trigger] call_ensures(self.bind, (value,), next)
                &&& ran_both(&self.parser, &next, start, end, value, out.res, out.info)
            }
    }

    fn parse(&self, iter: &mut I) -> (out: ParseResult<Q::Value, E>) {
        let mut info = ParseInfo::default();
        let first = self.parser.parse(iter);
        let ghost inner = first;
        let ghost mid = *iter;
        match first.record_to(&mut info) {
            Ok(value) => {
                let ghost kept = value;
                let next = (self.bind)(value);
                let then = next.parse(iter);
                let ghost then_seen = then;
                let res = then.record_to(&mut info);
                let out = info.with(res);
                proof {
                    assert(self.parser.parsed(*old(iter), mid, inner));
                    assert(next.parsed(mid, *iter, then_seen));
                    assert(call_ensures(self.bind, (kept,), next));
                    assert(ran_both(
                        &self.parser,
                        &next,
                        *old(iter),
                        *iter,
                        kept,
                        out.res,
                        out.info,
                    ));
                }
                out
            },
            Err(error) => {
                let out = info.err(error);
                proof {
                    assert(self.parser.parsed(*old(iter), *iter, inner));
                }
                out
            },
        }
    }
}

// Error mapping

/// `parser`, with `inner_map` applied to the error of a failure.
#[derive(Clone)]
pub struct MapErr<P, O> {
    pub parser: P,
    pub inner_map: O,
}

impl<P, O> MapErr<P, O> {
    pub fn new(parser: P, inner_map: O) -> (made: MapErr<P, O>)
        ensures
            made.parser == parser,
            made.inner_map == inner_map,
    {
        MapErr { parser, inner_map }
    }
}

impl<I, P, F, O> Parser<I> for MapErr<P, O> where
    I: Cursor,
    P: Parser<I>,
    O: Fn(P::Error) -> F,
 {
    type Value = P::Value;

    type Error = F;

    open spec fn ready(&self) -> bool {
        &&& self.parser.ready()
        &&& forall|error: P::Error| call_requires(self.inner_map, (error,))
    }

    open spec fn parsed(&self, start: I, end: I, out: ParseResult<P::Value, F>) -> bool {
        ||| out.res is Ok && self.parser.parsed(
            start,
            end,
            ParseResult::success(out.res->Ok_0, out.info),
        )
        ||| out.res is Err && exists|error: P::Error|
            {
                &&& #[trigger] self.parser.parsed(start, end, ParseResult::failure(error, out.info))
                &&& call_ensures(self.inner_map, (error,), out.res->Err_0)
            }
    }

    fn parse(&self, iter: &mut I) -> (out: ParseResult<P::Value, F>) {
        let inner = self.parser.parse(iter);
        let ghost witness = inner;
        match inner.res {
            Ok(value) => {
                let out = inner.info.ok(value);
                proof {
                    assert(witness == ParseResult::<P::Value, P::Error>::success(
                        out.res->Ok_0,
                        out.info,
                    ));
                }
                out
            },
            Err(error) => {
                let ghost seen = error;
                let out = inner.info.err((self.inner_map)(error));
                proof {
                    assert(witness == ParseResult::<P::Value, P::Error>::failure(seen, out.info));
                    assert(call_ensures(self.inner_map, (seen,), out.res->Err_0));
                }
                out
            },
        }
    }
}

/// `parser`, with `inner_bind` deciding on the error of a failure whether it
/// stays one.
#[derive(Clone)]
pub struct OrElse<P, O> {
    pub parser: P,
    pub inner_bind: O,
}

impl<P, O> OrElse<P, O> {
    pub fn new(parser: P, inner_bind: O) -> (made: OrElse<P, O>)
        ensures
            made.parser == parser,
            made.inner_bind == inner_bind,
    {
        OrElse { parser, inner_bind }
    }
}

impl<I, P, F, O> Parser<I> for OrElse<P, O> where
    I: Cursor,
    P: Parser<I>,
    O: Fn(P::Error) -> Result<P::Value, F>,
 {
    type Value = P::Value;

    type Error = F;

    open spec fn ready(&self) -> bool {
        &&& self.parser.ready()
        &&& forall|error: P::Error| call_requires(self.inner_bind, (error,))
    }

    open spec fn parsed(&self, start: I, end: I, out: ParseResult<P::Value, F>) -> bool {
        ||| out.res is Ok && self.parser.parsed(
            start,
            end,
            ParseResult::success(out.res->Ok_0, out.info),
        )
        ||| exists|error: P::Error|
            {
                &&& #[trigger] self.parser.parsed(start, end, ParseResult::failure(error, out.info))
                &&& call_ensures(self.inner_bind, (error,), out.res)
            }
    }

    fn parse(&self, iter: &mut I) -> (out: ParseResult<P::Value, F>) {
        let inner = self.parser.parse(iter);
        let ghost witness = inner;
        match inner.res {
            Ok(value) => {
                let out = inner.info.ok(value);
                proof {
                    assert(witness == ParseResult::<P::Value, P::Error>::success(
                        out.res->Ok_0,
                        out.info,
                    ));
                }
                out
            },
            Err(error) => {
                let ghost seen = error;
                let out = inner.info.with((self.inner_bind)(error));
                proof {
                    assert(witness == ParseResult::<P::Value, P::Error>::failure(seen, out.info));
                    assert(call_ensures(self.inner_bind, (seen,), out.res));
                }
                out
            },
        }
    }
}

/// `first` succeeded from `start`, stopped at `end`, and `out` carries its
/// value and its record.
pub open spec fn succeeded_first<I: Cursor, P: Parser<I>, F>(
    first: &P,
    start: I,
    end: I,
    out: ParseResult<P::Value, F>,
) -> bool {
    &&& out.res is Ok
    &&& first.parsed(start, end, ParseResult::success(out.res->Ok_0, out.info))
}

/// `first` failed from `start` with `error`, and `second` then ran from
/// where it stopped to `end` and gave `res`; `info` is the record of both.
pub open spec fn ran_instead<I: Cursor, P: Parser<I>, Q: Parser<I>>(
    first: &P,
    second: &Q,
    start: I,
    end: I,
    error: P::Error,
    res: Result<Q::Value, Q::Error>,
    info: ParseInfo,
) -> bool {
    exists|mid: I, inner: ParseResult<P::Value, P::Error>, then: ParseResult<Q::Value, Q::Error>|
        {
            &&& #[trigger] first.parsed(start, mid, inner)
            &&& inner.res == Err::<P::Value, P::Error>(error)
            &&& #[trigger] second.parsed(mid, end, then)
            &&& then.res == res
            &&& info == inner.info.followed_by(then.info)
        }
}

/// `parser`, and where it fails `other`, from where `parser` stopped.
#[derive(Clone)]
pub struct OrCompose<P, Q> {
    pub parser: P,
    pub other: Q,
}

impl<P, Q> OrCompose<P, Q> {
    pub fn new(parser: P, other: Q) -> (made: OrCompose<P, Q>)
        ensures
            made.parser == parser,
            made.other == other,
    {
        OrCompose { parser, other }
    }
}

impl<I, P, T, Q> Parser<I> for OrCompose<P, Q> where
    I: Cursor,
    P: Parser<I, Value = T>,
    Q: Parser<I, Value = T>,
 {
    type Value = T;

    type Error = Q::Error;

    open spec fn ready(&self) -> bool {
        self.parser.ready() && self.other.ready()
    }

    open spec fn parsed(&self, start: I, end: I, out: ParseResult<T, Q::Error>) -> bool {
        ||| succeeded_first(&self.parser, start, end, out)
        ||| exists|error: P::Error| #[trigger]
            ran_instead(&self.parser, &self.other, start, end, error, out.res, out.info)
    }

    fn parse(&self, iter: &mut I) -> (out: ParseResult<T, Q::Error>) {
        let mut info = ParseInfo::default();
        let first = self.parser.parse(iter);
        let ghost inner = first;
        let ghost mid = *iter;
        match first.record_to(&mut info) {
            Ok(value) => {
                let out = info.ok(value);
                proof {
                    assert(inner == ParseResult::<T, P::Error>::success(out.res->Ok_0, out.info));
                }
                out
            },
            Err(error) => {
                let then = self.other.parse(iter);
                let ghost then_seen = then;
                let res = then.record_to(&mut info);
                let out = info.with(res);
                proof {
                    assert(self.parser.parsed(*old(iter), mid, inner));
                    assert(self.other.parsed(mid, *iter, then_seen));
                    assert(ran_instead(
                        &self.parser,
                        &self.other,
                        *old(iter),
                        *iter,
                        error,
                        out.res,
                        out.info,
                    ));
                }
                out
            },
        }
    }
}

/// `parser`, and where it fails the parser that `bind` makes of its error,
/// from where `parser` stopped.
#[derive(Clone)]
pub struct OrElseCompose<P, O> {
    pub parser: P,
    pub bind: O,
}

impl<P, O> OrElseCompose<P, O> {
    pub fn new(parser: P, bind: O) -> (made: OrElseCompose<P, O>)
        ensures
            made.parser == parser,
            made.bind == bind,
    {
        OrElseCompose { parser, bind }
    }
}

impl<I, P, T, Q, O> Parser<I> for OrElseCompose<P, O> where
    I: Cursor,
    P: Parser<I, Value = T>,
    Q: Parser<I, Value = T>,
    O: Fn(P::Error) -> Q,
 {
    type Value = T;

    type Error = Q::Error;

    open spec fn ready(&self) -> bool {
        &&& self.parser.ready()
        &&& forall|error: P::Error| call_requires(self.bind, (error,))
        &&& forall|error: P::Error, next: Q| #[trigger]
            call_ensures(self.bind, (error,), next) ==> next.ready()
    }

    open spec fn parsed(&self, start: I, end: I, out: ParseResult<T, Q::Error>) -> bool {
        ||| succeeded_first(&self.parser, start, end, out)
        ||| exists|error: P::Error, next: Q|
            {
                &&& #[trigger] call_ensures(self.bind, (error,), next)
                &&& ran_instead(&self.parser, &next, start, end, error, out.res, out.info)
            }
    }

    fn parse(&self, iter: &mut I) -> (out: ParseResult<T, Q::Error>) {
        let mut info = ParseInfo::default();
        let first = self.parser.parse(iter);
        let ghost inner = first;
        let ghost mid = *iter;
        match first.record_to(&mut info) {
            Ok(value) => {
                let out = info.ok(value);
                proof {
                    assert(inner == ParseResult::<T, P::Error>::success(out.res->Ok_0, out.info));
                }
                out
            },
            Err(error) => {
                let ghost seen = error;
                let next = (self.bind)(error);
                let then = next.parse(iter);
                let ghost then_seen = then;
                let res = then.record_to(&mut info);
                let out = info.with(res);
                proof {
                    assert(self.parser.parsed(*old(iter), mid, inner));
                    assert(next.parsed(mid, *iter, then_seen));
                    assert(call_ensures(self.bind, (seen,), next));
                    assert(ran_instead(
                        &self.parser,
                        &next,
                        *old(iter),
                        *iter,
                        seen,
                        out.res,
                        out.info,
                    ));
                }
                out
            },
        }
    }
}

// Error recovery

/// `parser`, then `recover` whatever `parser` gave. Where `recover`
/// succeeds, the success carries what `parser` gave, value or error.
#[derive(Clone)]
pub struct Continue<P, Q> {
    pub parser: P,
    pub recover: Q,
}

impl<P, Q> Continue<P, Q> {
    pub fn new(parser: P, recover: Q) -> (made: Continue<P, Q>)
        ensures
            made.parser == parser,
            made.recover == recover,
    {
        Continue { parser, recover }
    }
}

impl<I, P, Q> Parser<I> for Continue<P, Q> where
    I: Cursor,
    P: Parser<I>,
    Q: Parser<I, Value = ()>,
 {
    type Value = Result<P::Value, P::Error>;

    type Error = Q::Error;

    open spec fn ready(&self) -> bool {
        self.parser.ready() && self.recover.ready()
    }

    open spec fn parsed(
        &self,
        start: I,
        end: I,
        out: ParseResult<Result<P::Value, P::Error>, Q::Error>,
    ) -> bool {
        exists|mid: I, inner: ParseResult<P::Value, P::Error>, then: ParseResult<(), Q::Error>|
            {
                &&& #[trigger] self.parser.parsed(start, mid, inner)
                &&& #[trigger] self.recover.parsed(mid, end, then)
                &&& out.info == inner.info.followed_by(then.info)
                &&& then.res is Ok ==> out.res == Ok::<Result<P::Value, P::Error>, Q::Error>(
                    inner.res,
                )
                &&& then.res is Err ==> out.res == Err::<Result<P::Value, P::Error>, Q::Error>(
                    then.res->Err_0,
                )
            }
    }

    fn parse(&self, iter: &mut I) -> (out: ParseResult<Result<P::Value, P::Error>, Q::Error>) {
        let mut info = ParseInfo::default();
        let first = self.parser.parse(iter);
        let ghost inner = first;
        let ghost mid = *iter;
        let inner_res = first.record_to(&mut info);
        let then = self.recover.parse(iter);
        let ghost then_seen = then;
        let out = match then.record_to(&mut info) {
            Ok(_) => info.ok(inner_res),
            Err(error) => info.err(error),
        };
        proof {
            assert(self.parser.parsed(*old(iter), mid, inner));
            assert(self.recover.parsed(mid, *iter, then_seen));
        }
        out
    }
}

/// `parser`, and where it fails `recover`. A success of `parser` is carried
/// at once; where `recover` succeeds, the success carries the error of
/// `parser`.
#[derive(Clone)]
pub struct Recover<P, Q> {
    pub parser: P,
    pub recover: Q,
}

impl<P, Q> Recover<P, Q> {
    pub fn new(parser: P, recover: Q) -> (made: Recover<P, Q>)
        ensures
            made.parser == parser,
            made.recover == recover,
    {
        Recover { parser, recover }
    }
}

impl<I, P, Q> Parser<I> for Recover<P, Q> where
    I: Cursor,
    P: Parser<I>,
    Q: Parser<I, Value = ()>,
 {
    type Value = Result<P::Value, P::Error>;

    type Error = Q::Error;

    open spec fn ready(&self) -> bool {
        self.parser.ready() && self.recover.ready()
    }

    open spec fn parsed(
        &self,
        start: I,
        end: I,
        out: ParseResult<Result<P::Value, P::Error>, Q::Error>,
    ) -> bool {
        ||| exists|value: P::Value|
            {
                &&& #[trigger] self.parser.parsed(start, end, ParseResult::success(value, out.info))
                &&& out.res == Ok::<Result<P::Value, P::Error>, Q::Error>(Ok(value))
            }
        ||| exists|error: P::Error, res: Result<(), Q::Error>|
            {
                &&& #[trigger] ran_instead(
                    &self.parser,
                    &self.recover,
                    start,
                    end,
                    error,
                    res,
                    out.info,
                )
                &&& res is Ok ==> out.res == Ok::<Result<P::Value, P::Error>, Q::Error>(
                    Err(error),
                )
                &&& res is Err ==> out.res == Err::<Result<P::Value, P::Error>, Q::Error>(
                    res->Err_0,
                )
            }
    }

    fn parse(&self, iter: &mut I) -> (out: ParseResult<Result<P::Value, P::Error>, Q::Error>) {
        let mut info = ParseInfo::default();
        let first = self.parser.parse(iter);
        let ghost inner = first;
        let ghost mid = *iter;
        match first.record_to(&mut info) {
            Ok(value) => {
                let ghost kept = value;
                let out = info.ok(Ok(value));
                proof {
                    assert(inner == ParseResult::<P::Value, P::Error>::success(kept, out.info));
                }
                out
            },
            Err(error) => {
                let ghost seen = error;
                let then = self.recover.parse(iter);
                let ghost then_seen = then;
                let out = match then.record_to(&mut info) {
                    Ok(_) => info.ok(Err(error)),
                    Err(worse) => info.err(worse),
                };
                proof {
                    assert(self.parser.parsed(*old(iter), mid, inner));
                    assert(self.recover.parsed(mid, *iter, then_seen));
                    assert(ran_instead(
                        &self.parser,
                        &self.recover,
                        *old(iter),
                        *iter,
                        seen,
                        then_seen.res,
                        out.info,
                    ));
                }
                out
            },
        }
    }
}

/// `parser`, whose value is itself a value or an error, with the two levels
/// made one.
#[derive(Clone)]
pub struct AbsorbErr<P> {
    pub parser: P,
}

impl<P> AbsorbErr<P> {
    pub fn new(parser: P) -> (made: AbsorbErr<P>)
        ensures
            made.parser == parser,
    {
        AbsorbErr { parser }
    }
}

impl<I, P, T, E> Parser<I> for AbsorbErr<P> where
    I: Cursor,
    P: Parser<I, Value = Result<T, E>, Error = E>,
 {
    type Value = T;

    type Error = E;

    open spec fn ready(&self) -> bool {
        self.parser.ready()
    }

    open spec fn parsed(&self, start: I, end: I, out: ParseResult<T, E>) -> bool {
        ||| self.parser.parsed(start, end, ParseResult::success(out.res, out.info))
        ||| out.res is Err && self.parser.parsed(
            start,
            end,
            ParseResult::failure(out.res->Err_0, out.info),
        )
    }

    fn parse(&self, iter: &mut I) -> (out: ParseResult<T, E>) {
        let inner = self.parser.parse(iter);
        let ghost witness = inner;
        match inner.res {
            Ok(inner_res) => {
                let out = inner.info.with(inner_res);
                proof {
                    assert(witness == ParseResult::<Result<T, E>, E>::success(out.res, out.info));
                }
                out
            },
            Err(error) => {
                let out = inner.info.err(error);
                proof {
                    assert(witness == ParseResult::<Result<T, E>, E>::failure(
                        out.res->Err_0,
                        out.info,
                    ));
                }
                out
            },
        }
    }
}

// Indirection

/// A borrowed parser, taken as a parser.
#[derive(Clone)]
pub struct RefParser<'p, P> {
    pub parser: &'p P,
}

impl<'p, P> RefParser<'p, P> {
    pub fn new(parser: &'p P) -> (made: RefParser<'p, P>)
        ensures
            made.parser == parser,
    {
        RefParser { parser }
    }
}

impl<'p, I, P> Parser<I> for RefParser<'p, P> where I: Cursor, P: Parser<I> {
    type Value = P::Value;

    type Error = P::Error;

    open spec fn ready(&self) -> bool {
        self.parser.ready()
    }

    open spec fn parsed(&self, start: I, end: I, out: ParseResult<P::Value, P::Error>) -> bool {
        self.parser.parsed(start, end, out)
    }

    fn parse(&self, iter: &mut I) -> (out: ParseResult<P::Value, P::Error>) {
        self.parser.parse(iter)
    }
}

// Application

/// `parser` failed from `from` with `error` and stopped at `to`; `info` is
/// `before` and then the record of the failure.
pub open spec fn then_failed<I: Cursor, P: Parser<I>>(
    parser: &P,
    from: I,
    to: I,
    error: P::Error,
    before: ParseInfo,
    info: ParseInfo,
) -> bool {
    exists|own: ParseInfo|
        {
            &&& #[trigger] parser.parsed(from, to, ParseResult::failure(error, own))
            &&& info == before.followed_by(own)
        }
}

/// `parser` succeeded from `from` with `value` and stopped at `to`; `info`
/// is `before` and then the record of the success.
pub open spec fn then_succeeded<I: Cursor, P: Parser<I>>(
    parser: &P,
    from: I,
    to: I,
    value: P::Value,
    before: ParseInfo,
    info: ParseInfo,
) -> bool {
    exists|own: ParseInfo|
        {
            &&& #[trigger] parser.parsed(from, to, ParseResult::success(value, own))
            &&& info == before.followed_by(own)
        }
}

/// `p1` and then `p2` succeeded from `start` and stopped at `end`.
pub open spec fn led2<I: Cursor, A: Parser<I>, B: Parser<I>>(
    p1: &A,
    p2: &B,
    start: I,
    end: I,
    v1: A::Value,
    v2: B::Value,
    info: ParseInfo,
) -> bool {
    exists|mid: I, before: ParseInfo|
        {
            &&& #[trigger] p1.parsed(start, mid, ParseResult::success(v1, before))
            &&& then_succeeded(p2, mid, end, v2, before, info)
        }
}

/// `p1`, `p2` and then `p3` succeeded from `start` and stopped at `end`.
pub open spec fn led3<I: Cursor, A: Parser<I>, B: Parser<I>, C: Parser<I>>(
    p1: &A,
    p2: &B,
    p3: &C,
    start: I,
    end: I,
    v1: A::Value,
    v2: B::Value,
    v3: C::Value,
    info: ParseInfo,
) -> bool {
    exists|mid: I, before: ParseInfo|
        {
            &&& #[trigger] led2(p1, p2, start, mid, v1, v2, before)
            &&& then_succeeded(p3, mid, end, v3, before, info)
        }
}

/// `p1`, `p2`, `p3` and then `p4` succeeded from `start` and stopped at
/// `end`.
pub open spec fn led4<I: Cursor, A: Parser<I>, B: Parser<I>, C: Parser<I>, D: Parser<I>>(
    p1: &A,
    p2: &B,
    p3: &C,
    p4: &D,
    start: I,
    end: I,
    v1: A::Value,
    v2: B::Value,
    v3: C::Value,
    v4: D::Value,
    info: ParseInfo,
) -> bool {
    exists|mid: I, before: ParseInfo|
        {
            &&& #[trigger] led3(p1, p2, p3, start, mid, v1, v2, v3, before)
            &&& then_succeeded(p4, mid, end, v4, before, info)
        }
}

/// The value of `f`, with nothing read.
pub struct Apply0<F, E> {
    pub f: F,
    pub _e: PhantomData<E>,
}

impl<F, E> Clone for Apply0<F, E> where F: Clone {
    fn clone(&self) -> (copy: Apply0<F, E>)
        ensures
            cloned(self.f, copy.f),
    {
        Apply0 { f: self.f.clone(), _e: PhantomData }
    }
}

impl<F, E> Apply0<F, E> {
    pub fn new(f: F) -> (made: Apply0<F, E>)
        ensures
            made.f == f,
    {
        Apply0 { f, _e: PhantomData }
    }
}

impl<I, F, T, E> Parser<I> for Apply0<F, E> where I: Cursor, F: Fn() -> T {
    type Value = T;

    type Error = E;

    open spec fn ready(&self) -> bool {
        call_requires(self.f, ())
    }

    open spec fn parsed(&self, start: I, end: I, out: ParseResult<T, E>) -> bool {
        &&& end == start
        &&& out.info == ParseInfo::zero()
        &&& out.res is Ok
        &&& call_ensures(self.f, (), out.res->Ok_0)
    }

    fn parse(&self, _iter: &mut I) -> (out: ParseResult<T, E>) {
        ParseInfo::default().ok((self.f)())
    }
}

/// `p1`, and `f` of its value.
#[derive(Clone)]
pub struct Apply1<F, A> {
    pub f: F,
    pub p1: A,
}

impl<F, A> Apply1<F, A> {
    pub fn new(f: F, p1: A) -> (made: Apply1<F, A>)
        ensures
            made.f == f,
            made.p1 == p1,
    {
        Apply1 { f, p1 }
    }
}

impl<I, F, T, E, A> Parser<I> for Apply1<F, A> where
    I: Cursor,
    A: Parser<I, Error = E>,
    F: Fn(A::Value) -> T,
 {
    type Value = T;

    type Error = E;

    open spec fn ready(&self) -> bool {
        &&& self.p1.ready()
        &&& forall|v1: A::Value| call_requires(self.f, (v1,))
    }

    open spec fn parsed(&self, start: I, end: I, out: ParseResult<T, E>) -> bool {
        ||| failed_first(&self.p1, start, end, out)
        ||| exists|v1: A::Value|
            {
                &&& #[trigger] self.p1.parsed(start, end, ParseResult::success(v1, out.info))
                &&& out.res is Ok
                &&& call_ensures(self.f, (v1,), out.res->Ok_0)
            }
    }

    fn parse(&self, iter: &mut I) -> (out: ParseResult<T, E>) {
        let mut info = ParseInfo::default();
        let r1 = self.p1.parse(iter);
        let ghost s1 = r1;
        match r1.record_to(&mut info) {
            Err(error) => {
                proof {
                    assert(self.p1.parsed(*old(iter), *iter, s1));
                }
                info.err(error)
            },
            Ok(v1) => {
                let ghost g1 = v1;
                let out = info.ok((self.f)(v1));
                proof {
                    assert(s1 == ParseResult::<A::Value, E>::success(g1, out.info));
                    assert(call_ensures(self.f, (g1,), out.res->Ok_0));
                }
                out
            },
        }
    }
}

/// `p1`, then `p2`, and `f` of their values.
#[derive(Clone)]
pub struct Apply2<F, A, B> {
    pub f: F,
    pub p1: A,
    pub p2: B,
}

impl<F, A, B> Apply2<F, A, B> {
    pub fn new(f: F, p1: A, p2: B) -> (made: Apply2<F, A, B>)
        ensures
            made.f == f,
            made.p1 == p1,
            made.p2 == p2,
    {
        Apply2 { f, p1, p2 }
    }
}

impl<I, F, T, E, A, B> Parser<I> for Apply2<F, A, B> where
    I: Cursor,
    A: Parser<I, Error = E>,
    B: Parser<I, Error = E>,
    F: Fn(A::Value, B::Value) -> T,
 {
    type Value = T;

    type Error = E;

    open spec fn ready(&self) -> bool {
        &&& self.p1.ready()
        &&& self.p2.ready()
        &&& forall|v1: A::Value, v2: B::Value| call_requires(self.f, (v1, v2))
    }

    open spec fn parsed(&self, start: I, end: I, out: ParseResult<T, E>) -> bool {
        ||| failed_first(&self.p1, start, end, out)
        ||| exists|c1: I, v1: A::Value, i1: ParseInfo|
            {
                &&& #[trigger] self.p1.parsed(start, c1, ParseResult::success(v1, i1))
                &&& out.res is Err
                &&& then_failed(&self.p2, c1, end, out.res->Err_0, i1, out.info)
            }
        ||| exists|v1: A::Value, v2: B::Value|
            {
                &&& led2(&self.p1, &self.p2, start, end, v1, v2, out.info)
                &&& out.res is Ok
                &&& #[trigger] call_ensures(self.f, (v1, v2), out.res->Ok_0)
            }
    }

    fn parse(&self, iter: &mut I) -> (out: ParseResult<T, E>) {
        let mut info = ParseInfo::default();
        let r1 = self.p1.parse(iter);
        let ghost s1 = r1;
        let ghost c1 = *iter;
        let v1 = match r1.record_to(&mut info) {
            Err(error) => {
                proof {
                    assert(self.p1.parsed(*old(iter), *iter, s1));
                }
                return info.err(error);
            },
            Ok(v1) => v1,
        };
        let ghost g1 = v1;
        let ghost i1 = info;
        proof {
            assert(s1 == ParseResult::<A::Value, E>::success(g1, i1));
        }
        let r2 = self.p2.parse(iter);
        let ghost s2 = r2;
        let v2 = match r2.record_to(&mut info) {
            Err(error) => {
                proof {
                    assert(s2 == ParseResult::<B::Value, E>::failure(error, s2.info));
                    assert(then_failed(&self.p2, c1, *iter, error, i1, info));
                }
                return info.err(error);
            },
            Ok(v2) => v2,
        };
        let ghost g2 = v2;
        proof {
            assert(s2 == ParseResult::<B::Value, E>::success(g2, s2.info));
            assert(then_succeeded(&self.p2, c1, *iter, g2, i1, info));
            assert(led2(&self.p1, &self.p2, *old(iter), *iter, g1, g2, info));
        }
        let out = info.ok((self.f)(v1, v2));
        proof {
            assert(call_ensures(self.f, (g1, g2), out.res->Ok_0));
        }
        out
    }
}

/// `p1`, `p2`, then `p3`, and `f` of their values.
#[derive(Clone)]
pub struct Apply3<F, A, B, C> {
    pub f: F,
    pub p1: A,
    pub p2: B,
    pub p3: C,
}

impl<F, A, B, C> Apply3<F, A, B, C> {
    pub fn new(f: F, p1: A, p2: B, p3: C) -> (made: Apply3<F, A, B, C>)
        ensures
            made.f == f,
            made.p1 == p1,
            made.p2 == p2,
            made.p3 == p3,
    {
        Apply3 { f, p1, p2, p3 }
    }
}

impl<I, F, T, E, A, B, C> Parser<I> for Apply3<F, A, B, C> where
    I: Cursor,
    A: Parser<I, Error = E>,
    B: Parser<I, Error = E>,
    C: Parser<I, Error = E>,
    F: Fn(A::Value, B::Value, C::Value) -> T,
 {
    type Value = T;

    type Error = E;

    open spec fn ready(&self) -> bool {
        &&& self.p1.ready()
        &&& self.p2.ready()
        &&& self.p3.ready()
        &&& forall|v1: A::Value, v2: B::Value, v3: C::Value|
            call_requires(self.f, (v1, v2, v3))
    }

    open spec fn parsed(&self, start: I, end: I, out: ParseResult<T, E>) -> bool {
        ||| failed_first(&self.p1, start, end, out)
        ||| exists|c1: I, v1: A::Value, i1: ParseInfo|
            {
                &&& #[trigger] self.p1.parsed(start, c1, ParseResult::success(v1, i1))
                &&& out.res is Err
                &&& then_failed(&self.p2, c1, end, out.res->Err_0, i1, out.info)
            }
        ||| exists|c2: I, v1: A::Value, v2: B::Value, i2: ParseInfo|
            {
                &&& #[trigger] led2(&self.p1, &self.p2, start, c2, v1, v2, i2)
                &&& out.res is Err
                &&& then_failed(&self.p3, c2, end, out.res->Err_0, i2, out.info)
            }
        ||| exists|v1: A::Value, v2: B::Value, v3: C::Value|
            {
                &&& led3(&self.p1, &self.p2, &self.p3, start, end, v1, v2, v3, out.info)
                &&& out.res is Ok
                &&& #[trigger] call_ensures(self.f, (v1, v2, v3), out.res->Ok_0)
            }
    }

    fn parse(&self, iter: &mut I) -> (out: ParseResult<T, E>) {
        let mut info = ParseInfo::default();
        let r1 = self.p1.parse(iter);
        let ghost s1 = r1;
        let ghost c1 = *iter;
        let v1 = match r1.record_to(&mut info) {
            Err(error) => {
                proof {
                    assert(self.p1.parsed(*old(iter), *iter, s1));
                }
                return info.err(error);
            },
            Ok(v1) => v1,
        };
        let ghost g1 = v1;
        let ghost i1 = info;
        proof {
            assert(s1 == ParseResult::<A::Value, E>::success(g1, i1));
        }
        let r2 = self.p2.parse(iter);
        let ghost s2 = r2;
        let ghost c2 = *iter;
        let v2 = match r2.record_to(&mut info) {
            Err(error) => {
                proof {
                    assert(s2 == ParseResult::<B::Value, E>::failure(error, s2.info));
                    assert(then_failed(&self.p2, c1, *iter, error, i1, info));
                }
                return info.err(error);
            },
            Ok(v2) => v2,
        };
        let ghost g2 = v2;
        let ghost i2 = info;
        proof {
            assert(s2 == ParseResult::<B::Value, E>::success(g2, s2.info));
            assert(then_succeeded(&self.p2, c1, c2, g2, i1, i2));
            assert(led2(&self.p1, &self.p2, *old(iter), c2, g1, g2, i2));
        }
        let r3 = self.p3.parse(iter);
        let ghost s3 = r3;
        let v3 = match r3.record_to(&mut info) {
            Err(error) => {
                proof {
                    assert(s3 == ParseResult::<C::Value, E>::failure(error, s3.info));
                    assert(then_failed(&self.p3, c2, *iter, error, i2, info));
                }
                return info.err(error);
            },
            Ok(v3) => v3,
        };
        let ghost g3 = v3;
        proof {
            assert(s3 == ParseResult::<C::Value, E>::success(g3, s3.info));
            assert(then_succeeded(&self.p3, c2, *iter, g3, i2, info));
            assert(led3(&self.p1, &self.p2, &self.p3, *old(iter), *iter, g1, g2, g3, info));
        }
        let out = info.ok((self.f)(v1, v2, v3));
        proof {
            assert(call_ensures(self.f, (g1, g2, g3), out.res->Ok_0));
        }
        out
    }
}

/// `p1`, `p2`, `p3`, then `p4`, and `f` of their values.
#[derive(Clone)]
pub struct Apply4<F, A, B, C, D> {
    pub f: F,
    pub p1: A,
    pub p2: B,
    pub p3: C,
    pub p4: D,
}

impl<F, A, B, C, D> Apply4<F, A, B, C, D> {
    pub fn new(f: F, p1: A, p2: B, p3: C, p4: D) -> (made: Apply4<F, A, B, C, D>)
        ensures
            made.f == f,
            made.p1 == p1,
            made.p2 == p2,
            made.p3 == p3,
            made.p4 == p4,
    {
        Apply4 { f, p1, p2, p3, p4 }
    }
}

impl<I, F, T, E, A, B, C, D> Parser<I> for Apply4<F, A, B, C, D> where
    I: Cursor,
    A: Parser<I, Error = E>,
    B: Parser<I, Error = E>,
    C: Parser<I, Error = E>,
    D: Parser<I, Error = E>,
    F: Fn(A::Value, B::Value, C::Value, D::Value) -> T,
 {
    type Value = T;

    type Error = E;

    open spec fn ready(&self) -> bool {
        &&& self.p1.ready()
        &&& self.p2.ready()
        &&& self.p3.ready()
        &&& self.p4.ready()
        &&& forall|v1: A::Value, v2: B::Value, v3: C::Value, v4: D::Value|
            call_requires(self.f, (v1, v2, v3, v4))
    }

    open spec fn parsed(&self, start: I, end: I, out: ParseResult<T, E>) -> bool {
        ||| failed_first(&self.p1, start, end, out)
        ||| exists|c1: I, v1: A::Value, i1: ParseInfo|
            {
                &&& #[trigger] self.p1.parsed(start, c1, ParseResult::success(v1, i1))
                &&& out.res is Err
                &&& then_failed(&self.p2, c1, end, out.res->Err_0, i1, out.info)
            }
        ||| exists|c2: I, v1: A::Value, v2: B::Value, i2: ParseInfo|
            {
                &&& #[trigger] led2(&self.p1, &self.p2, start, c2, v1, v2, i2)
                &&& out.res is Err
                &&& then_failed(&self.p3, c2, end, out.res->Err_0, i2, out.info)
            }
        ||| exists|c3: I, v1: A::Value, v2: B::Value, v3: C::Value, i3: ParseInfo|
            {
                &&& #[trigger] led3(&self.p1, &self.p2, &self.p3, start, c3, v1, v2, v3, i3)
                &&& out.res is Err
                &&& then_failed(&self.p4, c3, end, out.res->Err_0, i3, out.info)
            }
        ||| exists|v1: A::Value, v2: B::Value, v3: C::Value, v4: D::Value|
            {
                &&& led4(
                    &self.p1,
                    &self.p2,
                    &self.p3,
                    &self.p4,
                    start,
                    end,
                    v1,
                    v2,
                    v3,
                    v4,
                    out.info,
                )
                &&& out.res is Ok
                &&& #[trigger] call_ensures(self.f, (v1, v2, v3, v4), out.res->Ok_0)
            }
    }

    fn parse(&self, iter: &mut I) -> (out: ParseResult<T, E>) {
        let mut info = ParseInfo::default();
        let r1 = self.p1.parse(iter);
        let ghost s1 = r1;
        let ghost c1 = *iter;
        let v1 = match r1.record_to(&mut info) {
            Err(error) => {
                proof {
                    assert(self.p1.parsed(*old(iter), *iter, s1));
                }
                return info.err(error);
            },
            Ok(v1) => v1,
        };
        let ghost g1 = v1;
        let ghost i1 = info;
        proof {
            assert(s1 == ParseResult::<A::Value, E>::success(g1, i1));
        }
        let r2 = self.p2.parse(iter);
        let ghost s2 = r2;
        let ghost c2 = *iter;
        let v2 = match r2.record_to(&mut info) {
            Err(error) => {
                proof {
                    assert(s2 == ParseResult::<B::Value, E>::failure(error, s2.info));
                    assert(then_failed(&self.p2, c1, *iter, error, i1, info));
                }
                return info.err(error);
            },
            Ok(v2) => v2,
        };
        let ghost g2 = v2;
        let ghost i2 = info;
        proof {
            assert(s2 == ParseResult::<B::Value, E>::success(g2, s2.info));
            assert(then_succeeded(&self.p2, c1, c2, g2, i1, i2));
            assert(led2(&self.p1, &self.p2, *old(iter), c2, g1, g2, i2));
        }
        let r3 = self.p3.parse(iter);
        let ghost s3 = r3;
        let ghost c3 = *iter;
        let v3 = match r3.record_to(&mut info) {
            Err(error) => {
                proof {
                    assert(s3 == ParseResult::<C::Value, E>::failure(error, s3.info));
                    assert(then_failed(&self.p3, c2, *iter, error, i2, info));
                }
                return info.err(error);
            },
            Ok(v3) => v3,
        };
        let ghost g3 = v3;
        let ghost i3 = info;
        proof {
            assert(s3 == ParseResult::<C::Value, E>::success(g3, s3.info));
            assert(then_succeeded(&self.p3, c2, c3, g3, i2, i3));
            assert(led3(&self.p1, &self.p2, &self.p3, *old(iter), c3, g1, g2, g3, i3));
        }
        let r4 = self.p4.parse(iter);
        let ghost s4 = r4;
        let v4 = match r4.record_to(&mut info) {
            Err(error) => {
                proof {
                    assert(s4 == ParseResult::<D::Value, E>::failure(error, s4.info));
                    assert(then_failed(&self.p4, c3, *iter, error, i3, info));
                }
                return info.err(error);
            },
            Ok(v4) => v4,
        };
        let ghost g4 = v4;
        proof {
            assert(s4 == ParseResult::<D::Value, E>::success(g4, s4.info));
            assert(then_succeeded(&self.p4, c3, *iter, g4, i3, info));
            assert(led4(
                &self.p1,
                &self.p2,
                &self.p3,
                &self.p4,
                *old(iter),
                *iter,
                g1,
                g2,
                g3,
                g4,
                info,
            ));
        }
        let out = info.ok((self.f)(v1, v2, v3, v4));
        proof {
            assert(call_ensures(self.f, (g1, g2, g3, g4), out.res->Ok_0));
        }
        out
    }
}

} // verus!

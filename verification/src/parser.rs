use vstd::prelude::*;
use crate::cursor::Cursor;
use crate::info::ParseInfo;

verus! {

/// What one call of a parser gave: the value or the error, and the record
/// of how far the parser went.
pub struct ParseResult<T, E> {
    pub res: Result<T, E>,
    pub info: ParseInfo,
}

impl<T, E> ParseResult<T, E> {
    /// The success with `value` and `info`.
    pub open spec fn success(value: T, info: ParseInfo) -> ParseResult<T, E> {
        ParseResult { res: Ok(value), info }
    }

    /// The failure with `error` and `info`.
    pub open spec fn failure(error: E, info: ParseInfo) -> ParseResult<T, E> {
        ParseResult { res: Err(error), info }
    }

    /// Appends the record to `info` and hands out the value or the error.
    pub fn record_to(self, info: &mut ParseInfo) -> (res: Result<T, E>)
        ensures
            res == self.res,
            *final(info) == old(info).followed_by(self.info),
    {
        info.record(self.info);
        self.res
    }
}

impl ParseInfo {
    /// A success with this record.
    pub fn ok<T, E>(self, value: T) -> (out: ParseResult<T, E>)
        ensures
            out.res == Ok::<T, E>(value),
            out.info == self,
    {
        ParseResult { res: Ok(value), info: self }
    }

    /// A failure with this record.
    pub fn err<T, E>(self, error: E) -> (out: ParseResult<T, E>)
        ensures
            out.res == Err::<T, E>(error),
            out.info == self,
    {
        ParseResult { res: Err(error), info: self }
    }

    /// `res` with this record.
    pub fn with<T, E>(self, res: Result<T, E>) -> (out: ParseResult<T, E>)
        ensures
            out.res == res,
            out.info == self,
    {
        ParseResult { res, info: self }
    }
}

/// `parser` may give `out` from `start` when its cursor is put back
/// afterwards: the value or the error is the parser's, the record keeps the
/// parser's lookahead and counts nothing as consumed.
pub open spec fn probed<I: Cursor, P: Parser<I> + ?Sized>(
    parser: &P,
    start: I,
    out: ParseResult<P::Value, P::Error>,
) -> bool {
    exists|mid: I, inner: ParseResult<P::Value, P::Error>|
        {
            &&& #[trigger] parser.parsed(start, mid, inner)
            &&& out.res == inner.res
            &&& out.info == inner.info.rewound()
        }
}

/// Rollback on failure: a success is the parser's own, a failure leaves the
/// cursor where it was.
pub open spec fn attempted<I: Cursor, P: Parser<I> + ?Sized>(
    parser: &P,
    start: I,
    end: I,
    out: ParseResult<P::Value, P::Error>,
) -> bool {
    if out.res is Ok {
        parser.parsed(start, end, out)
    } else {
        end == start && probed(parser, start, out)
    }
}

/// Rollback on success: a failure is the parser's own, a success leaves the
/// cursor where it was.
pub open spec fn scried<I: Cursor, P: Parser<I> + ?Sized>(
    parser: &P,
    start: I,
    end: I,
    out: ParseResult<P::Value, P::Error>,
) -> bool {
    if out.res is Ok {
        end == start && probed(parser, start, out)
    } else {
        parser.parsed(start, end, out)
    }
}

/// Rollback whatever came out.
pub open spec fn backtracked<I: Cursor, P: Parser<I> + ?Sized>(
    parser: &P,
    start: I,
    end: I,
    out: ParseResult<P::Value, P::Error>,
) -> bool {
    end == start && probed(parser, start, out)
}

/// A parser: from a cursor to a value or an error, with the record of what
/// it consumed and examined. The cursor is left where the parser stopped.
pub trait Parser<I: Cursor> {
    type Value;

    type Error;

    /// The parser has all it needs to be called: the functions it holds can
    /// be called, the parsers it repeats move forward.
    spec fn ready(&self) -> bool;

    /// From `start` the parser may stop at `end` and give `out`.
    spec fn parsed(
        &self,
        start: I,
        end: I,
        out: ParseResult<Self::Value, Self::Error>,
    ) -> bool;

    fn parse(&self, iter: &mut I) -> (out: ParseResult<Self::Value, Self::Error>)
        requires
            self.ready(),
        ensures
            self.parsed(*old(iter), *final(iter), out),
    ;

    /// Runs the parser and puts the cursor back if it failed.
    fn attempt_parse(&self, iter: &mut I) -> (out: ParseResult<Self::Value, Self::Error>)
        requires
            self.ready(),
        ensures
            out.res is Ok ==> self.parsed(*old(iter), *final(iter), out),
            out.res is Err ==> {
                &&& *final(iter) == *old(iter)
                &&& out.info.taken == 0
                &&& exists|mid: I, inner: ParseResult<Self::Value, Self::Error>|
                    {
                        &&& #[trigger] self.parsed(*old(iter), mid, inner)
                        &&& out.res == inner.res
                        &&& out.info == inner.info.rewound()
                    }
            },
    {
        let backup = iter.snapshot();
        let inner = self.parse(iter);
        let ghost witness = inner;
        match inner.res {
            Ok(value) => {
                let out = ParseResult { res: Ok(value), info: inner.info };
                assert(out == witness);
                out
            },
            Err(error) => {
                let mut info = inner.info;
                info.rewind();
                let out = ParseResult { res: Err(error), info };
                proof {
                    assert(self.parsed(*old(iter), *iter, witness));
                    assert(out.res == witness.res);
                }
                *iter = backup;
                out
            },
        }
    }

    /// Runs the parser and puts the cursor back if it succeeded.
    fn scry_parse(&self, iter: &mut I) -> (out: ParseResult<Self::Value, Self::Error>)
        requires
            self.ready(),
        ensures
            out.res is Err ==> self.parsed(*old(iter), *final(iter), out),
            out.res is Ok ==> {
                &&& *final(iter) == *old(iter)
                &&& out.info.taken == 0
                &&& exists|mid: I, inner: ParseResult<Self::Value, Self::Error>|
                    {
                        &&& #[trigger] self.parsed(*old(iter), mid, inner)
                        &&& out.res == inner.res
                        &&& out.info == inner.info.rewound()
                    }
            },
    {
        let backup = iter.snapshot();
        let inner = self.parse(iter);
        let ghost witness = inner;
        match inner.res {
            Ok(value) => {
                let mut info = inner.info;
                info.rewind();
                let out = ParseResult { res: Ok(value), info };
                proof {
                    assert(self.parsed(*old(iter), *iter, witness));
                    assert(out.res == witness.res);
                }
                *iter = backup;
                out
            },
            Err(error) => {
                let out = ParseResult { res: Err(error), info: inner.info };
                assert(out == witness);
                out
            },
        }
    }

    /// Runs the parser and puts the cursor back.
    fn backtrack_parse(&self, iter: &mut I) -> (out: ParseResult<Self::Value, Self::Error>)
        requires
            self.ready(),
        ensures
            *final(iter) == *old(iter),
            out.info.taken == 0,
            exists|mid: I, inner: ParseResult<Self::Value, Self::Error>|
            {
                &&& #[trigger] self.parsed(*old(iter), mid, inner)
                &&& out.res == inner.res
                &&& out.info == inner.info.rewound()
            },
    {
        let mut probe = iter.snapshot();
        let inner = self.parse(&mut probe);
        let mut info = inner.info;
        info.rewind();
        let out = ParseResult { res: inner.res, info };
        proof {
            assert(self.parsed(*old(iter), probe, inner));
        }
        out
    }
}

/// After a failure under rollback on failure the cursor is where it was and
/// nothing counts as consumed; a success is the parser's own, with all that
/// it consumed.
pub proof fn lemma_attempt_position<I: Cursor, P: Parser<I>>(
    parser: &P,
    start: I,
    end: I,
    out: ParseResult<P::Value, P::Error>,
)
    requires
        attempted(parser, start, end, out),
    ensures
        out.res is Err ==> end == start && out.info.taken == 0,
        out.res is Ok ==> parser.parsed(start, end, out),
{
}

/// After a success under rollback on success the cursor is where it was and
/// nothing counts as consumed; a failure is the parser's own.
pub proof fn lemma_scry_position<I: Cursor, P: Parser<I>>(
    parser: &P,
    start: I,
    end: I,
    out: ParseResult<P::Value, P::Error>,
)
    requires
        scried(parser, start, end, out),
    ensures
        out.res is Ok ==> end == start && out.info.taken == 0,
        out.res is Err ==> parser.parsed(start, end, out),
{
}

/// After any outcome under unconditional rollback the cursor is where it
/// was and nothing counts as consumed.
pub proof fn lemma_backtrack_position<I: Cursor, P: Parser<I>>(
    parser: &P,
    start: I,
    end: I,
    out: ParseResult<P::Value, P::Error>,
)
    requires
        backtracked(parser, start, end, out),
    ensures
        end == start,
        out.info.taken == 0,
{
}

} // verus!

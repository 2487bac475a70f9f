use vstd::prelude::*;
use std::marker::PhantomData;
use crate::combinators::{succeeded_first, then_failed, then_succeeded};
use crate::cursor::{take_ahead, Cursor};
use crate::info::ParseInfo;
use crate::parser::{ParseResult, Parser};

verus! {

/// A failure inside the region named by the first field: its entry had
/// succeeded, and its body failed with the second field.
pub struct BranchInternalError<Pos, Tokens>(pub String, pub ParseError<Pos, Tokens>);

/// A failure at the entry of a region, which may have a name: what the entry
/// expected.
pub struct BranchEntryError<Tokens>(pub Option<String>, pub Tokens);

/// How one alternative of a branch failed.
pub enum BranchError<Pos, Tokens> {
    Internal(BranchInternalError<Pos, Tokens>),
    Entry(BranchEntryError<Tokens>),
}

impl<Pos, Tokens> vstd::std_specs::convert::FromSpecImpl<BranchInternalError<Pos, Tokens>> for BranchError<Pos, Tokens> {
    open spec fn obeys_from_spec() -> bool {
        true
    }

    open spec fn from_spec(value: BranchInternalError<Pos, Tokens>) -> Self {
        BranchError::Internal(value)
    }
}

impl<Pos, Tokens> From<BranchInternalError<Pos, Tokens>> for BranchError<Pos, Tokens> {
    fn from(value: BranchInternalError<Pos, Tokens>) -> (error: Self) {
        BranchError::Internal(value)
    }
}

impl<Pos, Tokens> vstd::std_specs::convert::FromSpecImpl<BranchEntryError<Tokens>> for BranchError<Pos, Tokens> {
    open spec fn obeys_from_spec() -> bool {
        true
    }

    open spec fn from_spec(value: BranchEntryError<Tokens>) -> Self {
        BranchError::Entry(value)
    }
}

impl<Pos, Tokens> From<BranchEntryError<Tokens>> for BranchError<Pos, Tokens> {
    fn from(value: BranchEntryError<Tokens>) -> (error: Self) {
        BranchError::Entry(value)
    }
}

/// The error of a branch. Where an alternative failed inside its region, the
/// last such failure with the position; else what the entries expected, what
/// was found instead, and the position.
pub enum ParseError<Pos, Tokens> {
    ContextualisedError(Box<BranchInternalError<Pos, Tokens>>, Pos),
    BranchingError(Vec<BranchEntryError<Tokens>>, Tokens, Pos),
    Bundle(Vec<ParseError<Pos, Tokens>>),
}

/// The index of the last failure inside a region, if there is one.
pub open spec fn last_internal<Pos, Tokens>(errs: Seq<BranchError<Pos, Tokens>>) -> Option<int>
    decreases errs.len(),
{
    if errs.len() == 0 {
        None
    } else if errs.last() is Internal {
        Some(errs.len() - 1)
    } else {
        last_internal(errs.drop_last())
    }
}

/// Among the failures of a branch the last one inside a region is picked,
/// whatever came before it; there is none only where every alternative
/// failed at its entry.
pub proof fn lemma_last_internal<Pos, Tokens>(errs: Seq<BranchError<Pos, Tokens>>)
    ensures
        match last_internal(errs) {
            Some(at) => {
                &&& 0 <= at < errs.len()
                &&& errs[at] is Internal
                &&& forall|later: int| at < later < errs.len() ==> errs[later] is Entry
            },
            None => forall|index: int| 0 <= index < errs.len() ==> errs[index] is Entry,
        },
    decreases errs.len(),
{
    if errs.len() > 0 && !(errs.last() is Internal) {
        lemma_last_internal(errs.drop_last());
        assert forall|index: int| 0 <= index < errs.len() - 1 implies errs[index]
            == errs.drop_last()[index] by {}
    }
}

/// The number of tokens of the longest expectation.
pub open spec fn longest_entry<T>(starts: Seq<BranchEntryError<Vec<T>>>) -> nat
    decreases starts.len(),
{
    if starts.len() == 0 {
        0
    } else {
        let before = longest_entry(starts.drop_last());
        let own = starts.last().1@.len();
        if own > before {
            own
        } else {
            before
        }
    }
}

/// `out` is the one error made of the failures `errs` of a branch's
/// alternatives, at the cursor `iter`. The last failure inside a region
/// wins. Where there is none, the entries' expectations are bundled, last
/// alternative first, with as many of the tokens ahead as the longest
/// expectation has, or all that are left.
pub open spec fn collected<I: Cursor, Pos, F: Fn(&I) -> Pos>(
    iter: I,
    errs: Seq<BranchError<Pos, Vec<I::Token>>>,
    get_pos: F,
    out: ParseError<Pos, Vec<I::Token>>,
) -> bool {
    match last_internal(errs) {
        Some(at) => {
            &&& out is ContextualisedError
            &&& *out->ContextualisedError_0 == errs[at]->Internal_0
            &&& call_ensures(get_pos, (&iter,), out->ContextualisedError_1)
        },
        None => {
            &&& out is BranchingError
            &&& out->BranchingError_0@.len() == errs.len()
            &&& forall|index: int|
                0 <= index < errs.len() ==> errs[errs.len() - 1 - index] == BranchError::<
                    Pos,
                    Vec<I::Token>,
                >::Entry(#[trigger] out->BranchingError_0@[index])
            &&& out->BranchingError_1@ == iter.remaining().take(
                if longest_entry(out->BranchingError_0@) <= iter.remaining().len() {
                    longest_entry(out->BranchingError_0@) as int
                } else {
                    iter.remaining().len() as int
                },
            )
            &&& call_ensures(get_pos, (&iter,), out->BranchingError_2)
        },
    }
}

impl<Pos, T> ParseError<Pos, Vec<T>> {
    /// Makes one error of the failures of a branch's alternatives.
    pub fn collect_branch<I, F>(iter: &I, errs: Vec<BranchError<Pos, Vec<T>>>, get_pos: F) -> (out:
        ParseError<Pos, Vec<T>>) where I: Cursor<Token = T>, F: Fn(&I) -> Pos
        requires
            call_requires(get_pos, (iter,)),
        ensures
            collected(*iter, errs@, get_pos, out),
    {
        let ghost all = errs@;
        let mut rest = errs;
        let mut starts: Vec<BranchEntryError<Vec<T>>> = Vec::new();
        let mut longest: usize = 0;
        while rest.len() > 0
            invariant
                all == errs@,
                rest@.len() <= all.len(),
                rest@ == all.take(rest@.len() as int),
                last_internal(all) == last_internal(rest@),
                starts@.len() == all.len() - rest@.len(),
                forall|index: int|
                    0 <= index < starts@.len() ==> all[all.len() - 1 - index] == BranchError::<
                        Pos,
                        Vec<T>,
                    >::Entry(#[trigger] starts@[index]),
                longest == longest_entry(starts@),
                call_requires(get_pos, (iter,)),
            decreases rest@.len(),
        {
            let ghost before = rest@;
            let last = rest.pop();
            proof {
                assert(rest@ =~= before.drop_last());
                assert(rest@ =~= all.take(rest@.len() as int));
                assert(before.last() == all[rest@.len() as int]);
            }
            match last.unwrap() {
                BranchError::Internal(inner) => {
                    let pos = get_pos(iter);
                    proof {
                        assert(before.last() is Internal);
                        assert(last_internal(before) == Some(before.len() - 1));
                        assert(all[before.len() - 1]->Internal_0 == inner);
                    }
                    let out = ParseError::ContextualisedError(Box::new(inner), pos);
                    proof {
                        assert(*out->ContextualisedError_0 == inner);
                    }
                    return out;
                },
                BranchError::Entry(entry) => {
                    let ghost shorter = starts@;
                    if entry.1.len() > longest {
                        longest = entry.1.len();
                    }
                    starts.push(entry);
                    proof {
                        assert(starts@.drop_last() =~= shorter);
                    }
                },
            }
        }
        let found = take_ahead(iter, longest);
        let pos = get_pos(iter);
        ParseError::BranchingError(starts, found, pos)
    }
}

/// A named alternative: a short entry test `start` and a `body`. A failure
/// of the entry says that the alternative was not taken; a failure of the
/// body, that it failed inside.
#[derive(Clone)]
pub struct Region<S, B> {
    pub name: String,
    pub start: S,
    pub body: B,
}

impl<S, B> Region<S, B> {
    pub fn new(name: String, start: S, body: B) -> (made: Region<S, B>)
        ensures
            made.name == name,
            made.start == start,
            made.body == body,
    {
        Region { name, start, body }
    }
}

impl<I, S, B, Pos, Tokens> Parser<I> for Region<S, B> where
    I: Cursor,
    S: Parser<I, Error = Tokens>,
    B: Parser<I, Error = ParseError<Pos, Tokens>>,
 {
    type Value = B::Value;

    type Error = BranchError<Pos, Tokens>;

    open spec fn ready(&self) -> bool {
        self.start.ready() && self.body.ready()
    }

    open spec fn parsed(
        &self,
        start: I,
        end: I,
        out: ParseResult<B::Value, BranchError<Pos, Tokens>>,
    ) -> bool {
        ||| exists|expected: Tokens|
            {
                &&& #[trigger] self.start.parsed(
                    start,
                    end,
                    ParseResult::failure(expected, out.info),
                )
                &&& out.res == Err::<B::Value, BranchError<Pos, Tokens>>(
                    BranchError::Entry(BranchEntryError(Some(self.name), expected)),
                )
            }
        ||| exists|mid: I, entered: S::Value, before: ParseInfo|
            {
                &&& #[trigger] self.start.parsed(
                    start,
                    mid,
                    ParseResult::success(entered, before),
                )
                &&& {
                    ||| out.res is Ok && then_succeeded(
                        &self.body,
                        mid,
                        end,
                        out.res->Ok_0,
                        before,
                        out.info,
                    )
                    ||| exists|inner: ParseError<Pos, Tokens>|
                        {
                            &&& #[trigger] then_failed(
                                &self.body,
                                mid,
                                end,
                                inner,
                                before,
                                out.info,
                            )
                            &&& out.res == Err::<B::Value, BranchError<Pos, Tokens>>(
                                BranchError::Internal(BranchInternalError(self.name, inner)),
                            )
                        }
                }
            }
    }

    fn parse(&self, iter: &mut I) -> (out: ParseResult<B::Value, BranchError<Pos, Tokens>>) {
        let mut info = ParseInfo::default();
        let entry = self.start.parse(iter);
        let ghost entry_seen = entry;
        let ghost mid = *iter;
        match entry.record_to(&mut info) {
            Err(expected) => {
                let out = info.err(
                    BranchError::Entry(BranchEntryError(Some(self.name.clone()), expected)),
                );
                proof {
                    assert(entry_seen == ParseResult::<S::Value, Tokens>::failure(
                        expected,
                        out.info,
                    ));
                }
                out
            },
            Ok(entered) => {
                let ghost before = info;
                proof {
                    assert(entry_seen == ParseResult::<S::Value, Tokens>::success(entered, before));
                }
                let inside = self.body.parse(iter);
                let ghost inside_seen = inside;
                match inside.record_to(&mut info) {
                    Ok(value) => {
                        let out = info.ok(value);
                        proof {
                            assert(inside_seen == ParseResult::<
                                B::Value,
                                ParseError<Pos, Tokens>,
                            >::success(out.res->Ok_0, inside_seen.info));
                            assert(then_succeeded(
                                &self.body,
                                mid,
                                *iter,
                                out.res->Ok_0,
                                before,
                                out.info,
                            ));
                        }
                        out
                    },
                    Err(inner) => {
                        let out = info.err(
                            BranchError::Internal(BranchInternalError(self.name.clone(), inner)),
                        );
                        proof {
                            assert(inside_seen == ParseResult::<
                                B::Value,
                                ParseError<Pos, Tokens>,
                            >::failure(inner, inside_seen.info));
                            assert(then_failed(&self.body, mid, *iter, inner, before, out.info));
                        }
                        out
                    },
                }
            },
        }
    }
}

/// An alternative that is its entry test alone, with or without a name.
pub struct Stub<S, Pos> {
    pub name: Option<String>,
    pub start: S,
    pub _p: PhantomData<Pos>,
}

impl<S, Pos> Clone for Stub<S, Pos> where S: Clone {
    fn clone(&self) -> (copy: Stub<S, Pos>)
        ensures
            copy.name == self.name,
            cloned(self.start, copy.start),
    {
        Stub { name: self.name.clone(), start: self.start.clone(), _p: PhantomData }
    }
}

impl<S, Pos> Stub<S, Pos> {
    pub fn new(name: Option<String>, start: S) -> (made: Stub<S, Pos>)
        ensures
            made.name == name,
            made.start == start,
    {
        Stub { name, start, _p: PhantomData }
    }
}

impl<I, S, Pos, Tokens> Parser<I> for Stub<S, Pos> where I: Cursor, S: Parser<I, Error = Tokens> {
    type Value = S::Value;

    type Error = BranchError<Pos, Tokens>;

    open spec fn ready(&self) -> bool {
        self.start.ready()
    }

    open spec fn parsed(
        &self,
        start: I,
        end: I,
        out: ParseResult<S::Value, BranchError<Pos, Tokens>>,
    ) -> bool {
        ||| succeeded_first(&self.start, start, end, out)
        ||| exists|expected: Tokens|
            {
                &&& #[trigger] self.start.parsed(
                    start,
                    end,
                    ParseResult::failure(expected, out.info),
                )
                &&& out.res == Err::<S::Value, BranchError<Pos, Tokens>>(
                    BranchError::Entry(BranchEntryError(self.name, expected)),
                )
            }
    }

    fn parse(&self, iter: &mut I) -> (out: ParseResult<S::Value, BranchError<Pos, Tokens>>) {
        let entry = self.start.parse(iter);
        let ghost entry_seen = entry;
        match entry.res {
            Ok(value) => {
                let out = entry.info.ok(value);
                proof {
                    assert(entry_seen == ParseResult::<S::Value, Tokens>::success(
                        out.res->Ok_0,
                        out.info,
                    ));
                }
                out
            },
            Err(expected) => {
                let out = entry.info.err(
                    BranchError::Entry(BranchEntryError(self.name.clone(), expected)),
                );
                proof {
                    assert(entry_seen == ParseResult::<S::Value, Tokens>::failure(
                        expected,
                        out.info,
                    ));
                }
                out
            },
        }
    }
}

// Branching

/// `get_pos` can be called at every cursor.
pub open spec fn places<I, Pos, F: Fn(&I) -> Pos>(get_pos: F) -> bool {
    forall|iter: I| call_requires(get_pos, (&iter,))
}

/// `b1` and then `b2` failed from `start` and stopped at `end`.
pub open spec fn fell2<I: Cursor, B1: Parser<I>, B2: Parser<I>>(
    b1: &B1,
    b2: &B2,
    start: I,
    end: I,
    e1: B1::Error,
    e2: B2::Error,
    info: ParseInfo,
) -> bool {
    exists|mid: I, before: ParseInfo|
        {
            &&& #[trigger] b1.parsed(start, mid, ParseResult::failure(e1, before))
            &&& then_failed(b2, mid, end, e2, before, info)
        }
}

/// `b1`, `b2` and then `b3` failed from `start` and stopped at `end`.
pub open spec fn fell3<I: Cursor, B1: Parser<I>, B2: Parser<I>, B3: Parser<I>>(
    b1: &B1,
    b2: &B2,
    b3: &B3,
    start: I,
    end: I,
    e1: B1::Error,
    e2: B2::Error,
    e3: B3::Error,
    info: ParseInfo,
) -> bool {
    exists|mid: I, before: ParseInfo|
        {
            &&& #[trigger] fell2(b1, b2, start, mid, e1, e2, before)
            &&& then_failed(b3, mid, end, e3, before, info)
        }
}

/// `b1`, `b2`, `b3` and then `b4` failed from `start` and stopped at `end`.
pub open spec fn fell4<I: Cursor, B1: Parser<I>, B2: Parser<I>, B3: Parser<I>, B4: Parser<I>>(
    b1: &B1,
    b2: &B2,
    b3: &B3,
    b4: &B4,
    start: I,
    end: I,
    e1: B1::Error,
    e2: B2::Error,
    e3: B3::Error,
    e4: B4::Error,
    info: ParseInfo,
) -> bool {
    exists|mid: I, before: ParseInfo|
        {
            &&& #[trigger] fell3(b1, b2, b3, start, mid, e1, e2, e3, before)
            &&& then_failed(b4, mid, end, e4, before, info)
        }
}

/// The branch without alternatives: fails at once.
pub struct Branch0<F, T, Tokens> {
    pub get_pos: F,
    pub _t: PhantomData<T>,
    pub _tk: PhantomData<Tokens>,
}

impl<F, T, Tokens> Clone for Branch0<F, T, Tokens> where F: Clone {
    fn clone(&self) -> (copy: Branch0<F, T, Tokens>)
        ensures
            cloned(self.get_pos, copy.get_pos),
    {
        Branch0 { get_pos: self.get_pos.clone(), _t: PhantomData, _tk: PhantomData }
    }
}

impl<F, T, Tokens> Branch0<F, T, Tokens> {
    pub fn new(get_pos: F) -> (made: Branch0<F, T, Tokens>)
        ensures
            made.get_pos == get_pos,
    {
        Branch0 { get_pos, _t: PhantomData, _tk: PhantomData }
    }
}

impl<I, F, T, Pos> Parser<I> for Branch0<F, T, Vec<I::Token>> where I: Cursor, F: Fn(&I) -> Pos {
    type Value = T;

    type Error = ParseError<Pos, Vec<I::Token>>;

    open spec fn ready(&self) -> bool {
        places::<I, Pos, F>(self.get_pos)
    }

    open spec fn parsed(
        &self,
        start: I,
        end: I,
        out: ParseResult<T, ParseError<Pos, Vec<I::Token>>>,
    ) -> bool {
        &&& end == start
        &&& out.info == ParseInfo::zero()
        &&& out.res is Err
        &&& collected(
            end,
            Seq::<BranchError<Pos, Vec<I::Token>>>::empty(),
            self.get_pos,
            out.res->Err_0,
        )
    }

    fn parse(&self, iter: &mut I) -> (out: ParseResult<T, ParseError<Pos, Vec<I::Token>>>) {
        let branch_errors: Vec<BranchError<Pos, Vec<I::Token>>> = Vec::new();
        proof {
            assert(call_requires(self.get_pos, (&*iter,)));
        }
        ParseInfo::default().err(ParseError::collect_branch(&*iter, branch_errors, &self.get_pos))
    }
}

/// One alternative.
#[derive(Clone)]
pub struct Branch1<F, B1> {
    pub get_pos: F,
    pub b1: B1,
}

impl<F, B1> Branch1<F, B1> {
    pub fn new(get_pos: F, b1: B1) -> (made: Branch1<F, B1>)
        ensures
            made.get_pos == get_pos,
            made.b1 == b1,
    {
        Branch1 { get_pos, b1 }
    }
}

impl<I, F, B1, T, Pos> Parser<I> for Branch1<F, B1> where
    I: Cursor,
    F: Fn(&I) -> Pos,
    B1: Parser<I, Value = T, Error = BranchError<Pos, Vec<I::Token>>>,
 {
    type Value = T;

    type Error = ParseError<Pos, Vec<I::Token>>;

    open spec fn ready(&self) -> bool {
        &&& places::<I, Pos, F>(self.get_pos)
        &&& self.b1.ready()
    }

    open spec fn parsed(
        &self,
        start: I,
        end: I,
        out: ParseResult<T, ParseError<Pos, Vec<I::Token>>>,
    ) -> bool {
        ||| succeeded_first(&self.b1, start, end, out)
        ||| exists|e1: BranchError<Pos, Vec<I::Token>>|
            {
                &&& #[trigger] self.b1.parsed(start, end, ParseResult::failure(e1, out.info))
                &&& out.res is Err
                &&& collected(end, seq![e1], self.get_pos, out.res->Err_0)
            }
    }

    fn parse(&self, iter: &mut I) -> (out: ParseResult<T, ParseError<Pos, Vec<I::Token>>>) {
        let mut info = ParseInfo::default();
        let mut branch_errors: Vec<BranchError<Pos, Vec<I::Token>>> = Vec::new();
        let r1 = self.b1.parse(iter);
        let ghost s1 = r1;
        match r1.record_to(&mut info) {
            Ok(value) => {
                proof {
                    assert(s1 == ParseResult::<T, BranchError<Pos, Vec<I::Token>>>::success(
                        value,
                        s1.info,
                    ));
                }
                return info.ok(value);
            },
            Err(error) => {
                branch_errors.push(error);
            },
        }
        proof {
            assert(s1 == ParseResult::<T, BranchError<Pos, Vec<I::Token>>>::failure(
                branch_errors@[0],
                s1.info,
            ));
            assert(branch_errors@ =~= seq![branch_errors@[0]]);
            assert(call_requires(self.get_pos, (&*iter,)));
        }
        info.err(ParseError::collect_branch(&*iter, branch_errors, &self.get_pos))
    }
}

/// Two alternatives, tried in their order, each from where the one before
/// it stopped. The first success is the branch's; where both fail, the
/// failures are made one error.
#[derive(Clone)]
pub struct Branch2<F, B1, B2> {
    pub get_pos: F,
    pub b1: B1,
    pub b2: B2,
}

impl<F, B1, B2> Branch2<F, B1, B2> {
    pub fn new(get_pos: F, b1: B1, b2: B2) -> (made: Branch2<F, B1, B2>)
        ensures
            made.get_pos == get_pos,
            made.b1 == b1,
            made.b2 == b2,
    {
        Branch2 { get_pos, b1, b2 }
    }
}

impl<I, F, B1, B2, T, Pos> Parser<I> for Branch2<F, B1, B2> where
    I: Cursor,
    F: Fn(&I) -> Pos,
    B1: Parser<I, Value = T, Error = BranchError<Pos, Vec<I::Token>>>,
    B2: Parser<I, Value = T, Error = BranchError<Pos, Vec<I::Token>>>,
 {
    type Value = T;

    type Error = ParseError<Pos, Vec<I::Token>>;

    open spec fn ready(&self) -> bool {
        &&& places::<I, Pos, F>(self.get_pos)
        &&& self.b1.ready()
        &&& self.b2.ready()
    }

    open spec fn parsed(
        &self,
        start: I,
        end: I,
        out: ParseResult<T, ParseError<Pos, Vec<I::Token>>>,
    ) -> bool {
        ||| succeeded_first(&self.b1, start, end, out)
        ||| exists|mid: I, e1: BranchError<Pos, Vec<I::Token>>, before: ParseInfo|
            {
                &&& #[trigger] self.b1.parsed(start, mid, ParseResult::failure(e1, before))
                &&& out.res is Ok
                &&& then_succeeded(&self.b2, mid, end, out.res->Ok_0, before, out.info)
            }
        ||| exists|e1: BranchError<Pos, Vec<I::Token>>, e2: BranchError<Pos, Vec<I::Token>>|
            {
                &&& #[trigger] fell2(&self.b1, &self.b2, start, end, e1, e2, out.info)
                &&& out.res is Err
                &&& collected(end, seq![e1, e2], self.get_pos, out.res->Err_0)
            }
    }

    fn parse(&self, iter: &mut I) -> (out: ParseResult<T, ParseError<Pos, Vec<I::Token>>>) {
        let mut info = ParseInfo::default();
        let mut branch_errors: Vec<BranchError<Pos, Vec<I::Token>>> = Vec::new();
        let r1 = self.b1.parse(iter);
        let ghost s1 = r1;
        let ghost c1 = *iter;
        match r1.record_to(&mut info) {
            Ok(value) => {
                proof {
                    assert(s1 == ParseResult::<T, BranchError<Pos, Vec<I::Token>>>::success(
                        value,
                        s1.info,
                    ));
                }
                return info.ok(value);
            },
            Err(error) => {
                branch_errors.push(error);
            },
        }
        proof {
            assert(s1 == ParseResult::<T, BranchError<Pos, Vec<I::Token>>>::failure(
                branch_errors@[0],
                s1.info,
            ));
        }
        let r2 = self.b2.parse(iter);
        let ghost s2 = r2;
        let ghost c2 = *iter;
        let ghost i1 = info;
        match r2.record_to(&mut info) {
            Ok(value) => {
                proof {
                    assert(s2 == ParseResult::<T, BranchError<Pos, Vec<I::Token>>>::success(
                        value,
                        s2.info,
                    ));
                    assert(then_succeeded(&self.b2, c1, c2, value, i1, info));
                }
                return info.ok(value);
            },
            Err(error) => {
                branch_errors.push(error);
            },
        }
        proof {
            assert(s2 == ParseResult::<T, BranchError<Pos, Vec<I::Token>>>::failure(
                branch_errors@[1],
                s2.info,
            ));
            assert(then_failed(&self.b2, c1, c2, branch_errors@[1], i1, info));
            assert(fell2(
                &self.b1,
                &self.b2,
                *old(iter),
                c2,
                branch_errors@[0],
                branch_errors@[1],
                info,
            ));
            assert(branch_errors@ =~= seq![branch_errors@[0], branch_errors@[1]]);
            assert(call_requires(self.get_pos, (&*iter,)));
        }
        info.err(ParseError::collect_branch(&*iter, branch_errors, &self.get_pos))
    }
}

/// Three alternatives, tried in their order, each from where the one before
/// it stopped. The first success is the branch's; where all fail, the
/// failures are made one error.
#[derive(Clone)]
pub struct Branch3<F, B1, B2, B3> {
    pub get_pos: F,
    pub b1: B1,
    pub b2: B2,
    pub b3: B3,
}

impl<F, B1, B2, B3> Branch3<F, B1, B2, B3> {
    pub fn new(get_pos: F, b1: B1, b2: B2, b3: B3) -> (made: Branch3<F, B1, B2, B3>)
        ensures
            made.get_pos == get_pos,
            made.b1 == b1,
            made.b2 == b2,
            made.b3 == b3,
    {
        Branch3 { get_pos, b1, b2, b3 }
    }
}

impl<I, F, B1, B2, B3, T, Pos> Parser<I> for Branch3<F, B1, B2, B3> where
    I: Cursor,
    F: Fn(&I) -> Pos,
    B1: Parser<I, Value = T, Error = BranchError<Pos, Vec<I::Token>>>,
    B2: Parser<I, Value = T, Error = BranchError<Pos, Vec<I::Token>>>,
    B3: Parser<I, Value = T, Error = BranchError<Pos, Vec<I::Token>>>,
 {
    type Value = T;

    type Error = ParseError<Pos, Vec<I::Token>>;

    open spec fn ready(&self) -> bool {
        &&& places::<I, Pos, F>(self.get_pos)
        &&& self.b1.ready()
        &&& self.b2.ready()
        &&& self.b3.ready()
    }

    open spec fn parsed(
        &self,
        start: I,
        end: I,
        out: ParseResult<T, ParseError<Pos, Vec<I::Token>>>,
    ) -> bool {
        ||| succeeded_first(&self.b1, start, end, out)
        ||| exists|mid: I, e1: BranchError<Pos, Vec<I::Token>>, before: ParseInfo|
            {
                &&& #[trigger] self.b1.parsed(start, mid, ParseResult::failure(e1, before))
                &&& out.res is Ok
                &&& then_succeeded(&self.b2, mid, end, out.res->Ok_0, before, out.info)
            }
        ||| exists|
            mid: I,
            e1: BranchError<Pos, Vec<I::Token>>,
            e2: BranchError<Pos, Vec<I::Token>>,
            before: ParseInfo,
        |
            {
                &&& #[trigger] fell2(&self.b1, &self.b2, start, mid, e1, e2, before)
                &&& out.res is Ok
                &&& then_succeeded(&self.b3, mid, end, out.res->Ok_0, before, out.info)
            }
        ||| exists|
            e1: BranchError<Pos, Vec<I::Token>>,
            e2: BranchError<Pos, Vec<I::Token>>,
            e3: BranchError<Pos, Vec<I::Token>>,
        |
            {
                &&& #[trigger] fell3(&self.b1, &self.b2, &self.b3, start, end, e1, e2, e3, out.info)
                &&& out.res is Err
                &&& collected(end, seq![e1, e2, e3], self.get_pos, out.res->Err_0)
            }
    }

    fn parse(&self, iter: &mut I) -> (out: ParseResult<T, ParseError<Pos, Vec<I::Token>>>) {
        let mut info = ParseInfo::default();
        let mut branch_errors: Vec<BranchError<Pos, Vec<I::Token>>> = Vec::new();
        let r1 = self.b1.parse(iter);
        let ghost s1 = r1;
        let ghost c1 = *iter;
        match r1.record_to(&mut info) {
            Ok(value) => {
                proof {
                    assert(s1 == ParseResult::<T, BranchError<Pos, Vec<I::Token>>>::success(
                        value,
                        s1.info,
                    ));
                }
                return info.ok(value);
            },
            Err(error) => {
                branch_errors.push(error);
            },
        }
        proof {
            assert(s1 == ParseResult::<T, BranchError<Pos, Vec<I::Token>>>::failure(
                branch_errors@[0],
                s1.info,
            ));
        }
        let r2 = self.b2.parse(iter);
        let ghost s2 = r2;
        let ghost c2 = *iter;
        let ghost i1 = info;
        match r2.record_to(&mut info) {
            Ok(value) => {
                proof {
                    assert(s2 == ParseResult::<T, BranchError<Pos, Vec<I::Token>>>::success(
                        value,
                        s2.info,
                    ));
                    assert(then_succeeded(&self.b2, c1, c2, value, i1, info));
                }
                return info.ok(value);
            },
            Err(error) => {
                branch_errors.push(error);
            },
        }
        proof {
            assert(s2 == ParseResult::<T, BranchError<Pos, Vec<I::Token>>>::failure(
                branch_errors@[1],
                s2.info,
            ));
            assert(then_failed(&self.b2, c1, c2, branch_errors@[1], i1, info));
            assert(fell2(
                &self.b1,
                &self.b2,
                *old(iter),
                c2,
                branch_errors@[0],
                branch_errors@[1],
                info,
            ));
        }
        let r3 = self.b3.parse(iter);
        let ghost s3 = r3;
        let ghost c3 = *iter;
        let ghost i2 = info;
        match r3.record_to(&mut info) {
            Ok(value) => {
                proof {
                    assert(s3 == ParseResult::<T, BranchError<Pos, Vec<I::Token>>>::success(
                        value,
                        s3.info,
                    ));
                    assert(then_succeeded(&self.b3, c2, c3, value, i2, info));
                }
                return info.ok(value);
            },
            Err(error) => {
                branch_errors.push(error);
            },
        }
        proof {
            assert(s3 == ParseResult::<T, BranchError<Pos, Vec<I::Token>>>::failure(
                branch_errors@[2],
                s3.info,
            ));
            assert(then_failed(&self.b3, c2, c3, branch_errors@[2], i2, info));
            assert(fell3(
                &self.b1,
                &self.b2,
                &self.b3,
                *old(iter),
                c3,
                branch_errors@[0],
                branch_errors@[1],
                branch_errors@[2],
                info,
            ));
            assert(branch_errors@ =~= seq![branch_errors@[0], branch_errors@[1], branch_errors@[2]]);
            assert(call_requires(self.get_pos, (&*iter,)));
        }
        info.err(ParseError::collect_branch(&*iter, branch_errors, &self.get_pos))
    }
}

/// Four alternatives, tried in their order, each from where the one before
/// it stopped. The first success is the branch's; where all fail, the
/// failures are made one error.
#[derive(Clone)]
pub struct Branch4<F, B1, B2, B3, B4> {
    pub get_pos: F,
    pub b1: B1,
    pub b2: B2,
    pub b3: B3,
    pub b4: B4,
}

impl<F, B1, B2, B3, B4> Branch4<F, B1, B2, B3, B4> {
    pub fn new(get_pos: F, b1: B1, b2: B2, b3: B3, b4: B4) -> (made: Branch4<F, B1, B2, B3, B4>)
        ensures
            made.get_pos == get_pos,
            made.b1 == b1,
            made.b2 == b2,
            made.b3 == b3,
            made.b4 == b4,
    {
        Branch4 { get_pos, b1, b2, b3, b4 }
    }
}

impl<I, F, B1, B2, B3, B4, T, Pos> Parser<I> for Branch4<F, B1, B2, B3, B4> where
    I: Cursor,
    F: Fn(&I) -> Pos,
    B1: Parser<I, Value = T, Error = BranchError<Pos, Vec<I::Token>>>,
    B2: Parser<I, Value = T, Error = BranchError<Pos, Vec<I::Token>>>,
    B3: Parser<I, Value = T, Error = BranchError<Pos, Vec<I::Token>>>,
    B4: Parser<I, Value = T, Error = BranchError<Pos, Vec<I::Token>>>,
 {
    type Value = T;

    type Error = ParseError<Pos, Vec<I::Token>>;

    open spec fn ready(&self) -> bool {
        &&& places::<I, Pos, F>(self.get_pos)
        &&& self.b1.ready()
        &&& self.b2.ready()
        &&& self.b3.ready()
        &&& self.b4.ready()
    }

    open spec fn parsed(
        &self,
        start: I,
        end: I,
        out: ParseResult<T, ParseError<Pos, Vec<I::Token>>>,
    ) -> bool {
        ||| succeeded_first(&self.b1, start, end, out)
        ||| exists|mid: I, e1: BranchError<Pos, Vec<I::Token>>, before: ParseInfo|
            {
                &&& #[trigger] self.b1.parsed(start, mid, ParseResult::failure(e1, before))
                &&& out.res is Ok
                &&& then_succeeded(&self.b2, mid, end, out.res->Ok_0, before, out.info)
            }
        ||| exists|
            mid: I,
            e1: BranchError<Pos, Vec<I::Token>>,
            e2: BranchError<Pos, Vec<I::Token>>,
            before: ParseInfo,
        |
            {
                &&& #[trigger] fell2(&self.b1, &self.b2, start, mid, e1, e2, before)
                &&& out.res is Ok
                &&& then_succeeded(&self.b3, mid, end, out.res->Ok_0, before, out.info)
            }
        ||| exists|
            mid: I,
            e1: BranchError<Pos, Vec<I::Token>>,
            e2: BranchError<Pos, Vec<I::Token>>,
            e3: BranchError<Pos, Vec<I::Token>>,
            before: ParseInfo,
        |
            {
                &&& #[trigger] fell3(&self.b1, &self.b2, &self.b3, start, mid, e1, e2, e3, before)
                &&& out.res is Ok
                &&& then_succeeded(&self.b4, mid, end, out.res->Ok_0, before, out.info)
            }
        ||| exists|
            e1: BranchError<Pos, Vec<I::Token>>,
            e2: BranchError<Pos, Vec<I::Token>>,
            e3: BranchError<Pos, Vec<I::Token>>,
            e4: BranchError<Pos, Vec<I::Token>>,
        |
            {
                &&& #[trigger] fell4(
                    &self.b1,
                    &self.b2,
                    &self.b3,
                    &self.b4,
                    start,
                    end,
                    e1,
                    e2,
                    e3,
                    e4,
                    out.info,
                )
                &&& out.res is Err
                &&& collected(end, seq![e1, e2, e3, e4], self.get_pos, out.res->Err_0)
            }
    }

    fn parse(&self, iter: &mut I) -> (out: ParseResult<T, ParseError<Pos, Vec<I::Token>>>) {
        let mut info = ParseInfo::default();
        let mut branch_errors: Vec<BranchError<Pos, Vec<I::Token>>> = Vec::new();
        let r1 = self.b1.parse(iter);
        let ghost s1 = r1;
        let ghost c1 = *iter;
        match r1.record_to(&mut info) {
            Ok(value) => {
                proof {
                    assert(s1 == ParseResult::<T, BranchError<Pos, Vec<I::Token>>>::success(
                        value,
                        s1.info,
                    ));
                }
                return info.ok(value);
            },
            Err(error) => {
                branch_errors.push(error);
            },
        }
        proof {
            assert(s1 == ParseResult::<T, BranchError<Pos, Vec<I::Token>>>::failure(
                branch_errors@[0],
                s1.info,
            ));
        }
        let r2 = self.b2.parse(iter);
        let ghost s2 = r2;
        let ghost c2 = *iter;
        let ghost i1 = info;
        match r2.record_to(&mut info) {
            Ok(value) => {
                proof {
                    assert(s2 == ParseResult::<T, BranchError<Pos, Vec<I::Token>>>::success(
                        value,
                        s2.info,
                    ));
                    assert(then_succeeded(&self.b2, c1, c2, value, i1, info));
                }
                return info.ok(value);
            },
            Err(error) => {
                branch_errors.push(error);
            },
        }
        proof {
            assert(s2 == ParseResult::<T, BranchError<Pos, Vec<I::Token>>>::failure(
                branch_errors@[1],
                s2.info,
            ));
            assert(then_failed(&self.b2, c1, c2, branch_errors@[1], i1, info));
            assert(fell2(
                &self.b1,
                &self.b2,
                *old(iter),
                c2,
                branch_errors@[0],
                branch_errors@[1],
                info,
            ));
        }
        let r3 = self.b3.parse(iter);
        let ghost s3 = r3;
        let ghost c3 = *iter;
        let ghost i2 = info;
        match r3.record_to(&mut info) {
            Ok(value) => {
                proof {
                    assert(s3 == ParseResult::<T, BranchError<Pos, Vec<I::Token>>>::success(
                        value,
                        s3.info,
                    ));
                    assert(then_succeeded(&self.b3, c2, c3, value, i2, info));
                }
                return info.ok(value);
            },
            Err(error) => {
                branch_errors.push(error);
            },
        }
        proof {
            assert(s3 == ParseResult::<T, BranchError<Pos, Vec<I::Token>>>::failure(
                branch_errors@[2],
                s3.info,
            ));
            assert(then_failed(&self.b3, c2, c3, branch_errors@[2], i2, info));
            assert(fell3(
                &self.b1,
                &self.b2,
                &self.b3,
                *old(iter),
                c3,
                branch_errors@[0],
                branch_errors@[1],
                branch_errors@[2],
                info,
            ));
        }
        let r4 = self.b4.parse(iter);
        let ghost s4 = r4;
        let ghost c4 = *iter;
        let ghost i3 = info;
        match r4.record_to(&mut info) {
            Ok(value) => {
                proof {
                    assert(s4 == ParseResult::<T, BranchError<Pos, Vec<I::Token>>>::success(
                        value,
                        s4.info,
                    ));
                    assert(then_succeeded(&self.b4, c3, c4, value, i3, info));
                }
                return info.ok(value);
            },
            Err(error) => {
                branch_errors.push(error);
            },
        }
        proof {
            assert(s4 == ParseResult::<T, BranchError<Pos, Vec<I::Token>>>::failure(
                branch_errors@[3],
                s4.info,
            ));
            assert(then_failed(&self.b4, c3, c4, branch_errors@[3], i3, info));
            assert(fell4(
                &self.b1,
                &self.b2,
                &self.b3,
                &self.b4,
                *old(iter),
                c4,
                branch_errors@[0],
                branch_errors@[1],
                branch_errors@[2],
                branch_errors@[3],
                info,
            ));
            assert(branch_errors@ =~= seq![branch_errors@[0], branch_errors@[1], branch_errors@[2], branch_errors@[3]]);
            assert(call_requires(self.get_pos, (&*iter,)));
        }
        info.err(ParseError::collect_branch(&*iter, branch_errors, &self.get_pos))
    }
}

} // verus!

use vstd::prelude::*;
use std::marker::PhantomData;
use crate::combinators::{failed_first, AndCompose, Attempt};
use crate::cursor::Cursor;
use crate::info::ParseInfo;
use crate::parser::{ParseResult, Parser};
use crate::primitives::ExpectTokens;
use crate::text::ExpectString;

verus! {

/// One success of a repeated parser: its value, its record, and where it
/// left the cursor.
pub struct Step<I, T> {
    pub value: T,
    pub info: ParseInfo,
    pub end: I,
}

/// Where the step at `index` starts: at `start`, or where the step before it
/// ended. With `index` the number of steps, this is where the run ends.
pub open spec fn frame<I, T>(start: I, steps: Seq<Step<I, T>>, index: int) -> I {
    if index <= 0 {
        start
    } else {
        steps[index - 1].end
    }
}

/// `steps` are successes of `parser`, one after the other from `start`.
pub open spec fn is_run<I: Cursor, P: Parser<I>>(
    parser: &P,
    start: I,
    steps: Seq<Step<I, P::Value>>,
) -> bool {
    forall|index: int|
        0 <= index < steps.len() ==> parser.parsed(
            frame(start, steps, index),
            (#[trigger] steps[index]).end,
            ParseResult::success(steps[index].value, steps[index].info),
        )
}

/// The values of the steps, in their order.
pub open spec fn run_values<I, T>(steps: Seq<Step<I, T>>) -> Seq<T> {
    Seq::new(steps.len(), |index: int| steps[index].value)
}

/// The record of the steps, one after the other.
pub open spec fn run_info<I, T>(steps: Seq<Step<I, T>>) -> ParseInfo
    decreases steps.len(),
{
    if steps.len() == 0 {
        ParseInfo::zero()
    } else {
        run_info(steps.drop_last()).followed_by(steps.last().info)
    }
}

/// Every success of `parser` leaves fewer tokens ahead than it found. A
/// parser that is repeated must have this, or the repetition would not end.
pub open spec fn advances<I: Cursor, P: Parser<I>>(parser: &P) -> bool {
    forall|start: I, end: I, out: ParseResult<P::Value, P::Error>|
        #[trigger] parser.parsed(start, end, out) && out.res is Ok ==> end.remaining().len()
            < start.remaining().len()
}

/// `parser` ran from `start` until it failed, and stopped at `end`, where
/// its failure left the cursor: `values` are those of its successes, `info`
/// is the record of the successes and of the failure.
pub open spec fn repeated<I: Cursor, P: Parser<I>>(
    parser: &P,
    start: I,
    end: I,
    values: Seq<P::Value>,
    info: ParseInfo,
) -> bool {
    exists|steps: Seq<Step<I, P::Value>>, stop: ParseResult<P::Value, P::Error>|
        {
            &&& is_run(parser, start, steps)
            &&& #[trigger] parser.parsed(frame(start, steps, steps.len() as int), end, stop)
            &&& stop.res is Err
            &&& values == #[trigger] run_values(steps)
            &&& info == run_info(steps).followed_by(stop.info)
        }
}

/// Runs `parser` until it fails and appends the values of its successes to
/// `values`. The result is the record of the successes and of the failure.
pub fn repeat_into<I, P>(parser: &P, iter: &mut I, values: &mut Vec<P::Value>) -> (info:
    ParseInfo) where I: Cursor, P: Parser<I>
    requires
        parser.ready(),
        advances(parser),
    ensures
        final(values)@.len() >= old(values)@.len(),
        final(values)@.take(old(values)@.len() as int) == old(values)@,
        repeated(
            parser,
            *old(iter),
            *final(iter),
            final(values)@.skip(old(values)@.len() as int),
            info,
        ),
{
    let mut info = ParseInfo::default();
    let ghost steps: Seq<Step<I, P::Value>> = Seq::empty();
    let ghost kept = values@.len() as int;
    loop
        invariant
            parser.ready(),
            advances(parser),
            is_run(parser, *old(iter), steps),
            *iter == frame(*old(iter), steps, steps.len() as int),
            kept == old(values)@.len(),
            values@.len() == kept + steps.len(),
            values@.take(kept) == old(values)@,
            values@.skip(kept) == run_values(steps),
            info == run_info(steps),
        decreases iter.remaining().len(),
    {
        let tried = parser.parse(iter);
        let ghost seen = tried;
        match tried.record_to(&mut info) {
            Ok(value) => {
                let ghost step = Step { value, info: seen.info, end: *iter };
                let ghost longer = steps.push(step);
                proof {
                    assert(seen == ParseResult::<P::Value, P::Error>::success(value, seen.info));
                    assert(longer.drop_last() == steps);
                    assert forall|index: int| 0 <= index < longer.len() implies parser.parsed(
                        frame(*old(iter), longer, index),
                        (#[trigger] longer[index]).end,
                        ParseResult::success(longer[index].value, longer[index].info),
                    ) by {
                        if index < steps.len() {
                            assert(longer[index] == steps[index]);
                            assert(frame(*old(iter), longer, index) == frame(
                                *old(iter),
                                steps,
                                index,
                            ));
                        }
                    }
                }
                values.push(value);
                proof {
                    assert(values@.take(kept) =~= old(values)@);
                    assert(values@.skip(kept) =~= run_values(longer)) by {
                        assert forall|index: int| 0 <= index < longer.len() implies values@.skip(
                            kept,
                        )[index] == run_values(longer)[index] by {
                            if index < steps.len() {
                                assert(run_values(steps)[index] == steps[index].value);
                            }
                        }
                    }
                    steps = longer;
                }
            },
            Err(_) => {
                proof {
                    assert(parser.parsed(
                        frame(*old(iter), steps, steps.len() as int),
                        *iter,
                        seen,
                    ));
                }
                return info;
            },
        }
    }
}

// Vector Combinators

/// `parser`, as often as it succeeds. Never fails.
pub struct Many<P, F> {
    pub parser: P,
    pub _f: PhantomData<F>,
}

impl<P, F> Clone for Many<P, F> where P: Clone {
    fn clone(&self) -> (copy: Many<P, F>)
        ensures
            cloned(self.parser, copy.parser),
    {
        Many { parser: self.parser.clone(), _f: PhantomData }
    }
}

impl<P, F> Many<P, F> {
    pub fn new(parser: P) -> (made: Many<P, F>)
        ensures
            made.parser == parser,
    {
        Many { parser, _f: PhantomData }
    }
}

impl<I, P, F> Parser<I> for Many<P, F> where I: Cursor, P: Parser<I> {
    type Value = Vec<P::Value>;

    type Error = F;

    open spec fn ready(&self) -> bool {
        self.parser.ready() && advances(&self.parser)
    }

    open spec fn parsed(&self, start: I, end: I, out: ParseResult<Vec<P::Value>, F>) -> bool {
        &&& out.res is Ok
        &&& repeated(&self.parser, start, end, out.res->Ok_0@, out.info)
    }

    fn parse(&self, iter: &mut I) -> (out: ParseResult<Vec<P::Value>, F>)
        ensures
            out.res is Ok,
    {
        let mut values = Vec::new();
        let info = repeat_into(&self.parser, iter, &mut values);
        proof {
            assert(values@.skip(0) =~= values@);
        }
        info.ok(values)
    }
}

/// `parser`, once, and then as often as it succeeds. Fails where the first
/// try fails, with its error.
#[derive(Clone)]
pub struct AtLeastOne<P> {
    pub parser: P,
}

impl<P> AtLeastOne<P> {
    pub fn new(parser: P) -> (made: AtLeastOne<P>)
        ensures
            made.parser == parser,
    {
        AtLeastOne { parser }
    }
}

impl<I, P> Parser<I> for AtLeastOne<P> where I: Cursor, P: Parser<I> {
    type Value = Vec<P::Value>;

    type Error = P::Error;

    open spec fn ready(&self) -> bool {
        self.parser.ready() && advances(&self.parser)
    }

    open spec fn parsed(
        &self,
        start: I,
        end: I,
        out: ParseResult<Vec<P::Value>, P::Error>,
    ) -> bool {
        ||| failed_first(&self.parser, start, end, out)
        ||| exists|mid: I, first: P::Value, first_info: ParseInfo, rest_info: ParseInfo|
            {
                &&& #[trigger] self.parser.parsed(
                    start,
                    mid,
                    ParseResult::success(first, first_info),
                )
                &&& out.res is Ok
                &&& out.res->Ok_0@.len() > 0
                &&& out.res->Ok_0@[0] == first
                &&& #[trigger] repeated(&self.parser, mid, end, out.res->Ok_0@.skip(1), rest_info)
                &&& out.info == first_info.followed_by(rest_info)
            }
    }

    fn parse(&self, iter: &mut I) -> (out: ParseResult<Vec<P::Value>, P::Error>) {
        let mut info = ParseInfo::default();
        let tried = self.parser.parse(iter);
        let ghost seen = tried;
        let ghost mid = *iter;
        match tried.record_to(&mut info) {
            Ok(first) => {
                let ghost kept = first;
                let mut values = Vec::new();
                values.push(first);
                let rest_info = repeat_into(&self.parser, iter, &mut values);
                info.record(rest_info);
                let out = info.ok(values);
                proof {
                    assert(seen == ParseResult::<P::Value, P::Error>::success(kept, seen.info));
                    assert(values@.take(1)[0] == kept);
                    assert(repeated(&self.parser, mid, *iter, out.res->Ok_0@.skip(1), rest_info));
                }
                out
            },
            Err(error) => {
                let out = info.err(error);
                proof {
                    assert(self.parser.parsed(*old(iter), *iter, seen));
                }
                out
            },
        }
    }
}

/// A repetition never fails. Where the element fails at once, the repetition
/// succeeds with no values, stops where that failure stopped, and has its
/// record.
pub proof fn lemma_many_never_fails<I: Cursor, P: Parser<I>, F>(
    many: Many<P, F>,
    start: I,
    end: I,
    out: ParseResult<Vec<P::Value>, F>,
    stop: ParseResult<P::Value, P::Error>,
)
    ensures
        many.parsed(start, end, out) ==> out.res is Ok,
        many.parser.parsed(start, end, stop) && stop.res is Err ==> repeated(
            &many.parser,
            start,
            end,
            Seq::<P::Value>::empty(),
            stop.info,
        ),
{
    if many.parser.parsed(start, end, stop) && stop.res is Err {
        let steps = Seq::<Step<I, P::Value>>::empty();
        assert(is_run(&many.parser, start, steps));
        assert(many.parser.parsed(frame(start, steps, steps.len() as int), end, stop));
        assert(run_values(steps) =~= Seq::<P::Value>::empty());
        assert(ParseInfo::zero().followed_by(stop.info) == stop.info);
    }
}

/// A repetition of at least one fails exactly where the element's first try
/// fails, with that failure. Where it succeeds, the element succeeded once,
/// and what follows is a repetition from where that success stopped: its
/// values follow the first, its record follows the first record.
pub proof fn lemma_some_is_first_then_many<I: Cursor, P: Parser<I>>(
    some: AtLeastOne<P>,
    start: I,
    end: I,
    out: ParseResult<Vec<P::Value>, P::Error>,
)
    requires
        some.parsed(start, end, out),
    ensures
        out.res is Err <==> failed_first(&some.parser, start, end, out),
        out.res is Ok ==> exists|mid: I, first_info: ParseInfo, rest_info: ParseInfo|
            {
                &&& out.res->Ok_0@.len() > 0
                &&& #[trigger] some.parser.parsed(
                    start,
                    mid,
                    ParseResult::success(out.res->Ok_0@[0], first_info),
                )
                &&& #[trigger] repeated(&some.parser, mid, end, out.res->Ok_0@.skip(1), rest_info)
                &&& out.info == first_info.followed_by(rest_info)
            },
{
    if out.res is Ok {
        let (mid, first, first_info, rest_info) = choose|
            mid: I,
            first: P::Value,
            first_info: ParseInfo,
            rest_info: ParseInfo,
        |
            {
                &&& #[trigger] some.parser.parsed(
                    start,
                    mid,
                    ParseResult::success(first, first_info),
                )
                &&& out.res is Ok
                &&& out.res->Ok_0@.len() > 0
                &&& out.res->Ok_0@[0] == first
                &&& #[trigger] repeated(&some.parser, mid, end, out.res->Ok_0@.skip(1), rest_info)
                &&& out.info == first_info.followed_by(rest_info)
            };
        assert(some.parser.parsed(
            start,
            mid,
            ParseResult::success(out.res->Ok_0@[0], first_info),
        ));
    }
}

/// No run of `parser` leaves more tokens ahead than it found.
pub open spec fn holds_ground<I: Cursor, P: Parser<I>>(parser: &P) -> bool {
    forall|start: I, end: I, out: ParseResult<P::Value, P::Error>|
        #[trigger] parser.parsed(start, end, out) ==> end.remaining().len()
            <= start.remaining().len()
}

/// One round of the shortest repetition: the terminator failed with
/// `miss_error` and stopped at `miss_end`, and from there the element
/// succeeded with `value` and stopped at `end`.
pub struct Round<I, T, F> {
    pub miss_error: F,
    pub miss_info: ParseInfo,
    pub miss_end: I,
    pub value: T,
    pub info: ParseInfo,
    pub end: I,
}

/// Where the round at `index` starts: at `start`, or where the round before
/// it ended.
pub open spec fn round_frame<I, T, F>(start: I, rounds: Seq<Round<I, T, F>>, index: int) -> I {
    if index <= 0 {
        start
    } else {
        rounds[index - 1].end
    }
}

/// `rounds` are rounds of `until` failing and `parser` succeeding, one after
/// the other from `start`.
pub open spec fn is_rounds<I: Cursor, P: Parser<I>, Q: Parser<I>>(
    parser: &P,
    until: &Q,
    start: I,
    rounds: Seq<Round<I, P::Value, Q::Error>>,
) -> bool {
    forall|index: int|
        0 <= index < rounds.len() ==> {
            &&& until.parsed(
                round_frame(start, rounds, index),
                (#[trigger] rounds[index]).miss_end,
                ParseResult::failure(rounds[index].miss_error, rounds[index].miss_info),
            )
            &&& parser.parsed(
                rounds[index].miss_end,
                rounds[index].end,
                ParseResult::success(rounds[index].value, rounds[index].info),
            )
        }
}

/// The values of the rounds, in their order.
pub open spec fn round_values<I, T, F>(rounds: Seq<Round<I, T, F>>) -> Seq<T> {
    Seq::new(rounds.len(), |index: int| rounds[index].value)
}

/// The record of the rounds: of each, the failed terminator and then the
/// element.
pub open spec fn rounds_info<I, T, F>(rounds: Seq<Round<I, T, F>>) -> ParseInfo
    decreases rounds.len(),
{
    if rounds.len() == 0 {
        ParseInfo::zero()
    } else {
        rounds_info(rounds.drop_last()).followed_by(rounds.last().miss_info).followed_by(
            rounds.last().info,
        )
    }
}

/// `parser` until `until` succeeds, the terminator tried first at each
/// position and nothing taken back: the fewest elements after which the
/// terminator succeeds on the way from left to right.
#[derive(Clone)]
pub struct Least<P, Q> {
    pub parser: P,
    pub until: Q,
}

impl<P, Q> Least<P, Q> {
    pub fn new(parser: P, until: Q) -> (made: Least<P, Q>)
        ensures
            made.parser == parser,
            made.until == until,
    {
        Least { parser, until }
    }
}

impl<I, P, Q> Parser<I> for Least<P, Q> where I: Cursor, P: Parser<I>, Q: Parser<I> {
    type Value = (Vec<P::Value>, Q::Value);

    type Error = Q::Error;

    open spec fn ready(&self) -> bool {
        &&& self.parser.ready()
        &&& self.until.ready()
        &&& advances(&self.parser)
        &&& holds_ground(&self.until)
    }

    open spec fn parsed(
        &self,
        start: I,
        end: I,
        out: ParseResult<(Vec<P::Value>, Q::Value), Q::Error>,
    ) -> bool {
        exists|rounds: Seq<Round<I, P::Value, Q::Error>>|
            {
                &&& #[trigger] is_rounds(&self.parser, &self.until, start, rounds)
                &&& {
                    ||| exists|last_info: ParseInfo|
                        {
                            &&& out.res is Ok
                            &&& out.res->Ok_0.0@ == round_values(rounds)
                            &&& #[trigger] self.until.parsed(
                                round_frame(start, rounds, rounds.len() as int),
                                end,
                                ParseResult::success(out.res->Ok_0.1, last_info),
                            )
                            &&& out.info == rounds_info(rounds).followed_by(last_info)
                        }
                    ||| exists|
                        miss_end: I,
                        miss_info: ParseInfo,
                        stop: ParseResult<P::Value, P::Error>,
                    |
                        {
                            &&& out.res is Err
                            &&& #[trigger] self.until.parsed(
                                round_frame(start, rounds, rounds.len() as int),
                                miss_end,
                                ParseResult::failure(out.res->Err_0, miss_info),
                            )
                            &&& #[trigger] self.parser.parsed(miss_end, end, stop)
                            &&& stop.res is Err
                            &&& out.info == rounds_info(rounds).followed_by(
                                miss_info,
                            ).followed_by(stop.info)
                        }
                }
            }
    }

    fn parse(&self, iter: &mut I) -> (out: ParseResult<(Vec<P::Value>, Q::Value), Q::Error>) {
        let mut info = ParseInfo::default();
        let mut values: Vec<P::Value> = Vec::new();
        let ghost rounds: Seq<Round<I, P::Value, Q::Error>> = Seq::empty();
        loop
            invariant
                self.ready(),
                is_rounds(&self.parser, &self.until, *old(iter), rounds),
                *iter == round_frame(*old(iter), rounds, rounds.len() as int),
                values@ == round_values(rounds),
                info == rounds_info(rounds),
            decreases iter.remaining().len(),
        {
            let ended = self.until.parse(iter);
            let ghost ended_seen = ended;
            let ghost miss_end = *iter;
            match ended.record_to(&mut info) {
                Ok(last) => {
                    let ghost last_seen = last;
                    let out = info.ok((values, last));
                    proof {
                        assert(ended_seen == ParseResult::<Q::Value, Q::Error>::success(
                            last_seen,
                            ended_seen.info,
                        ));
                        assert(self.until.parsed(
                            round_frame(*old(iter), rounds, rounds.len() as int),
                            *iter,
                            ParseResult::success(out.res->Ok_0.1, ended_seen.info),
                        ));
                    }
                    return out;
                },
                Err(error) => {
                    let tried = self.parser.parse(iter);
                    let ghost seen = tried;
                    match tried.record_to(&mut info) {
                        Ok(value) => {
                            let ghost round = Round {
                                miss_error: error,
                                miss_info: ended_seen.info,
                                miss_end,
                                value,
                                info: seen.info,
                                end: *iter,
                            };
                            let ghost longer = rounds.push(round);
                            proof {
                                assert(ended_seen == ParseResult::<
                                    Q::Value,
                                    Q::Error,
                                >::failure(error, ended_seen.info));
                                assert(seen == ParseResult::<P::Value, P::Error>::success(
                                    value,
                                    seen.info,
                                ));
                                assert(longer.drop_last() == rounds);
                                assert forall|index: int| 0 <= index < longer.len() implies {
                                    &&& self.until.parsed(
                                        round_frame(*old(iter), longer, index),
                                        (#[trigger] longer[index]).miss_end,
                                        ParseResult::failure(
                                            longer[index].miss_error,
                                            longer[index].miss_info,
                                        ),
                                    )
                                    &&& self.parser.parsed(
                                        longer[index].miss_end,
                                        longer[index].end,
                                        ParseResult::success(
                                            longer[index].value,
                                            longer[index].info,
                                        ),
                                    )
                                } by {
                                    if index < rounds.len() {
                                        assert(longer[index] == rounds[index]);
                                        assert(round_frame(*old(iter), longer, index)
                                            == round_frame(*old(iter), rounds, index));
                                    }
                                }
                            }
                            values.push(value);
                            proof {
                                assert(values@ =~= round_values(longer)) by {
                                    assert forall|index: int|
                                        0 <= index < longer.len() implies values@[index]
                                        == round_values(longer)[index] by {
                                        if index < rounds.len() {
                                            assert(round_values(rounds)[index]
                                                == rounds[index].value);
                                        }
                                    }
                                }
                                rounds = longer;
                            }
                        },
                        Err(_) => {
                            let out = info.err(error);
                            proof {
                                assert(self.until.parsed(
                                    round_frame(*old(iter), rounds, rounds.len() as int),
                                    miss_end,
                                    ParseResult::failure(out.res->Err_0, ended_seen.info),
                                ));
                                assert(self.parser.parsed(miss_end, *iter, seen));
                            }
                            return out;
                        },
                    }
                },
            }
        }
    }
}

/// One failed try of the terminator: its error, its record, and where it
/// left the cursor it was given.
pub struct Miss<I, F> {
    pub error: F,
    pub info: ParseInfo,
    pub end: I,
}

/// `misses` are failures of `until`, the first after all of `steps`, each
/// further one after one step fewer.
pub open spec fn is_misses<I: Cursor, T, Q: Parser<I>>(
    until: &Q,
    start: I,
    steps: Seq<Step<I, T>>,
    misses: Seq<Miss<I, Q::Error>>,
) -> bool {
    forall|tries: int|
        0 <= tries < misses.len() ==> until.parsed(
            frame(start, steps, steps.len() - tries),
            (#[trigger] misses[tries]).end,
            ParseResult::failure(misses[tries].error, misses[tries].info),
        )
}

/// The records in their order, one after the other.
pub open spec fn sum_info(infos: Seq<ParseInfo>) -> ParseInfo
    decreases infos.len(),
{
    if infos.len() == 0 {
        ParseInfo::zero()
    } else {
        sum_info(infos.drop_last()).followed_by(infos.last())
    }
}

/// What was examined beyond the position that is left after `count` steps
/// were given up: the lookahead of the element's failure and of the
/// terminator's first `count` failures, counted from that position, with
/// nothing consumed.
pub open spec fn lookahead<I, T, F>(
    steps: Seq<Step<I, T>>,
    stop_info: ParseInfo,
    misses: Seq<Miss<I, F>>,
    count: nat,
) -> ParseInfo
    decreases count,
{
    if count == 0 {
        stop_info.rewound()
    } else {
        steps[steps.len() - count].info.followed_by(
            lookahead(steps, stop_info, misses, (count - 1) as nat).followed_by(
                misses[count - 1].info,
            ),
        ).rewound()
    }
}

/// The sum of consistent records is consistent.
pub proof fn lemma_sum_consistent(infos: Seq<ParseInfo>)
    requires
        forall|index: int| 0 <= index < infos.len() ==> (#[trigger] infos[index]).consistent(),
    ensures
        sum_info(infos).consistent(),
    decreases infos.len(),
{
    if infos.len() > 0 {
        lemma_sum_consistent(infos.drop_last());
        assert(infos.last().consistent());
    }
}

/// The record of a run is the sum of its steps' records.
pub proof fn lemma_run_info_is_sum<I, T>(steps: Seq<Step<I, T>>, infos: Seq<ParseInfo>)
    requires
        infos.len() == steps.len(),
        forall|index: int| 0 <= index < steps.len() ==> infos[index] == steps[index].info,
    ensures
        sum_info(infos) == run_info(steps),
    decreases steps.len(),
{
    if steps.len() > 0 {
        lemma_run_info_is_sum(steps.drop_last(), infos.drop_last());
    }
}

/// The records of `infos`, one after the other.
pub fn total(infos: &Vec<ParseInfo>) -> (sum: ParseInfo)
    ensures
        sum == sum_info(infos@),
{
    let mut sum = ParseInfo::default();
    let mut index: usize = 0;
    while index < infos.len()
        invariant
            index <= infos.len(),
            sum == sum_info(infos@.take(index as int)),
        decreases infos.len() - index,
    {
        proof {
            assert(infos@.take(index + 1).drop_last() =~= infos@.take(index as int));
        }
        sum.record(infos[index]);
        index = index + 1;
    }
    proof {
        assert(infos@.take(index as int) =~= infos@);
    }
    sum
}

/// `parser` until `until` succeeds, with as many elements as can be: the
/// element is repeated until it fails, and the terminator is then tried
/// after all of the elements, after all but the last, and so on down to
/// none.
#[derive(Clone)]
pub struct Most<P, Q> {
    pub parser: P,
    pub until: Q,
}

impl<P, Q> Most<P, Q> {
    pub fn new(parser: P, until: Q) -> (made: Most<P, Q>)
        ensures
            made.parser == parser,
            made.until == until,
    {
        Most { parser, until }
    }

    /// The elements: runs `parser` on copies of the cursor until it fails.
    /// `stack` gets the position before each element and the one after the
    /// last, `values` and `infos` the value and the record of each. The
    /// result is the error and the record of the failure.
    fn climb<I>(
        &self,
        iter: &I,
        values: &mut Vec<P::Value>,
        infos: &mut Vec<ParseInfo>,
        stack: &mut Vec<I>,
    ) -> (stopped: (P::Error, ParseInfo, Ghost<Seq<Step<I, P::Value>>>, Ghost<I>)) where
        I: Cursor,
        P: Parser<I>,

        requires
            self.parser.ready(),
            advances(&self.parser),
            old(values)@.len() == 0,
            old(infos)@.len() == 0,
            old(stack)@.len() == 0,
        ensures
            is_run(&self.parser, *iter, stopped.2@),
            self.parser.parsed(
                frame(*iter, stopped.2@, stopped.2@.len() as int),
                stopped.3@,
                ParseResult::failure(stopped.0, stopped.1),
            ),
            final(values)@ == run_values(stopped.2@),
            final(infos)@.len() == stopped.2@.len(),
            forall|index: int|
                0 <= index < stopped.2@.len() ==> final(infos)@[index] == stopped.2@[index].info,
            final(stack)@.len() == stopped.2@.len() + 1,
            forall|index: int|
                0 <= index <= stopped.2@.len() ==> final(stack)@[index] == frame(
                    *iter,
                    stopped.2@,
                    index,
                ),
    {
        let ghost steps: Seq<Step<I, P::Value>> = Seq::empty();
        stack.push(iter.snapshot());
        loop
            invariant
                self.parser.ready(),
                advances(&self.parser),
                is_run(&self.parser, *iter, steps),
                values@ == run_values(steps),
                infos@.len() == steps.len(),
                forall|index: int| 0 <= index < steps.len() ==> infos@[index] == steps[index].info,
                stack@.len() == steps.len() + 1,
                forall|index: int|
                    0 <= index <= steps.len() ==> stack@[index] == frame(*iter, steps, index),
            decreases stack@[stack@.len() - 1].remaining().len(),
        {
            let mut child = stack[stack.len() - 1].snapshot();
            let tried = self.parser.parse(&mut child);
            let ghost seen = tried;
            match tried.res {
                Ok(value) => {
                    let ghost step = Step { value, info: seen.info, end: child };
                    let ghost longer = steps.push(step);
                    proof {
                        assert(seen == ParseResult::<P::Value, P::Error>::success(
                            value,
                            seen.info,
                        ));
                        assert forall|index: int| 0 <= index < longer.len() implies self.parser.parsed(
                            frame(*iter, longer, index),
                            (#[trigger] longer[index]).end,
                            ParseResult::success(longer[index].value, longer[index].info),
                        ) by {
                            if index < steps.len() {
                                assert(longer[index] == steps[index]);
                                assert(frame(*iter, longer, index) == frame(*iter, steps, index));
                            }
                        }
                    }
                    infos.push(tried.info);
                    stack.push(child);
                    values.push(value);
                    proof {
                        assert(values@ =~= run_values(longer)) by {
                            assert forall|index: int|
                                0 <= index < longer.len() implies values@[index] == run_values(
                                longer,
                            )[index] by {
                                if index < steps.len() {
                                    assert(run_values(steps)[index] == steps[index].value);
                                }
                            }
                        }
                        assert forall|index: int| 0 <= index <= longer.len() implies stack@[index]
                            == frame(*iter, longer, index) by {
                            if index <= steps.len() {
                                assert(frame(*iter, longer, index) == frame(*iter, steps, index));
                            }
                        }
                        steps = longer;
                    }
                },
                Err(error) => {
                    proof {
                        assert(seen == ParseResult::<P::Value, P::Error>::failure(
                            error,
                            seen.info,
                        ));
                    }
                    return (error, tried.info, Ghost(steps), Ghost(child));
                },
            }
        }
    }
}

impl<I, P, Q> Parser<I> for Most<P, Q> where I: Cursor, P: Parser<I>, Q: Parser<I> {
    type Value = (Vec<P::Value>, Q::Value);

    type Error = P::Error;

    open spec fn ready(&self) -> bool {
        &&& self.parser.ready()
        &&& self.until.ready()
        &&& advances(&self.parser)
    }

    open spec fn parsed(
        &self,
        start: I,
        end: I,
        out: ParseResult<(Vec<P::Value>, Q::Value), P::Error>,
    ) -> bool {
        exists|
            steps: Seq<Step<I, P::Value>>,
            stop_end: I,
            stop: ParseResult<P::Value, P::Error>,
            misses: Seq<Miss<I, Q::Error>>,
        |
            {
                &&& #[trigger] is_run(&self.parser, start, steps)
                &&& #[trigger] self.parser.parsed(
                    frame(start, steps, steps.len() as int),
                    stop_end,
                    stop,
                )
                &&& stop.res is Err
                &&& #[trigger] is_misses(&self.until, start, steps, misses)
                &&& if misses.len() <= steps.len() {
                    let kept = steps.len() - misses.len();
                    exists|last_info: ParseInfo|
                        {
                            &&& out.res is Ok
                            &&& out.res->Ok_0.0@ == run_values(steps.take(kept))
                            &&& #[trigger] self.until.parsed(
                                frame(start, steps, kept),
                                end,
                                ParseResult::success(out.res->Ok_0.1, last_info),
                            )
                            &&& out.info == run_info(steps.take(kept)).followed_by(
                                lookahead(steps, stop.info, misses, misses.len()).followed_by(
                                    last_info,
                                ),
                            )
                        }
                } else {
                    &&& misses.len() == steps.len() + 1
                    &&& out.res is Err
                    &&& out.res->Err_0 == stop.res->Err_0
                    &&& end == start
                    &&& out.info == lookahead(steps, stop.info, misses, steps.len()).followed_by(
                        misses.last().info,
                    ).rewound()
                }
            }
    }

    fn parse(&self, iter: &mut I) -> (out: ParseResult<(Vec<P::Value>, Q::Value), P::Error>)
        ensures
            out.res is Err ==> *final(iter) == *old(iter) && out.info.taken == 0,
    {
        let mut values: Vec<P::Value> = Vec::new();
        let mut infos: Vec<ParseInfo> = Vec::new();
        let mut stack: Vec<I> = Vec::new();
        let (error, stop_info, Ghost(steps), Ghost(stop_end)) = self.climb(
            iter,
            &mut values,
            &mut infos,
            &mut stack,
        );
        let ghost stop = ParseResult::<P::Value, P::Error>::failure(error, stop_info);
        let ghost misses: Seq<Miss<I, Q::Error>> = Seq::empty();
        let mut end_info = stop_info;
        end_info.rewind();
        proof {
            assert(steps.take(steps.len() as int) =~= steps);
        }
        loop
            invariant
                self.until.ready(),
                *iter == *old(iter),
                is_run(&self.parser, *iter, steps),
                self.parser.parsed(frame(*iter, steps, steps.len() as int), stop_end, stop),
                stop == ParseResult::<P::Value, P::Error>::failure(error, stop_info),
                is_misses(&self.until, *iter, steps, misses),
                misses.len() <= steps.len(),
                stack@.len() == steps.len() - misses.len() + 1,
                forall|index: int|
                    0 <= index < stack@.len() ==> stack@[index] == frame(*iter, steps, index),
                values@ == run_values(steps.take(steps.len() - misses.len())),
                infos@.len() == steps.len() - misses.len(),
                forall|index: int| 0 <= index < infos@.len() ==> infos@[index] == steps[index].info,
                end_info == lookahead(steps, stop_info, misses, misses.len()),
            decreases stack@.len(),
        {
            let ghost kept = steps.len() - misses.len();
            let popped = stack.pop();
            let mut parent = popped.unwrap();
            let ended = self.until.parse(&mut parent);
            let ghost ended_seen = ended;
            match ended.record_to(&mut end_info) {
                Ok(last) => {
                    *iter = parent;
                    let mut info = total(&infos);
                    info.record(end_info);
                    let out = info.ok((values, last));
                    proof {
                        lemma_run_info_is_sum(steps.take(kept), infos@);
                        assert(ended_seen == ParseResult::<Q::Value, Q::Error>::success(
                            out.res->Ok_0.1,
                            ended_seen.info,
                        ));
                        assert(self.until.parsed(
                            frame(*old(iter), steps, kept),
                            *iter,
                            ParseResult::success(out.res->Ok_0.1, ended_seen.info),
                        ));
                    }
                    return out;
                },
                Err(miss_error) => {
                    let ghost miss = Miss { error: miss_error, info: ended_seen.info, end: parent };
                    let ghost longer = misses.push(miss);
                    proof {
                        assert(ended_seen == ParseResult::<Q::Value, Q::Error>::failure(
                            miss_error,
                            ended_seen.info,
                        ));
                        assert forall|tries: int| 0 <= tries < longer.len() implies self.until.parsed(
                            frame(*iter, steps, steps.len() - tries),
                            (#[trigger] longer[tries]).end,
                            ParseResult::failure(longer[tries].error, longer[tries].info),
                        ) by {
                            if tries < misses.len() {
                                assert(longer[tries] == misses[tries]);
                            }
                        }
                        lemma_lookahead_ignores_later(
                            steps,
                            stop_info,
                            misses,
                            longer,
                            misses.len(),
                        );
                    }
                    match values.pop() {
                        None => {
                            end_info.rewind();
                            let out = end_info.err(error);
                            proof {
                                assert(run_values(steps.take(kept)).len() == kept);
                                assert(kept == 0);
                                assert(longer.last() == miss);
                                assert(longer.len() == steps.len() + 1);
                                assert(is_misses(&self.until, *old(iter), steps, longer));
                                assert(out.res->Err_0 == stop.res->Err_0);
                                assert(out.info == lookahead(
                                    steps,
                                    stop.info,
                                    longer,
                                    steps.len(),
                                ).followed_by(longer.last().info).rewound());
                            }
                            return out;
                        },
                        Some(_) => {
                            let popped_info = infos.pop();
                            let mut merged = popped_info.unwrap();
                            merged.record(end_info);
                            merged.rewind();
                            end_info = merged;
                            proof {
                                assert(values@ =~= run_values(steps.take(kept - 1)));
                                misses = longer;
                            }
                        },
                    }
                },
            }
        }
    }
}

/// The lookahead after `count` steps were given up depends on the first
/// `count` misses only.
pub proof fn lemma_lookahead_ignores_later<I, T, F>(
    steps: Seq<Step<I, T>>,
    stop_info: ParseInfo,
    misses: Seq<Miss<I, F>>,
    longer: Seq<Miss<I, F>>,
    count: nat,
)
    requires
        count <= misses.len() <= longer.len(),
        forall|tries: int| 0 <= tries < misses.len() ==> longer[tries] == misses[tries],
    ensures
        lookahead(steps, stop_info, longer, count) == lookahead(steps, stop_info, misses, count),
    decreases count,
{
    if count > 0 {
        lemma_lookahead_ignores_later(steps, stop_info, misses, longer, (count - 1) as nat);
    }
}

/// A parser that expects at least one token can be repeated: each success
/// has consumed its tokens.
pub proof fn lemma_expect_tokens_advances<I, T, const N: usize>(parser: &ExpectTokens<T, N>) where
    I: Cursor<Token = T>,
    T: PartialEq + Clone,

    requires
        N > 0,
    ensures
        advances::<I, ExpectTokens<T, N>>(parser),
        holds_ground::<I, ExpectTokens<T, N>>(parser),
{
    assert forall|start: I, end: I, out: ParseResult<[T; N], [T; N]>| #[trigger]
        parser.parsed(start, end, out) implies end.remaining().len() <= start.remaining().len()
        && (out.res is Ok ==> end.remaining().len() < start.remaining().len()) by {
        if out.res is Err {
            let count = choose|count: int|
                {
                    &&& count < N
                    &&& #[trigger] crate::primitives::agree(
                        start.remaining(),
                        parser.expect@,
                        count,
                    )
                    &&& if count < start.remaining().len() {
                        &&& out.info.taken == count + 1
                        &&& end.remaining() == start.remaining().skip(count + 1)
                    } else {
                        &&& out.info.taken == count
                        &&& end.remaining() == start.remaining().skip(count)
                    }
                };
        }
    }
}

/// A parser that expects at least one character can be repeated: each
/// success has consumed its characters.
pub proof fn lemma_expect_string_advances<I>(parser: &ExpectString) where I: Cursor<Token = char>
    requires
        parser.expect@.len() > 0,
    ensures
        advances::<I, ExpectString>(parser),
        holds_ground::<I, ExpectString>(parser),
{
}

/// Rollback on failure keeps what makes a parser fit for repetition.
pub proof fn lemma_attempt_advances<I: Cursor, P: Parser<I>>(attempt: &Attempt<P>)
    ensures
        advances(&attempt.parser) ==> advances(attempt),
        holds_ground(&attempt.parser) ==> holds_ground(attempt),
{
}

/// A sequence of two parsers advances where its first parser does and its
/// second holds its ground.
pub proof fn lemma_and_compose_advances<I, P, E, Q>(both: &AndCompose<P, Q>) where
    I: Cursor,
    P: Parser<I, Error = E>,
    Q: Parser<I, Error = E>,

    requires
        advances(&both.parser),
        holds_ground(&both.other),
    ensures
        advances(both),
{
}

} // verus!

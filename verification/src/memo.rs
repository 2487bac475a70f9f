use vstd::prelude::*;
use std::collections::HashMap;
use std::hash::Hash;
use vstd::std_specs::cmp::PartialEqSpec;
use vstd::std_specs::hash::obeys_key_model;
use crate::cells::{cell_claim, cell_new, cell_open, lock_claim, lock_new, lock_open};
use crate::cursor::{skip_ahead, take_ahead, Cursor};
use crate::info::ParseInfo;
use crate::parser::{ParseResult, Parser};
use crate::primitives::agree;

verus! {

/// What a memory holds of one call of the parser: the tokens that the call
/// examined, and what it gave.
pub struct MemoEntry<C, T, E> {
    pub tokens: C,
    pub out: ParseResult<T, E>,
}

/// `copy` is `out` with its value or its error cloned.
pub open spec fn copied<T: Clone, E: Clone>(
    out: ParseResult<T, E>,
    copy: ParseResult<T, E>,
) -> bool {
    &&& copy.info == out.info
    &&& match out.res {
        Ok(value) => copy.res is Ok && cloned(value, copy.res->Ok_0),
        Err(error) => copy.res is Err && cloned(error, copy.res->Err_0),
    }
}

/// A copy of `out`.
pub fn copy_outcome<T: Clone, E: Clone>(out: &ParseResult<T, E>) -> (copy: ParseResult<T, E>)
    ensures
        copied(*out, copy),
{
    match &out.res {
        Ok(value) => out.info.ok(value.clone()),
        Err(error) => out.info.err(error.clone()),
    }
}

/// What is kept of a call that gave `out` from `start`: the tokens that the
/// call examined, as far as the input went, and a copy of `out`.
pub fn remember<I, T, E>(start: &I, out: &ParseResult<T, E>) -> (entry: MemoEntry<
    Vec<I::Token>,
    T,
    E,
>) where I: Cursor, T: Clone, E: Clone
    ensures
        entry.tokens@ == start.remaining().take(
            if out.info.read <= start.remaining().len() {
                out.info.read as int
            } else {
                start.remaining().len() as int
            },
        ),
        copied(*out, entry.out),
{
    MemoEntry { tokens: take_ahead(start, out.info.read), out: copy_outcome(out) }
}

/// The tokens of `entry` are the first of those ahead of `start`: the entry
/// was made at such a position.
pub open spec fn matches_entry<I: Cursor, T, E>(
    entry: Option<MemoEntry<Vec<I::Token>, T, E>>,
    start: I,
) -> bool where I::Token: PartialEq {
    &&& entry is Some
    &&& agree(start.remaining(), entry->0.tokens@, entry->0.tokens@.len() as int)
}

/// `out` is what `entry` recorded, given again at `start`: a copy of the
/// outcome, with the cursor at `end` past as many tokens as the outcome
/// took.
pub open spec fn replayed<I: Cursor, T: Clone, E: Clone>(
    entry: Option<MemoEntry<Vec<I::Token>, T, E>>,
    start: I,
    end: I,
    out: ParseResult<T, E>,
) -> bool where I::Token: PartialEq {
    &&& matches_entry(entry, start)
    &&& copied(entry->0.out, out)
    &&& end.remaining() == start.remaining().skip(
        if entry->0.out.info.taken <= start.remaining().len() {
            entry->0.out.info.taken as int
        } else {
            start.remaining().len() as int
        },
    )
}

/// What was remembered at a position is found again at that position, and
/// at every position with the same tokens ahead, provided that each token
/// equals itself.
pub proof fn lemma_remembered_is_found<I: Cursor, T, E>(
    entry: MemoEntry<Vec<I::Token>, T, E>,
    start: I,
    again: I,
    count: int,
) where I::Token: PartialEq
    requires
        0 <= count <= start.remaining().len(),
        entry.tokens@ == start.remaining().take(count),
        count <= again.remaining().len(),
        again.remaining().take(count) == start.remaining().take(count),
        forall|token: I::Token| #[trigger] token.eq_spec(&token),
    ensures
        matches_entry(Some(entry), start),
        matches_entry(Some(entry), again),
{
    let kept = entry.tokens@;
    assert forall|index: int| 0 <= index < count implies {
        &&& (#[trigger] again.remaining()[index]).eq_spec(&kept[index])
        &&& (#[trigger] start.remaining()[index]).eq_spec(&kept[index])
    } by {
        assert(again.remaining()[index] == again.remaining().take(count)[index]);
        assert(start.remaining()[index] == start.remaining().take(count)[index]);
    }
}

/// `found` is the answer of `entry` at `start`: where the tokens of the
/// entry are the first of those ahead, its outcome given again, with the
/// cursor at `end` moved as the outcome did; else nothing, with the cursor
/// where it was.
pub open spec fn replay_gives<I: Cursor, T: Clone, E: Clone>(
    entry: Option<MemoEntry<Vec<I::Token>, T, E>>,
    start: I,
    end: I,
    found: Option<ParseResult<T, E>>,
) -> bool where I::Token: PartialEq {
    if matches_entry(entry, start) {
        found is Some && replayed(entry, start, end, found->0)
    } else {
        found is None && end == start
    }
}

/// Looks `entry` up at the cursor: where its tokens are the first of those
/// ahead, gives its outcome again and moves the cursor as the outcome did.
/// Else the cursor stays.
pub fn replay<I, T, E>(entry: &Option<MemoEntry<Vec<I::Token>, T, E>>, iter: &mut I) -> (found:
    Option<ParseResult<T, E>>) where I: Cursor, I::Token: PartialEq, T: Clone, E: Clone
    requires
        I::Token::obeys_eq_spec(),
    ensures
        replay_gives(*entry, *old(iter), *final(iter), found),
        found is Some <==> matches_entry(*entry, *old(iter)),
        found is Some ==> replayed(*entry, *old(iter), *final(iter), found->0),
        found is None ==> *final(iter) == *old(iter),
{
    match entry {
        None => None,
        Some(held) => {
            let tokens = &held.tokens;
            let kept = &held.out;
            let mut probe = iter.snapshot();
            let mut index: usize = 0;
            proof {
                assert(probe.remaining().skip(0) =~= probe.remaining());
            }
            while index < tokens.len()
                invariant
                    I::Token::obeys_eq_spec(),
                    *entry == Some(*held),
                    tokens@ == held.tokens@,
                    index <= tokens@.len(),
                    agree(iter.remaining(), tokens@, index as int),
                    probe.remaining() == iter.remaining().skip(index as int),
                    *iter == *old(iter),
                decreases tokens@.len() - index,
            {
                let ghost before = probe.remaining();
                match probe.next() {
                    None => {
                        proof {
                            assert(iter.remaining().len() == index);
                        }
                        return None;
                    },
                    Some(token) => {
                        proof {
                            assert(before[0] == iter.remaining()[index as int]);
                            assert(before.drop_first() =~= iter.remaining().skip(index + 1));
                        }
                        if token == tokens[index] {
                            index = index + 1;
                        } else {
                            proof {
                                assert(!iter.remaining()[index as int].eq_spec(
                                    &tokens@[index as int],
                                ));
                            }
                            return None;
                        }
                    },
                }
            }
            skip_ahead(iter, kept.info.taken);
            Some(copy_outcome(kept))
        },
    }
}

/// A memory for the outcomes of one parser: `learn` records what the parser
/// gave at a position, `recall` gives it again at a position that was
/// recorded.
pub trait MemoHandler<I: Cursor> {
    type Value;

    type Error;

    /// The handler can be called.
    spec fn ready(&self) -> bool;

    /// At `start` the handler may answer `found` and leave the cursor at
    /// `end`: an outcome given again, or nothing.
    spec fn recalled(
        &self,
        start: I,
        end: I,
        found: Option<ParseResult<Self::Value, Self::Error>>,
    ) -> bool;

    /// Records that the parser gave `out` from `start`.
    fn learn(&self, start: I, out: &ParseResult<Self::Value, Self::Error>)
        requires
            self.ready(),
    ;

    /// Gives again what was recorded for the position of the cursor, and
    /// moves the cursor as the parser did. Where nothing was recorded, the
    /// cursor stays.
    fn recall(&self, iter: &mut I) -> (found: Option<ParseResult<Self::Value, Self::Error>>)
        requires
            self.ready(),
        ensures
            self.recalled(*old(iter), *final(iter), found),
            found is None ==> *final(iter) == *old(iter),
    ;
}

/// A memory of one outcome: the tokens that were examined, and what the
/// parser gave.
#[verifier::reject_recursive_types(C)]
#[verifier::reject_recursive_types(T)]
#[verifier::reject_recursive_types(E)]
pub struct MemoSingular<C, T, E> {
    pair: std::cell::RefCell<Option<MemoEntry<C, T, E>>>,
}

impl<C, T, E> MemoSingular<C, T, E> {
    /// A memory that holds the outcome `p_res` for the tokens `collection`.
    pub fn new(collection: C, p_res: ParseResult<T, E>) -> MemoSingular<C, T, E> {
        MemoSingular { pair: cell_new(Some(MemoEntry { tokens: collection, out: p_res })) }
    }
}

impl<C, T, E> Default for MemoSingular<C, T, E> {
    /// A memory that holds nothing yet.
    fn default() -> MemoSingular<C, T, E> {
        MemoSingular { pair: cell_new(None) }
    }
}

impl<I, T, E> MemoHandler<I> for MemoSingular<Vec<I::Token>, T, E> where
    I: Cursor,
    I::Token: PartialEq,
    T: Clone,
    E: Clone,
 {
    type Value = T;

    type Error = E;

    open spec fn ready(&self) -> bool {
        I::Token::obeys_eq_spec()
    }

    /// The answer of whatever the memory holds: of some entry, or of none.
    open spec fn recalled(&self, start: I, end: I, found: Option<ParseResult<T, E>>) -> bool {
        exists|entry: Option<MemoEntry<Vec<I::Token>, T, E>>| #[trigger]
            replay_gives(entry, start, end, found)
    }

    /// Where the memory is in use, nothing is recorded.
    fn learn(&self, start: I, out: &ParseResult<T, E>) {
        match cell_claim(&self.pair) {
            None => {},
            Some(mut claim) => {
                let held = cell_open(&mut claim);
                *held = Some(remember(&start, out));
            },
        }
    }

    /// Where the memory is in use, nothing is recalled.
    fn recall(&self, iter: &mut I) -> (found: Option<ParseResult<T, E>>) {
        match cell_claim(&self.pair) {
            None => {
                proof {
                    assert(replay_gives(
                        None::<MemoEntry<Vec<I::Token>, T, E>>,
                        *old(iter),
                        *iter,
                        None::<ParseResult<T, E>>,
                    ));
                }
                None
            },
            Some(mut claim) => {
                let held = cell_open(&mut claim);
                replay(held, iter)
            },
        }
    }
}

/// Records `out` for `start` with the handler that `handlers` has under
/// `key`, or with a new one, which is then put under `key`. No other key is
/// touched.
pub fn learn_keyed<I, K, H>(
    handlers: &mut HashMap<K, H>,
    key: K,
    start: I,
    out: &ParseResult<H::Value, H::Error>,
) where I: Cursor, K: Eq + Hash, H: MemoHandler<I> + Default
    requires
        forall|handler: H| #[trigger] handler.ready(),
    ensures
        obeys_key_model::<K>() ==> {
            &&& final(handlers)@.dom() == old(handlers)@.dom().insert(key)
            &&& forall|other: K| #[trigger]
                old(handlers)@.contains_key(other) ==> final(handlers)@[other] == old(
                    handlers,
                )@[other]
        },
{
    broadcast use vstd::std_specs::hash::group_hash_axioms;

    match handlers.get(&key) {
        Some(handler) => {
            handler.learn(start, out);
            proof {
                if obeys_key_model::<K>() {
                    assert(handlers@.dom() =~= handlers@.dom().insert(key));
                }
            }
        },
        None => {
            let handler = H::default();
            handler.learn(start, out);
            let _ = handlers.insert(key, handler);
            proof {
                if obeys_key_model::<K>() {
                    assert(handlers@.dom() =~= old(handlers)@.dom().insert(key));
                }
            }
        },
    }
}

/// `found` is the answer of a keyed memory at `start`: that of one of its
/// handlers, or nothing, with the cursor where it was, where it has no
/// handler under the key of `start`.
pub open spec fn keyed_recalled<I: Cursor, H: MemoHandler<I>>(
    start: I,
    end: I,
    found: Option<ParseResult<H::Value, H::Error>>,
) -> bool {
    ||| found is None && end == start
    ||| exists|handler: H| #[trigger] handler.recalled(start, end, found)
}

/// What the handler that `handlers` has under `key` recalls at the cursor.
/// With no handler there, nothing, and the cursor stays.
pub fn recall_keyed<I, K, H>(handlers: &HashMap<K, H>, key: &K, iter: &mut I) -> (found: Option<
    ParseResult<H::Value, H::Error>,
>) where I: Cursor, K: Eq + Hash, H: MemoHandler<I>
    requires
        forall|handler: H| #[trigger] handler.ready(),
    ensures
        keyed_recalled::<I, H>(*old(iter), *final(iter), found),
        found is None ==> *final(iter) == *old(iter),
        obeys_key_model::<K>() ==> if handlers@.contains_key(*key) {
            handlers@[*key].recalled(*old(iter), *final(iter), found)
        } else {
            found is None
        },
{
    broadcast use vstd::std_specs::hash::group_hash_axioms;

    match handlers.get(key) {
        Some(handler) => {
            let found = handler.recall(iter);
            proof {
                assert(handler.recalled(*old(iter), *iter, found));
            }
            found
        },
        None => None,
    }
}

/// A memory of one outcome that threads can share.
#[verifier::reject_recursive_types(C)]
#[verifier::reject_recursive_types(T)]
#[verifier::reject_recursive_types(E)]
pub struct SyncMemoSingular<C, T, E> {
    pair: std::sync::RwLock<Option<MemoEntry<C, T, E>>>,
}

impl<C, T, E> SyncMemoSingular<C, T, E> {
    /// A memory that holds the outcome `p_res` for the tokens `collection`.
    pub fn new(collection: C, p_res: ParseResult<T, E>) -> SyncMemoSingular<C, T, E> {
        SyncMemoSingular { pair: lock_new(Some(MemoEntry { tokens: collection, out: p_res })) }
    }
}

impl<C, T, E> Default for SyncMemoSingular<C, T, E> {
    /// A memory that holds nothing yet.
    fn default() -> SyncMemoSingular<C, T, E> {
        SyncMemoSingular { pair: lock_new(None) }
    }
}

impl<I, T, E> MemoHandler<I> for SyncMemoSingular<Vec<I::Token>, T, E> where
    I: Cursor,
    I::Token: PartialEq,
    T: Clone,
    E: Clone,
 {
    type Value = T;

    type Error = E;

    open spec fn ready(&self) -> bool {
        I::Token::obeys_eq_spec()
    }

    /// The answer of whatever the memory holds: of some entry, or of none.
    open spec fn recalled(&self, start: I, end: I, found: Option<ParseResult<T, E>>) -> bool {
        exists|entry: Option<MemoEntry<Vec<I::Token>, T, E>>| #[trigger]
            replay_gives(entry, start, end, found)
    }

    /// Where the memory is in use, nothing is recorded.
    fn learn(&self, start: I, out: &ParseResult<T, E>) {
        match lock_claim(&self.pair) {
            None => {},
            Some(mut claim) => {
                let held = lock_open(&mut claim);
                *held = Some(remember(&start, out));
            },
        }
    }

    /// Where the memory is in use, nothing is recalled.
    fn recall(&self, iter: &mut I) -> (found: Option<ParseResult<T, E>>) {
        match lock_claim(&self.pair) {
            None => {
                proof {
                    assert(replay_gives(
                        None::<MemoEntry<Vec<I::Token>, T, E>>,
                        *old(iter),
                        *iter,
                        None::<ParseResult<T, E>>,
                    ));
                }
                None
            },
            Some(mut claim) => {
                let held = lock_open(&mut claim);
                replay(held, iter)
            },
        }
    }
}

/// A memory of many outcomes: one handler for each key that `key_func`
/// makes of a cursor.
#[verifier::reject_recursive_types(K)]
#[verifier::reject_recursive_types(H)]
pub struct MemoMap<F, K, H> {
    handler_map: std::cell::RefCell<HashMap<K, H>>,
    key_func: F,
}

impl<F, K, H> MemoMap<F, K, H> {
    /// The function that makes the key of a cursor.
    pub closed spec fn keys(&self) -> F {
        self.key_func
    }

    /// A memory with no handler yet.
    pub fn new(key_func: F) -> (made: MemoMap<F, K, H>)
        ensures
            made.keys() == key_func,
    {
        MemoMap { handler_map: cell_new(HashMap::new()), key_func }
    }
}

impl<I, F, K, H> MemoHandler<I> for MemoMap<F, K, H> where
    I: Cursor,
    F: Fn(&I) -> K,
    K: Eq + Hash,
    H: MemoHandler<I> + Default,
 {
    type Value = H::Value;

    type Error = H::Error;

    open spec fn ready(&self) -> bool {
        &&& forall|iter: I| call_requires(self.keys(), (&iter,))
        &&& forall|handler: H| #[trigger] handler.ready()
    }

    open spec fn recalled(
        &self,
        start: I,
        end: I,
        found: Option<ParseResult<H::Value, H::Error>>,
    ) -> bool {
        keyed_recalled::<I, H>(start, end, found)
    }

    /// Where the memory is in use, nothing is recorded.
    fn learn(&self, start: I, out: &ParseResult<H::Value, H::Error>) {
        proof {
            assert(self.keys() == self.key_func);
        }
        let key = (self.key_func)(&start);
        match cell_claim(&self.handler_map) {
            None => {},
            Some(mut claim) => {
                let handlers = cell_open(&mut claim);
                learn_keyed(handlers, key, start, out);
            },
        }
    }

    /// Where the memory is in use, nothing is recalled.
    fn recall(&self, iter: &mut I) -> (found: Option<ParseResult<H::Value, H::Error>>) {
        proof {
            assert(self.keys() == self.key_func);
        }
        let key = (self.key_func)(&*iter);
        match cell_claim(&self.handler_map) {
            None => None,
            Some(mut claim) => {
                let handlers = cell_open(&mut claim);
                recall_keyed(handlers, &key, iter)
            },
        }
    }
}

/// A memory of many outcomes that threads can share.
#[verifier::reject_recursive_types(K)]
#[verifier::reject_recursive_types(H)]
pub struct SyncMemoMap<F, K, H> {
    handler_map: std::sync::RwLock<HashMap<K, H>>,
    key_func: F,
}

impl<F, K, H> SyncMemoMap<F, K, H> {
    /// The function that makes the key of a cursor.
    pub closed spec fn keys(&self) -> F {
        self.key_func
    }

    /// A memory with no handler yet.
    pub fn new(key_func: F) -> (made: SyncMemoMap<F, K, H>)
        ensures
            made.keys() == key_func,
    {
        SyncMemoMap { handler_map: lock_new(HashMap::new()), key_func }
    }
}

impl<I, F, K, H> MemoHandler<I> for SyncMemoMap<F, K, H> where
    I: Cursor,
    F: Fn(&I) -> K,
    K: Eq + Hash,
    H: MemoHandler<I> + Default,
 {
    type Value = H::Value;

    type Error = H::Error;

    open spec fn ready(&self) -> bool {
        &&& forall|iter: I| call_requires(self.keys(), (&iter,))
        &&& forall|handler: H| #[trigger] handler.ready()
    }

    open spec fn recalled(
        &self,
        start: I,
        end: I,
        found: Option<ParseResult<H::Value, H::Error>>,
    ) -> bool {
        keyed_recalled::<I, H>(start, end, found)
    }

    /// Where the memory is in use, nothing is recorded.
    fn learn(&self, start: I, out: &ParseResult<H::Value, H::Error>) {
        proof {
            assert(self.keys() == self.key_func);
        }
        let key = (self.key_func)(&start);
        match lock_claim(&self.handler_map) {
            None => {},
            Some(mut claim) => {
                let handlers = lock_open(&mut claim);
                learn_keyed(handlers, key, start, out);
            },
        }
    }

    /// Where the memory is in use, nothing is recalled.
    fn recall(&self, iter: &mut I) -> (found: Option<ParseResult<H::Value, H::Error>>) {
        proof {
            assert(self.keys() == self.key_func);
        }
        let key = (self.key_func)(&*iter);
        match lock_claim(&self.handler_map) {
            None => None,
            Some(mut claim) => {
                let handlers = lock_open(&mut claim);
                recall_keyed(handlers, &key, iter)
            },
        }
    }
}

/// `parser` with a memory: what the handler recalls at the cursor is given
/// without running `parser`; what `parser` gives is recorded.
#[derive(Clone)]
pub struct Memo<P, H> {
    pub parser: P,
    pub handler: H,
}

impl<P, H> Memo<P, H> {
    pub fn new(parser: P, handler: H) -> (made: Memo<P, H>)
        ensures
            made.parser == parser,
            made.handler == handler,
    {
        Memo { parser, handler }
    }
}

impl<I, P, H, T, E> Parser<I> for Memo<P, H> where
    I: Cursor,
    P: Parser<I, Value = T, Error = E>,
    H: MemoHandler<I, Value = T, Error = E>,
 {
    type Value = T;

    type Error = E;

    open spec fn ready(&self) -> bool {
        self.parser.ready() && self.handler.ready()
    }

    /// What the handler gives again at `start`; or, where the handler has
    /// no answer there, what `parser` gives.
    open spec fn parsed(&self, start: I, end: I, out: ParseResult<T, E>) -> bool {
        ||| self.handler.recalled(start, end, Some(out))
        ||| self.handler.recalled(start, start, None) && self.parser.parsed(start, end, out)
    }

    fn parse(&self, iter: &mut I) -> (out: ParseResult<T, E>) {
        match self.handler.recall(iter) {
            Some(known) => known,
            None => {
                let start = iter.snapshot();
                let out = self.parser.parse(iter);
                self.handler.learn(start, &out);
                out
            },
        }
    }
}

/// `parser` with a memory that records only the outcomes of which
/// `predicate` holds.
#[derive(Clone)]
pub struct MemoIf<P, H, F> {
    pub parser: P,
    pub handler: H,
    pub predicate: F,
}

impl<P, H, F> MemoIf<P, H, F> {
    pub fn new(parser: P, handler: H, predicate: F) -> (made: MemoIf<P, H, F>)
        ensures
            made.parser == parser,
            made.handler == handler,
            made.predicate == predicate,
    {
        MemoIf { parser, handler, predicate }
    }
}

impl<I, P, H, F, T, E> Parser<I> for MemoIf<P, H, F> where
    I: Cursor,
    P: Parser<I, Value = T, Error = E>,
    H: MemoHandler<I, Value = T, Error = E>,
    F: Fn(ParseInfo, &Result<T, E>) -> bool,
 {
    type Value = T;

    type Error = E;

    open spec fn ready(&self) -> bool {
        &&& self.parser.ready()
        &&& self.handler.ready()
        &&& forall|info: ParseInfo, res: Result<T, E>| call_requires(self.predicate, (info, &res))
    }

    /// What the handler gives again at `start`; or, where the handler has
    /// no answer there, what `parser` gives.
    open spec fn parsed(&self, start: I, end: I, out: ParseResult<T, E>) -> bool {
        ||| self.handler.recalled(start, end, Some(out))
        ||| self.handler.recalled(start, start, None) && self.parser.parsed(start, end, out)
    }

    fn parse(&self, iter: &mut I) -> (out: ParseResult<T, E>) {
        match self.handler.recall(iter) {
            Some(known) => known,
            None => {
                let start = iter.snapshot();
                let out = self.parser.parse(iter);
                if (self.predicate)(out.info, &out.res) {
                    self.handler.learn(start, &out);
                }
                out
            },
        }
    }
}

} // verus!

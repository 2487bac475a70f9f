use std::cell::{Cell, RefCell};
use std::collections::HashMap;
use std::rc::Rc;
use parsekit::indirection::{run_defined, run_made, settled, ForwardDef, LazyParser, Target};
use parsekit::memo::{
    copy_outcome, learn_keyed, recall_keyed, remember, replay, Memo, MemoEntry, MemoHandler,
    MemoIf, MemoMap, MemoSingular, SyncMemoMap, SyncMemoSingular,
};
use parsekit::{Cursor, ParseInfo, ParseResult, Parser, SizedParser};

/// The characters of `expect`, read all at once and compared afterwards.
struct Expect {
    expect: String,
    err: String,
}

impl<I> Parser<I> for Expect
where
    I: Cursor<Token = char>,
{
    type Value = String;
    type Error = String;

    fn ready(&self) -> bool {
        true
    }

    fn parsed(&self, _start: I, _end: I, _out: ParseResult<String, String>) -> bool {
        true
    }

    fn parse(&self, iter: &mut I) -> ParseResult<String, String> {
        let mut found = String::new();
        for _ in 0..self.expect.len() {
            match iter.next() {
                Some(c) => found.push(c),
                None => break,
            }
        }
        let info = ParseInfo::new(found.len(), self.expect.len());
        if found == self.expect {
            info.ok(self.expect.clone())
        } else {
            info.err(self.err.clone())
        }
    }
}

fn expect<I>(expect: &str, err: &str) -> impl Parser<I, Value = String, Error = String>
where
    I: Cursor<Token = char>,
{
    Expect {
        expect: expect.to_string(),
        err: err.to_string(),
    }
}

fn rest_of(iter: &std::str::Chars<'_>) -> String {
    iter.as_str().to_string()
}

/// `inner`, with the number of its calls counted.
struct Counting<'c, P> {
    inner: P,
    calls: &'c Cell<usize>,
}

impl<'c, I, P> Parser<I> for Counting<'c, P>
where
    I: Cursor,
    P: Parser<I>,
{
    type Value = P::Value;
    type Error = P::Error;

    fn ready(&self) -> bool {
        true
    }

    fn parsed(&self, _start: I, _end: I, _out: ParseResult<P::Value, P::Error>) -> bool {
        true
    }

    fn parse(&self, iter: &mut I) -> ParseResult<P::Value, P::Error> {
        self.calls.set(self.calls.get() + 1);
        self.inner.parse(iter)
    }
}

fn counting<'c, I, P>(
    inner: P,
    calls: &'c Cell<usize>,
) -> impl Parser<I, Value = P::Value, Error = P::Error> + 'c
where
    I: Cursor,
    P: Parser<I> + 'c,
{
    Counting { inner, calls }
}

type Chars = std::str::Chars<'static>;
type Single = MemoSingular<Vec<char>, String, String>;
type SharedSingle = SyncMemoSingular<Vec<char>, String, String>;

fn left(iter: &Chars) -> usize {
    iter.as_str().len()
}

#[test]
fn a_memo_runs_its_parser_once_for_one_position() {
    let calls = Cell::new(0);
    let parser = Memo::new(counting(expect("abc", "no abc"), &calls), Single::default());
    let mut first: Chars = "abcdef".chars();
    let one = parser.parse(&mut first);
    assert_eq!(calls.get(), 1);
    let mut second: Chars = "abcdef".chars();
    let two = parser.parse(&mut second);
    assert_eq!(calls.get(), 1);
    assert_eq!(one.res, Ok("abc".to_string()));
    assert_eq!(two.res, Ok("abc".to_string()));
    assert_eq!(one.info, ParseInfo::new(3, 3));
    assert_eq!(two.info, ParseInfo::new(3, 3));
    assert_eq!(rest_of(&first), "def");
    assert_eq!(rest_of(&second), "def");
}

#[test]
fn a_memo_recalls_a_failure_too() {
    let calls = Cell::new(0);
    let parser = Memo::new(
        counting(expect("abc", "no abc").attempt(), &calls),
        Single::default(),
    );
    let mut first: Chars = "abXdef".chars();
    let one = parser.parse(&mut first);
    let mut second: Chars = "abXdef".chars();
    let two = parser.parse(&mut second);
    assert_eq!(calls.get(), 1);
    assert_eq!(one.res, Err("no abc".to_string()));
    assert_eq!(two.res, Err("no abc".to_string()));
    assert_eq!(two.info, ParseInfo::new(0, 3));
    assert_eq!(rest_of(&second), "abXdef");
}

#[test]
fn a_memo_runs_its_parser_again_on_other_tokens() {
    let calls = Cell::new(0);
    let parser = Memo::new(counting(expect("abc", "no abc"), &calls), Single::default());
    let mut first: Chars = "abcdef".chars();
    let one = parser.parse(&mut first);
    let mut second: Chars = "abXdef".chars();
    let two = parser.parse(&mut second);
    assert_eq!(calls.get(), 2);
    assert_eq!(one.res, Ok("abc".to_string()));
    assert_eq!(two.res, Err("no abc".to_string()));
    assert_eq!(rest_of(&second), "def");
}

#[test]
fn a_single_memory_made_with_an_outcome_recalls_it() {
    let handler = Single::new(vec!['a', 'b'], ParseInfo::new(1, 2).ok("kept".to_string()));
    let mut hit: Chars = "abc".chars();
    let found = handler.recall(&mut hit);
    assert!(matches!(found, Some(ref out) if out.res == Ok("kept".to_string())));
    assert!(matches!(found, Some(ref out) if out.info == ParseInfo::new(1, 2)));
    assert_eq!(rest_of(&hit), "bc");
    let mut miss: Chars = "acb".chars();
    assert!(handler.recall(&mut miss).is_none());
    assert_eq!(rest_of(&miss), "acb");
    let mut short: Chars = "a".chars();
    assert!(handler.recall(&mut short).is_none());
    assert_eq!(rest_of(&short), "a");
}

#[test]
fn a_single_memory_keeps_the_last_outcome() {
    let handler = Single::default();
    let mut iter: Chars = "abc".chars();
    assert!(handler.recall(&mut iter).is_none());
    handler.learn("abc".chars(), &ParseInfo::new(2, 2).ok("ab".to_string()));
    handler.learn("xyz".chars(), &ParseInfo::new(1, 3).err("no".to_string()));
    assert!(handler.recall(&mut iter).is_none());
    let mut other: Chars = "xyz!".chars();
    let found = handler.recall(&mut other);
    assert!(matches!(found, Some(ref out) if out.res == Err("no".to_string())));
    assert_eq!(rest_of(&other), "yz!");
}

#[test]
fn a_shared_single_memory_recalls_what_it_learned() {
    let handler = SharedSingle::default();
    let mut iter: Chars = "abc".chars();
    assert!(handler.recall(&mut iter).is_none());
    handler.learn("abc".chars(), &ParseInfo::new(2, 3).ok("ab".to_string()));
    let found = handler.recall(&mut iter);
    assert!(matches!(found, Some(ref out) if out.res == Ok("ab".to_string())));
    assert_eq!(rest_of(&iter), "c");
    let made = SharedSingle::new(vec!['x'], ParseInfo::new(1, 1).ok("x".to_string()));
    let mut other: Chars = "xy".chars();
    assert!(made.recall(&mut other).is_some());
    assert_eq!(rest_of(&other), "y");
}

#[test]
fn a_keyed_memory_keeps_one_outcome_for_each_key() {
    let calls = Cell::new(0);
    let handler: MemoMap<_, usize, Single> = MemoMap::new(left);
    let parser = Memo::new(counting(expect("ab", "no ab"), &calls), handler);
    let mut long: Chars = "abab".chars();
    let mut short: Chars = "ab".chars();
    assert_eq!(parser.parse(&mut long).res, Ok("ab".to_string()));
    assert_eq!(parser.parse(&mut short).res, Ok("ab".to_string()));
    assert_eq!(calls.get(), 2);
    let mut long_again: Chars = "abab".chars();
    let mut short_again: Chars = "ab".chars();
    assert_eq!(parser.parse(&mut long_again).res, Ok("ab".to_string()));
    assert_eq!(parser.parse(&mut short_again).res, Ok("ab".to_string()));
    assert_eq!(calls.get(), 2);
    assert_eq!(rest_of(&long_again), "ab");
    assert_eq!(rest_of(&short_again), "");
    assert_eq!(parser.parse(&mut long_again).res, Ok("ab".to_string()));
    assert_eq!(calls.get(), 2);
}

#[test]
fn a_shared_keyed_memory_keeps_one_outcome_for_each_key() {
    let calls = Cell::new(0);
    let handler: SyncMemoMap<_, usize, SharedSingle> = SyncMemoMap::new(left);
    let parser = Memo::new(counting(expect("ab", "no ab"), &calls), handler);
    let mut first: Chars = "abX".chars();
    assert_eq!(parser.parse(&mut first).res, Ok("ab".to_string()));
    let mut second: Chars = "abX".chars();
    assert_eq!(parser.parse(&mut second).res, Ok("ab".to_string()));
    assert_eq!(calls.get(), 1);
    assert_eq!(parser.parse(&mut second).res, Err("no ab".to_string()));
    assert_eq!(calls.get(), 2);
}

#[test]
fn a_memo_with_a_predicate_records_only_what_it_admits() {
    let calls = Cell::new(0);
    let parser = MemoIf::new(
        counting(expect("abc", "no abc"), &calls),
        Single::default(),
        |_info: ParseInfo, res: &Result<String, String>| res.is_ok(),
    );
    let mut bad: Chars = "abX".chars();
    assert_eq!(parser.parse(&mut bad).res, Err("no abc".to_string()));
    let mut bad_again: Chars = "abX".chars();
    assert_eq!(parser.parse(&mut bad_again).res, Err("no abc".to_string()));
    assert_eq!(calls.get(), 2);
    let mut good: Chars = "abc".chars();
    assert_eq!(parser.parse(&mut good).res, Ok("abc".to_string()));
    let mut good_again: Chars = "abc".chars();
    assert_eq!(parser.parse(&mut good_again).res, Ok("abc".to_string()));
    assert_eq!(calls.get(), 3);
}

#[test]
fn replay_gives_the_entry_again_where_its_tokens_are_ahead() {
    let entry = Some(MemoEntry {
        tokens: vec!['a', 'b', 'c'],
        out: ParseInfo::new(2, 3).ok::<u8, u8>(5),
    });
    let mut hit: Chars = "abcd".chars();
    let found = replay(&entry, &mut hit);
    assert!(matches!(found, Some(ref out) if out.res == Ok(5)));
    assert_eq!(rest_of(&hit), "cd");
    let mut miss: Chars = "abd".chars();
    assert!(replay(&entry, &mut miss).is_none());
    assert_eq!(rest_of(&miss), "abd");
    let nothing: Option<MemoEntry<Vec<char>, u8, u8>> = None;
    assert!(replay(&nothing, &mut hit).is_none());
    assert_eq!(rest_of(&hit), "cd");
}

#[test]
fn a_copy_of_an_outcome_is_the_outcome() {
    let out: ParseResult<String, u8> = ParseInfo::new(1, 4).ok("v".to_string());
    let copy = copy_outcome(&out);
    assert_eq!(copy.res, Ok("v".to_string()));
    assert_eq!(copy.info, ParseInfo::new(1, 4));
    let bad: ParseResult<String, u8> = ParseInfo::new(0, 2).err(3);
    let copy = copy_outcome(&bad);
    assert_eq!(copy.res, Err(3));
    assert_eq!(copy.info, ParseInfo::new(0, 2));
}

#[test]
fn a_forward_definition_has_no_outcome_before_it_is_defined() {
    let forward: ForwardDef<'_, Chars, String, String> = ForwardDef::new();
    let mut iter: Chars = "abc".chars();
    assert!(forward.try_parse(&mut iter).is_none());
    assert_eq!(rest_of(&iter), "abc");
}

#[test]
fn a_forward_definition_is_defined_once() {
    let first = expect("abc", "first");
    let second = expect("abc", "second");
    let forward: ForwardDef<'_, Chars, String, String> = ForwardDef::new();
    assert!(forward.define(&first).is_ok());
    assert!(forward.define(&second).is_err());
    let mut iter: Chars = "abX".chars();
    let out = forward.try_parse(&mut iter);
    assert!(matches!(out, Some(ref out) if out.res == Err("first".to_string())));
    assert!(matches!(out, Some(ref out) if out.info == ParseInfo::new(3, 3)));
}

#[test]
fn a_lazy_parser_is_made_once() {
    let made = Cell::new(0);
    let lazy = LazyParser::new(|| {
        made.set(made.get() + 1);
        Expect { expect: "ab".to_string(), err: "no ab".to_string() }
    });
    assert_eq!(made.get(), 0);
    let mut iter: Chars = "ababX".chars();
    let first = lazy.try_parse(&mut iter);
    assert!(matches!(first, Some(ref out) if out.res == Ok("ab".to_string())));
    assert_eq!(made.get(), 1);
    let second = lazy.try_parse(&mut iter);
    assert!(matches!(second, Some(ref out) if out.res == Ok("ab".to_string())));
    let third = lazy.try_parse(&mut iter);
    assert!(matches!(third, Some(ref out) if out.res == Err("no ab".to_string())));
    assert_eq!(made.get(), 1);
    assert_eq!(rest_of(&iter), "");
}

#[test]
fn a_keyed_recall_asks_the_handler_under_the_key() {
    let mut handlers: HashMap<usize, Single> = HashMap::new();
    handlers.insert(3, Single::new(vec!['a'], ParseInfo::new(1, 1).ok("three".to_string())));
    handlers.insert(5, Single::new(vec!['a'], ParseInfo::new(1, 2).ok("five".to_string())));
    let mut iter: Chars = "abc".chars();
    let found = recall_keyed(&handlers, &5, &mut iter);
    assert!(matches!(found, Some(ref out) if out.res == Ok("five".to_string())));
    assert!(matches!(found, Some(ref out) if out.info == ParseInfo::new(1, 2)));
    assert_eq!(rest_of(&iter), "bc");
    let found = recall_keyed(&handlers, &3, &mut iter);
    assert!(found.is_none());
    assert_eq!(rest_of(&iter), "bc");
    let found = recall_keyed(&handlers, &7, &mut iter);
    assert!(found.is_none());
    assert_eq!(rest_of(&iter), "bc");
}

#[test]
fn a_keyed_learning_makes_a_handler_where_there_is_none() {
    let mut handlers: HashMap<usize, Single> = HashMap::new();
    learn_keyed(&mut handlers, 3, "abc".chars(), &ParseInfo::new(2, 2).ok("ab".to_string()));
    assert_eq!(handlers.len(), 1);
    learn_keyed(&mut handlers, 3, "xyz".chars(), &ParseInfo::new(1, 1).ok("x".to_string()));
    assert_eq!(handlers.len(), 1);
    learn_keyed(&mut handlers, 4, "abc".chars(), &ParseInfo::new(1, 1).ok("a".to_string()));
    assert_eq!(handlers.len(), 2);
    let mut iter: Chars = "xyz".chars();
    let found = recall_keyed(&handlers, &3, &mut iter);
    assert!(matches!(found, Some(ref out) if out.res == Ok("x".to_string())));
    assert_eq!(rest_of(&iter), "yz");
}

#[test]
fn what_is_remembered_is_what_was_examined() {
    let start: Chars = "abcdef".chars();
    let out: ParseResult<String, String> = ParseInfo::new(2, 4).ok("ab".to_string());
    let entry = remember(&start, &out);
    assert_eq!(entry.tokens, vec!['a', 'b', 'c', 'd']);
    assert_eq!(entry.out.res, Ok("ab".to_string()));
    assert_eq!(entry.out.info, ParseInfo::new(2, 4));
    let short: Chars = "ab".chars();
    let entry = remember(&short, &out);
    assert_eq!(entry.tokens, vec!['a', 'b']);
}

#[test]
fn a_made_parser_is_run_and_none_is_not() {
    let mut iter: Chars = "abab".chars();
    let made = Some(Rc::new(Expect { expect: "ab".to_string(), err: "no ab".to_string() }));
    let out = run_made(made, &mut iter);
    assert!(matches!(out, Some(ref out) if out.res == Ok("ab".to_string())));
    assert_eq!(rest_of(&iter), "ab");
    let nothing: Option<Rc<Expect>> = None;
    assert!(run_made(nothing, &mut iter).is_none());
    assert_eq!(rest_of(&iter), "ab");
}

#[test]
fn with_no_target_nothing_is_run() {
    let mut iter: Chars = "abab".chars();
    let nothing: Option<&Target<'static, Chars, String, String>> = None;
    assert!(run_defined(nothing, &mut iter).is_none());
    assert_eq!(rest_of(&iter), "abab");
}

#[test]
fn a_definition_that_the_cell_took_is_made() {
    let parser = Expect { expect: "ab".to_string(), err: "no ab".to_string() };
    let taken: Result<(), Target<'_, Chars, String, String>> = Ok(());
    assert!(settled(taken, &parser).is_ok());
    let refused: Result<(), Target<'_, Chars, String, String>> = Err(Target::of(&parser));
    assert!(settled(refused, &parser).is_err());
}

#[test]
fn a_target_runs_the_parser_it_was_made_of() {
    let parser = Expect { expect: "ab".to_string(), err: "no ab".to_string() };
    let target: Target<'_, Chars, String, String> = Target::of(&parser);
    let mut iter: Chars = "abX".chars();
    let out = run_defined(Some(&target), &mut iter);
    assert!(matches!(out, Some(ref out) if out.res == Ok("ab".to_string())));
    assert!(matches!(out, Some(ref out) if out.info == ParseInfo::new(2, 2)));
    assert_eq!(rest_of(&iter), "X");
    let out = run_defined(Some(&target), &mut iter);
    assert!(matches!(out, Some(ref out) if out.res == Err("no ab".to_string())));
}

type Maker = Box<dyn FnOnce() -> Expect>;
type Slot = Rc<RefCell<Option<Rc<LazyParser<Chars, Expect, Maker>>>>>;

#[test]
fn a_lazy_parser_that_is_used_by_its_own_constructor_has_no_outcome() {
    let slot: Slot = Rc::new(RefCell::new(None));
    let seen = Rc::new(Cell::new(false));
    let inner_slot = slot.clone();
    let inner_seen = seen.clone();
    let maker: Maker = Box::new(move || {
        if let Some(inner) = inner_slot.borrow().as_ref() {
            let mut probe: Chars = "ab".chars();
            inner_seen.set(inner.try_parse(&mut probe).is_none());
        }
        Expect { expect: "ab".to_string(), err: "no ab".to_string() }
    });
    let lazy = Rc::new(LazyParser::new(maker));
    *slot.borrow_mut() = Some(lazy.clone());
    let mut iter: Chars = "abab".chars();
    let out = lazy.try_parse(&mut iter);
    assert!(matches!(out, Some(ref out) if out.res == Ok("ab".to_string())));
    assert!(seen.get());
    let again = lazy.try_parse(&mut iter);
    assert!(matches!(again, Some(ref out) if out.res == Ok("ab".to_string())));
    *slot.borrow_mut() = None;
}

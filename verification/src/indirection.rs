use vstd::prelude::*;
use std::rc::Rc;
use crate::cursor::Cursor;
use std::marker::PhantomData;
use crate::cells::{cell_claim, cell_new, cell_open, once_get, once_new, once_set, rc_share};
use crate::parser::{ParseResult, Parser};

verus! {

/// A parser seen through its cursor, value and error types alone, so that
/// parsers of different types can stand behind one reference.
pub trait AnyParser<I: Cursor, T, E> {
    spec fn any_ready(&self) -> bool;

    spec fn any_parsed(&self, start: I, end: I, out: ParseResult<T, E>) -> bool;

    fn any_parse(&self, iter: &mut I) -> (out: ParseResult<T, E>)
        requires
            self.any_ready(),
        ensures
            self.any_parsed(*old(iter), *final(iter), out),
    ;
}

impl<I: Cursor, P: Parser<I>> AnyParser<I, P::Value, P::Error> for P {
    open spec fn any_ready(&self) -> bool {
        self.ready()
    }

    open spec fn any_parsed(&self, start: I, end: I, out: ParseResult<P::Value, P::Error>) -> bool {
        self.parsed(start, end, out)
    }

    fn any_parse(&self, iter: &mut I) -> (out: ParseResult<P::Value, P::Error>) {
        self.parse(iter)
    }
}

/// A borrowed parser that is ready to be called.
#[verifier::reject_recursive_types(I)]
#[verifier::reject_recursive_types(T)]
#[verifier::reject_recursive_types(E)]
pub struct Target<'p, I: Cursor, T, E> {
    parser: &'p dyn AnyParser<I, T, E>,
}

impl<'p, I: Cursor, T, E> Target<'p, I, T, E> {
    #[verifier::type_invariant]
    spec fn callable(self) -> bool {
        self.parser.any_ready()
    }

    /// From `start` the borrowed parser may stop at `end` and give `out`.
    pub closed spec fn leads(&self, start: I, end: I, out: ParseResult<T, E>) -> bool {
        self.parser.any_parsed(start, end, out)
    }

    /// `parser`, borrowed: it leads where `parser` does.
    pub fn of<P>(parser: &'p P) -> (made: Target<'p, I, T, E>) where
        P: Parser<I, Value = T, Error = E>,

        requires
            parser.ready(),
        ensures
            forall|start: I, end: I, out: ParseResult<T, E>| #[trigger]
                made.leads(start, end, out) <==> parser.parsed(start, end, out),
    {
        Target { parser }
    }
}

/// A parser that is named before it is defined, so that a grammar can
/// refer to itself. It is defined once, with `define`.
#[verifier::reject_recursive_types(I)]
#[verifier::reject_recursive_types(T)]
#[verifier::reject_recursive_types(E)]
pub struct ForwardDef<'p, I: Cursor, T, E> {
    parser: std::cell::OnceCell<Target<'p, I, T, E>>,
}

impl<'p, I: Cursor, T, E> ForwardDef<'p, I, T, E> {
    /// A parser that is yet to be defined.
    pub fn new() -> ForwardDef<'p, I, T, E> {
        ForwardDef { parser: once_new() }
    }

    /// Defines the parser as `parser`. Where it was defined before, the
    /// definition stays and `parser` is handed back.
    pub fn define<P>(&self, parser: &'p P) -> (res: Result<(), &'p P>) where
        P: Parser<I, Value = T, Error = E>,

        requires
            parser.ready(),
        ensures
            res is Err ==> res->Err_0 == parser,
    {
        settled(once_set(&self.parser, Target::of(parser)), parser)
    }

    /// Runs the parser that was defined. Where none was defined yet, there
    /// is no outcome, and the cursor stays.
    pub fn try_parse(&self, iter: &mut I) -> (out: Option<ParseResult<T, E>>)
        ensures
            out is None ==> *final(iter) == *old(iter),
            out is Some ==> exists|target: Target<'p, I, T, E>| #[trigger]
                target.leads(*old(iter), *final(iter), out->0),
    {
        let out = run_defined(once_get(&self.parser), iter);
        proof {
            if out is Some {
                assert(exists|target: Target<'p, I, T, E>| #[trigger]
                    target.leads(*old(iter), *iter, out->0));
            }
        }
        out
    }
}

/// What `define` answers when the cell answered `set` to the attempt to
/// fill it: the definition is made exactly where the cell took it, and
/// `parser` is handed back where it did not.
pub fn settled<'p, I: Cursor, T, E, P>(
    set: Result<(), Target<'p, I, T, E>>,
    parser: &'p P,
) -> (res: Result<(), &'p P>)
    ensures
        res is Ok <==> set is Ok,
        res is Err ==> res->Err_0 == parser,
{
    match set {
        Ok(()) => Ok(()),
        Err(_) => Err(parser),
    }
}

/// Runs the parser that `target` holds, if it holds one: the outcome is
/// that parser's. With none there is no outcome, and the cursor stays.
pub fn run_defined<'p, I: Cursor, T, E>(
    target: Option<&Target<'p, I, T, E>>,
    iter: &mut I,
) -> (out: Option<ParseResult<T, E>>)
    ensures
        out is Some <==> target is Some,
        out is Some ==> target->0.leads(*old(iter), *final(iter), out->0),
        out is None ==> *final(iter) == *old(iter),
{
    match target {
        None => None,
        Some(target) => {
            proof {
                use_type_invariant(target);
            }
            let out = target.parser.any_parse(iter);
            Some(out)
        },
    }
}

/// Where a lazy parser stands: its constructor is yet to be called, or is
/// being called, or has made the parser.
pub enum LazyState<P, F> {
    Waiting(F),
    Building,
    Built(Rc<P>),
}

/// What a lazy parser keeps: where it stands, and which constructor it was
/// given. The constructor can be called, what it makes is ready to parse,
/// and a parser that is kept was made by it.
#[verifier::reject_recursive_types(I)]
#[verifier::reject_recursive_types(P)]
#[verifier::reject_recursive_types(F)]
pub struct LazyCore<I, P, F> where I: Cursor, P: Parser<I>, F: FnOnce() -> P {
    state: LazyState<P, F>,
    maker: Ghost<F>,
    _i: PhantomData<I>,
}

impl<I, P, F> LazyCore<I, P, F> where I: Cursor, P: Parser<I>, F: FnOnce() -> P {
    #[verifier::type_invariant]
    spec fn sound(self) -> bool {
        &&& call_requires(self.maker@, ())
        &&& forall|made: P| call_ensures(self.maker@, (), made) ==> #[trigger] made.ready()
        &&& match self.state {
            LazyState::Waiting(f) => f == self.maker@,
            LazyState::Building => true,
            LazyState::Built(made) => call_ensures(self.maker@, (), *made),
        }
    }

    /// Where the lazy parser stands.
    pub closed spec fn state(self) -> LazyState<P, F> {
        self.state
    }

    /// The constructor that the lazy parser was given.
    pub closed spec fn maker(self) -> F {
        self.maker@
    }

    /// The start: `f` is yet to be called.
    pub fn waiting(f: F) -> (core: LazyCore<I, P, F>)
        requires
            call_requires(f, ()),
            forall|made: P| call_ensures(f, (), made) ==> #[trigger] made.ready(),
        ensures
            core.state() == LazyState::<P, F>::Waiting(f),
            core.maker() == f,
    {
        LazyCore { state: LazyState::Waiting(f), maker: Ghost(f), _i: PhantomData }
    }

    /// The parser to run, if there is one now. A waiting constructor is
    /// called, once, and the parser it makes is kept; a parser that is kept
    /// is handed out again. While the constructor is being called there is
    /// none.
    pub fn wake(&mut self) -> (made: Option<Rc<P>>)
        ensures
            final(self).maker() == old(self).maker(),
            match old(self).state() {
                LazyState::Waiting(f) => {
                    &&& made is Some
                    &&& call_ensures(f, (), *made->0)
                    &&& final(self).state() == LazyState::<P, F>::Built(made->0)
                },
                LazyState::Building => made is None && final(self).state() == old(self).state(),
                LazyState::Built(kept) => made == Some(kept) && final(self).state() == old(
                    self,
                ).state(),
            },
            made is Some ==> (*made->0).ready() && call_ensures(old(self).maker(), (), *made->0),
    {
        proof {
            use_type_invariant(&*self);
        }
        let mut taken = LazyState::Building;
        std::mem::swap(&mut self.state, &mut taken);
        match taken {
            LazyState::Waiting(f) => {
                let made = Rc::new(f());
                self.state = LazyState::Built(rc_share(&made));
                Some(made)
            },
            LazyState::Building => None,
            LazyState::Built(kept) => {
                let shared = rc_share(&kept);
                self.state = LazyState::Built(kept);
                Some(shared)
            },
        }
    }
}

/// A parser that is made by `f` when it is first used, and kept for every
/// later use.
#[verifier::reject_recursive_types(I)]
#[verifier::reject_recursive_types(P)]
#[verifier::reject_recursive_types(F)]
pub struct LazyParser<I, P, F> where I: Cursor, P: Parser<I>, F: FnOnce() -> P {
    parser: std::cell::RefCell<LazyCore<I, P, F>>,
}

impl<I, P, F> LazyParser<I, P, F> where I: Cursor, P: Parser<I>, F: FnOnce() -> P {
    /// A parser that `f` is to make. `f` is not called yet.
    pub fn new(f: F) -> LazyParser<I, P, F>
        requires
            call_requires(f, ()),
            forall|made: P| call_ensures(f, (), made) ==> #[trigger] made.ready(),
    {
        LazyParser { parser: cell_new(LazyCore::waiting(f)) }
    }

    /// Runs the parser, which is made first where it was not made yet: the
    /// outcome is that of a parser that the constructor made. While the
    /// constructor itself is running there is no parser: a call from within
    /// it has no outcome, and the cursor stays.
    pub fn try_parse(&self, iter: &mut I) -> (out: Option<ParseResult<P::Value, P::Error>>)
        ensures
            out is None ==> *final(iter) == *old(iter),
            out is Some ==> exists|f: F, made: P|
                {
                    &&& #[trigger] call_ensures(f, (), made)
                    &&& #[trigger] made.parsed(*old(iter), *final(iter), out->0)
                },
    {
        let ghost mut maker: Option<F> = None;
        let made = match cell_claim(&self.parser) {
            None => None,
            Some(mut claim) => {
                let core = cell_open(&mut claim);
                proof {
                    maker = Some(core.maker());
                }
                core.wake()
            },
        };
        let ghost parser = made;
        let out = run_made(made, iter);
        proof {
            if out is Some {
                assert(call_ensures(maker->0, (), *parser->0));
                assert((*parser->0).parsed(*old(iter), *iter, out->0));
            }
        }
        out
    }
}

/// Runs the parser `made`, if there is one: the outcome is that parser's.
/// With none there is no outcome, and the cursor stays.
pub fn run_made<I, P>(made: Option<Rc<P>>, iter: &mut I) -> (out: Option<
    ParseResult<P::Value, P::Error>,
>) where I: Cursor, P: Parser<I>
    requires
        made is Some ==> (*made->0).ready(),
    ensures
        out is Some <==> made is Some,
        out is Some ==> (*made->0).parsed(*old(iter), *final(iter), out->0),
        out is None ==> *final(iter) == *old(iter),
{
    match made {
        None => None,
        Some(parser) => Some(parser.parse(iter)),
    }
}

} // verus!

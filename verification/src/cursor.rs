use vstd::prelude::*;

verus! {

/// A position in a sequence of tokens. Parsers read tokens through `next`,
/// and go back by keeping a `snapshot` and assigning it to the cursor.
pub trait Cursor: Sized {
    type Token;

    /// The tokens from the position to the end.
    spec fn remaining(&self) -> Seq<Self::Token>;

    /// A copy of the cursor that stands where the cursor stands.
    fn snapshot(&self) -> (copy: Self)
        ensures
            copy == *self,
    ;

    /// Hands out the token at the position and steps over it. At the end
    /// there is no token, and the cursor stays.
    fn next(&mut self) -> (token: Option<Self::Token>)
        ensures
            old(self).remaining().len() == 0 ==> token is None && final(self).remaining()
                == old(self).remaining(),
            old(self).remaining().len() > 0 ==> token == Some(old(self).remaining()[0])
                && final(self).remaining() == old(self).remaining().drop_first(),
    ;
}

/// The first `count` tokens ahead of `iter`, or all that are left. The
/// cursor itself stays.
pub fn take_ahead<I: Cursor>(iter: &I, count: usize) -> (found: Vec<I::Token>)
    ensures
        found@ == iter.remaining().take(
            if count <= iter.remaining().len() {
                count as int
            } else {
                iter.remaining().len() as int
            },
        ),
{
    let mut probe = iter.snapshot();
    let mut found: Vec<I::Token> = Vec::new();
    let mut ended = false;
    while found.len() < count && !ended
        invariant
            found@.len() <= count,
            found@.len() <= iter.remaining().len(),
            found@ == iter.remaining().take(found@.len() as int),
            probe.remaining() == iter.remaining().skip(found@.len() as int),
            ended ==> found@.len() == iter.remaining().len(),
        decreases count - found@.len() + (if ended { 0int } else { 1int }),
    {
        match probe.next() {
            Some(token) => {
                found.push(token);
                proof {
                    assert(found@ =~= iter.remaining().take(found@.len() as int));
                    assert(probe.remaining() =~= iter.remaining().skip(found@.len() as int));
                }
            },
            None => {
                ended = true;
            },
        }
    }
    found
}

/// Steps over the first `count` tokens ahead of `iter`, or over all that
/// are left.
pub fn skip_ahead<I: Cursor>(iter: &mut I, count: usize)
    ensures
        final(iter).remaining() == old(iter).remaining().skip(
            if count <= old(iter).remaining().len() {
                count as int
            } else {
                old(iter).remaining().len() as int
            },
        ),
{
    let mut done: usize = 0;
    let mut ended = false;
    proof {
        assert(iter.remaining().skip(0) =~= iter.remaining());
    }
    while done < count && !ended
        invariant
            done <= count,
            done <= old(iter).remaining().len(),
            iter.remaining() == old(iter).remaining().skip(done as int),
            ended ==> done == old(iter).remaining().len(),
        decreases count - done + (if ended { 0int } else { 1int }),
    {
        let ghost before = iter.remaining();
        match iter.next() {
            Some(_) => {
                proof {
                    assert(before.drop_first() =~= old(iter).remaining().skip(done + 1));
                }
                done = done + 1;
            },
            None => {
                ended = true;
            },
        }
    }
}

/// A cursor over a slice of tokens: the slice and an index into it.
pub struct TokenCursor<'a, T> {
    tokens: &'a [T],
    pos: usize,
}

impl<'a, T> TokenCursor<'a, T> {
    #[verifier::type_invariant]
    spec fn in_bounds(self) -> bool {
        self.pos <= self.tokens@.len()
    }

    /// The whole sequence that the cursor walks.
    pub closed spec fn tokens(self) -> Seq<T> {
        self.tokens@
    }

    /// The number of tokens behind the cursor.
    pub closed spec fn position(self) -> nat {
        if self.pos <= self.tokens@.len() {
            self.pos as nat
        } else {
            self.tokens@.len()
        }
    }

    /// A cursor at the start of `tokens`.
    pub fn new(tokens: &'a [T]) -> (cursor: TokenCursor<'a, T>)
        ensures
            cursor.tokens() == tokens@,
            cursor.position() == 0,
    {
        TokenCursor { tokens, pos: 0 }
    }

    /// The number of tokens behind the cursor.
    pub fn consumed(&self) -> (n: usize)
        ensures
            n == self.position(),
    {
        proof {
            use_type_invariant(self);
        }
        self.pos
    }
}

impl<'a, T: Copy> Cursor for TokenCursor<'a, T> {
    type Token = T;

    open spec fn remaining(&self) -> Seq<T> {
        self.tokens().skip(self.position() as int)
    }

    fn snapshot(&self) -> (copy: Self) {
        proof {
            use_type_invariant(self);
        }
        TokenCursor { tokens: self.tokens, pos: self.pos }
    }

    fn next(&mut self) -> (token: Option<T>)
        ensures
            final(self).tokens() == old(self).tokens(),
            final(self).position() == old(self).position() + (if token is Some {
                1nat
            } else {
                0nat
            }),
    {
        proof {
            use_type_invariant(&*self);
        }
        if self.pos < self.tokens.len() {
            let token = self.tokens[self.pos];
            self.pos = self.pos + 1;
            proof {
                assert(old(self).remaining()[0] == token);
                assert(self.remaining() =~= old(self).remaining().drop_first());
            }
            Some(token)
        } else {
            None
        }
    }
}

/// The characters that a character iterator has yet to give, in their
/// order.
pub uninterp spec fn chars_ahead(chars: std::str::Chars<'_>) -> Seq<char>;

/// `str::chars`: the characters of `text`, all of them yet to give.
#[verifier::external_body]
pub(crate) fn chars_of<'a>(text: &'a str) -> (chars: std::str::Chars<'a>)
    ensures
        chars_ahead(chars) == text@,
{
    text.chars()
}

/// `Chars::clone`: the copy of a character iterator is the same iterator.
#[verifier::external_body]
fn chars_snapshot<'a>(chars: &std::str::Chars<'a>) -> (copy: std::str::Chars<'a>)
    ensures
        copy == *chars,
{
    chars.clone()
}

/// `Chars::next`: gives the first of the characters ahead and leaves the
/// others; with none ahead it gives nothing, and goes on doing so.
#[verifier::external_body]
fn chars_next<'a>(chars: &mut std::str::Chars<'a>) -> (token: Option<char>)
    ensures
        chars_ahead(*old(chars)).len() == 0 ==> token is None && chars_ahead(*final(chars))
            == chars_ahead(*old(chars)),
        chars_ahead(*old(chars)).len() > 0 ==> token == Some(chars_ahead(*old(chars))[0])
            && chars_ahead(*final(chars)) == chars_ahead(*old(chars)).drop_first(),
{
    Iterator::next(chars)
}

/// The characters of a string slice, walked from the front.
impl<'a> Cursor for std::str::Chars<'a> {
    type Token = char;

    open spec fn remaining(&self) -> Seq<char> {
        chars_ahead(*self)
    }

    fn snapshot(&self) -> (copy: Self) {
        chars_snapshot(self)
    }

    fn next(&mut self) -> (token: Option<char>) {
        chars_next(self)
    }
}

/// A cursor at the start of the characters of `text`.
pub fn text_cursor<'a>(text: &'a str) -> (cursor: std::str::Chars<'a>)
    ensures
        cursor.remaining() == text@,
{
    chars_of(text)
}

} // verus!

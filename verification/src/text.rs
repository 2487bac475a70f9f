use vstd::prelude::*;
use vstd::string::StrSliceExecFns;
use crate::cursor::{chars_of, Cursor};
use crate::info::ParseInfo;
use crate::parser::{ParseResult, Parser};

verus! {

/// The characters of `expect`, one after the other.
#[derive(Clone)]
pub struct ExpectString {
    pub expect: String,
}

impl ExpectString {
    pub fn new(expect: String) -> (parser: ExpectString)
        ensures
            parser.expect == expect,
    {
        ExpectString { expect }
    }
}

/// The smaller of two lengths.
pub open spec fn shorter(a: nat, b: nat) -> nat {
    if a <= b {
        a
    } else {
        b
    }
}

impl<I> Parser<I> for ExpectString where I: Cursor<Token = char> {
    type Value = String;

    type Error = String;

    open spec fn ready(&self) -> bool {
        true
    }

    /// Reads as many characters as `expect` has, or all that are left, and
    /// compares afterwards: a success where they are those of `expect`, a
    /// failure else, both with `expect`. As many characters as `expect` has
    /// count as examined.
    open spec fn parsed(&self, start: I, end: I, out: ParseResult<String, String>) -> bool {
        let ahead = start.remaining();
        let want = self.expect@;
        let taken = shorter(want.len(), ahead.len());
        &&& out.info.read == want.len()
        &&& out.info.taken == taken
        &&& end.remaining() == ahead.skip(taken as int)
        &&& out.res == if ahead.len() >= want.len() && ahead.take(want.len() as int) == want {
            Ok::<String, String>(self.expect)
        } else {
            Err::<String, String>(self.expect)
        }
    }

    fn parse(&self, iter: &mut I) -> (out: ParseResult<String, String>) {
        let wanted: usize = self.expect.as_str().unicode_len();
        let mut want = chars_of(self.expect.as_str());
        let mut taken: usize = 0;
        let mut same = true;
        let mut ended = false;
        proof {
            assert(iter.remaining().take(0) =~= self.expect@.take(0));
            assert(iter.remaining().skip(0) =~= iter.remaining());
            assert(self.expect@.skip(0) =~= self.expect@);
        }
        while taken < wanted && !ended
            invariant
                wanted == self.expect@.len(),
                taken <= wanted,
                taken <= old(iter).remaining().len(),
                ended ==> taken == old(iter).remaining().len(),
                iter.remaining() == old(iter).remaining().skip(taken as int),
                want.remaining() == self.expect@.skip(taken as int),
                same <==> old(iter).remaining().take(taken as int) == self.expect@.take(
                    taken as int,
                ),
            decreases wanted - taken + (if ended { 0int } else { 1int }),
        {
            let ghost before = iter.remaining();
            let ghost ahead = old(iter).remaining();
            let ghost text = self.expect@;
            let ghost left = want.remaining();
            match iter.next() {
                None => {
                    ended = true;
                },
                Some(found) => {
                    let next = Cursor::next(&mut want);
                    proof {
                        assert(left.len() > 0);
                        assert(left[0] == text[taken as int]);
                        assert(left.drop_first() =~= text.skip(taken + 1));
                        assert(before[0] == ahead[taken as int]);
                        assert(before.drop_first() =~= ahead.skip(taken + 1));
                        assert(ahead.take(taken + 1).drop_last() =~= ahead.take(taken as int));
                        assert(text.take(taken + 1).drop_last() =~= text.take(taken as int));
                        assert(ahead.take(taken + 1).last() == found);
                        assert(text.take(taken + 1).last() == text[taken as int]);
                        if same && found == text[taken as int] {
                            assert(ahead.take(taken + 1) =~= text.take(taken + 1));
                        }
                    }
                    match next {
                        Some(expected) => {
                            if found != expected {
                                same = false;
                            }
                        },
                        None => {},
                    }
                    taken = taken + 1;
                },
            }
        }
        proof {
            assert(self.expect@.take(self.expect@.len() as int) =~= self.expect@);
        }
        if same && taken == wanted {
            ParseInfo::new(taken, wanted).ok(self.expect.clone())
        } else {
            ParseInfo::new(taken, wanted).err(self.expect.clone())
        }
    }
}

} // verus!

use vstd::prelude::*;

verus! {

/// How far a parser went: `taken` tokens were consumed as a net effect, and
/// `read` tokens were examined, lookahead that was later given back included.
///
/// A record is consistent when `read >= taken`; see [`ParseInfo::consistent`].
#[derive(Clone, Copy, Debug, PartialEq, Eq, Structural)]
pub struct ParseInfo {
    pub taken: usize,
    pub read: usize,
}

/// `n`, held to what a `usize` can count.
pub open spec fn clamp(n: int) -> usize {
    if n >= usize::MAX as int {
        usize::MAX
    } else if n <= 0 {
        0usize
    } else {
        n as usize
    }
}

impl ParseInfo {
    /// Nothing consumed and nothing examined: the neutral record.
    pub open spec fn zero() -> ParseInfo {
        ParseInfo { taken: 0, read: 0 }
    }

    /// The record never claims to have consumed more than it examined.
    pub open spec fn consistent(self) -> bool {
        self.taken <= self.read
    }

    /// The record of "`self`, then `next`": what was consumed adds up, and
    /// the lookahead of `next` counts from where `self` stopped consuming.
    /// Both counts stop at `usize::MAX`.
    pub open spec fn followed_by(self, next: ParseInfo) -> ParseInfo {
        ParseInfo {
            taken: clamp(self.taken + next.taken),
            read: clamp(
                if self.read >= self.taken + next.read {
                    self.read as int
                } else {
                    self.taken + next.read
                },
            ),
        }
    }

    /// The same lookahead with nothing consumed: the record of a parser
    /// whose cursor was put back.
    pub open spec fn rewound(self) -> ParseInfo {
        ParseInfo { taken: 0, read: self.read }
    }

    /// Neither sum of `followed_by` leaves the range of `usize`.
    pub open spec fn fits_before(self, next: ParseInfo) -> bool {
        &&& self.taken + next.taken <= usize::MAX
        &&& self.taken + next.read <= usize::MAX
    }

    pub fn new(taken: usize, read: usize) -> (info: ParseInfo)
        ensures
            info.taken == taken,
            info.read == read,
    {
        ParseInfo { taken, read }
    }

    /// Appends the record of the parser that ran next.
    pub fn record(&mut self, next: ParseInfo)
        ensures
            *final(self) == old(self).followed_by(next),
    {
        let reach: usize = self.taken.saturating_add(next.read);
        if reach > self.read {
            self.read = reach;
        }
        self.taken = self.taken.saturating_add(next.taken);
    }

    /// Forgets what was consumed and keeps what was examined.
    pub fn rewind(&mut self)
        ensures
            *final(self) == old(self).rewound(),
    {
        self.taken = 0;
    }
}

impl Default for ParseInfo {
    fn default() -> (info: ParseInfo)
        ensures
            info == ParseInfo::zero(),
    {
        ParseInfo { taken: 0, read: 0 }
    }
}

impl vstd::std_specs::ops::AddSpecImpl for ParseInfo {
    open spec fn obeys_add_spec() -> bool {
        true
    }

    open spec fn add_req(self, rhs: ParseInfo) -> bool {
        true
    }

    open spec fn add_spec(self, rhs: ParseInfo) -> ParseInfo {
        self.followed_by(rhs)
    }
}

/// `a + b` is the record of `a`, then `b`. The order matters.
impl std::ops::Add for ParseInfo {
    type Output = ParseInfo;

    fn add(self, rhs: ParseInfo) -> (sum: ParseInfo) {
        let mut sum = self;
        sum.record(rhs);
        sum
    }
}

/// `a += b` appends the record of `b` to `a`.
impl std::ops::AddAssign for ParseInfo {
    fn add_assign(&mut self, rhs: ParseInfo)
        ensures
            *final(self) == old(self).followed_by(rhs),
    {
        self.record(rhs);
    }
}

/// Sequencing has the two sums of its definition wherever they fit in a
/// `usize`.
pub proof fn lemma_sequence_exact(a: ParseInfo, b: ParseInfo)
    requires
        a.fits_before(b),
    ensures
        a.followed_by(b).taken == a.taken + b.taken,
        a.followed_by(b).read == if a.read >= a.taken + b.read {
            a.read as int
        } else {
            a.taken + b.read
        },
{
}

/// Sequencing is not commutative: two records exist whose two orders differ.
pub proof fn lemma_sequence_not_commutative()
    ensures
        exists|a: ParseInfo, b: ParseInfo| #[trigger] a.followed_by(b) != b.followed_by(a),
{
    let a = ParseInfo { taken: 0, read: 3 };
    let b = ParseInfo { taken: 2, read: 2 };
    assert(a.followed_by(b).read == 3);
    assert(b.followed_by(a).read == 5);
    assert(a.followed_by(b) != b.followed_by(a));
}

/// Sequencing is associative, the neutral record is neutral on the left,
/// and on the right of every consistent record.
pub proof fn lemma_sequence_monoid(a: ParseInfo, b: ParseInfo, c: ParseInfo)
    ensures
        a.followed_by(b).followed_by(c) == a.followed_by(b.followed_by(c)),
        ParseInfo::zero().followed_by(a) == a,
        a.consistent() ==> a.followed_by(ParseInfo::zero()) == a,
{
}

/// Sequencing two consistent records gives a consistent record.
pub proof fn lemma_sequence_consistent(a: ParseInfo, b: ParseInfo)
    requires
        a.consistent(),
        b.consistent(),
    ensures
        a.followed_by(b).consistent(),
        a.rewound().consistent(),
{
}

} // verus!

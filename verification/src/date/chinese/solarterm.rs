use crate::date::utc::{civil_midnight, day_number, is_timestamp, UtcInstant, MAX_TIMESTAMP, MIN_TIMESTAMP};
use vstd::prelude::*;

verus! {

/// The year whose first solar term has index 0.
pub const SOLARTERM_FROM_YEAR: i64 = 1904;

/// The number of solar terms in a year.
pub const SOLARTERMS_PER_YEAR: i64 = 24;

/// The place, among the 24 solar terms of a year, of the Start of Spring.
pub const SPRING_ORDER: i64 = 2;

/// The most boundaries that a table of solar terms may hold.
pub const SOLARTERM_CAPACITY: usize = 0x10_0000;

/// A solar term as it falls in one year: its index, which counts the solar
/// terms from the first of 1904 on, and the instant of its boundary.
#[derive(Debug, Clone, Copy, PartialEq, Eq, Structural)]
pub struct Solarterm {
    index: i64,
    timestamp: i64,
}

impl Solarterm {
    #[verifier::type_invariant]
    spec fn wf(self) -> bool {
        &&& 0 <= self.index < SOLARTERM_CAPACITY
        &&& is_timestamp(self.timestamp as int)
    }

    /// The index of the solar term, counted from the first solar term of
    /// 1904.
    pub closed spec fn index_spec(self) -> int {
        self.index as int
    }

    /// The timestamp of the boundary of the solar term.
    pub closed spec fn instant(self) -> int {
        self.timestamp as int
    }

    /// The index of the solar term, counted from the first solar term of
    /// 1904.
    pub fn index(&self) -> (r: i64)
        ensures
            r == self.index_spec(),
            0 <= r < SOLARTERM_CAPACITY,
    {
        proof {
            use_type_invariant(self);
        }
        self.index
    }

    /// The place of the solar term among the 24 of its year, from 0 on.
    pub fn order(&self) -> (r: i64)
        ensures
            r == self.index_spec() % 24,
    {
        proof {
            use_type_invariant(self);
        }
        self.index % SOLARTERMS_PER_YEAR
    }

    /// The timestamp of the boundary of the solar term.
    pub fn timestamp(&self) -> (r: i64)
        ensures
            r == self.instant(),
            is_timestamp(r as int),
    {
        proof {
            use_type_invariant(self);
        }
        self.timestamp
    }

    /// Whether the boundary of the solar term falls on the UTC day of `t`.
    pub fn is_in_day(&self, t: &UtcInstant) -> (r: bool)
        ensures
            r == (day_number(self.instant()) == day_number(t.seconds())),
    {
        proof {
            use_type_invariant(self);
        }
        civil_midnight(self.timestamp) == civil_midnight(t.timestamp())
    }
}

/// Whether `instants` can serve as a table of solar terms: boundaries that
/// are instants of the civil calendar, each later than the one before.
pub open spec fn is_term_sequence(instants: Seq<i64>) -> bool {
    &&& instants.len() <= SOLARTERM_CAPACITY
    &&& forall|i: int| 0 <= i < instants.len() ==> is_timestamp(#[trigger] instants[i] as int)
    &&& forall|i: int, j: int| 0 <= i < j < instants.len() ==> instants[i] < instants[j]
}

/// The number of boundaries of `instants` that lie before the instant `ts`.
/// In a table of solar terms these are the first so many.
pub open spec fn terms_before(instants: Seq<i64>, ts: int) -> int
    decreases instants.len(),
{
    if instants.len() == 0 {
        0
    } else {
        terms_before(instants.drop_last(), ts) + if instants.last() < ts {
            1int
        } else {
            0int
        }
    }
}

/// The number of boundaries of `instants` that lie at or before the instant
/// `ts`.
pub open spec fn terms_up_to(instants: Seq<i64>, ts: int) -> int {
    terms_before(instants, ts + 1)
}

/// The boundaries of a table that lie before an instant are the first so
/// many of it, and those that lie at or after the instant are the rest.
pub proof fn lemma_terms_before(instants: Seq<i64>, ts: int)
    requires
        is_term_sequence(instants),
    ensures
        0 <= terms_before(instants, ts) <= instants.len(),
        forall|i: int| 0 <= i < terms_before(instants, ts) ==> #[trigger] instants[i] < ts,
        forall|i: int| terms_before(instants, ts) <= i < instants.len() ==> #[trigger] instants[i] >= ts,
    decreases instants.len(),
{
    if instants.len() > 0 {
        let front = instants.drop_last();
        lemma_terms_before(front, ts);
        let k = terms_before(front, ts);
        if instants.last() < ts {
            assert forall|i: int| 0 <= i < instants.len() - 1 implies #[trigger] instants[i] < ts by {
                assert(instants[i] < instants[instants.len() - 1]);
            }
            if k < front.len() {
                assert(front[k] >= ts);
                assert(front[k] == instants[k]);
            }
        }
        assert forall|i: int| 0 <= i < terms_before(instants, ts) implies #[trigger] instants[i] < ts by {
            if i < front.len() {
                assert(front[i] == instants[i]);
            }
        }
        assert forall|i: int| terms_before(instants, ts) <= i < instants.len() implies #[trigger] instants[i]
            >= ts by {
            if i < front.len() {
                assert(front[i] == instants[i]);
            }
        }
    }
}

/// In a table of solar terms, a count of boundaries that takes in all that
/// lie before an instant and none that lie at or after it is the number of
/// boundaries before the instant.
pub proof fn lemma_terms_before_is(instants: Seq<i64>, ts: int, count: int)
    requires
        is_term_sequence(instants),
        0 <= count <= instants.len(),
        forall|i: int| 0 <= i < count ==> #[trigger] instants[i] < ts,
        forall|i: int| count <= i < instants.len() ==> #[trigger] instants[i] >= ts,
    ensures
        terms_before(instants, ts) == count,
{
    lemma_terms_before(instants, ts);
    let k = terms_before(instants, ts);
    if k < count {
        assert(instants[k] >= ts);
        assert(instants[k] < ts);
    } else if count < k {
        assert(instants[count] < ts);
        assert(instants[count] >= ts);
    }
}

/// The boundaries of the solar terms, in the order in which they fall, from
/// the first solar term of 1904 on.
#[derive(Debug)]
pub struct SolartermTable {
    instants: Vec<i64>,
}

impl View for SolartermTable {
    type V = Seq<i64>;

    closed spec fn view(&self) -> Seq<i64> {
        self.instants@
    }
}

impl SolartermTable {
    #[verifier::type_invariant]
    spec fn wf(&self) -> bool {
        is_term_sequence(self.instants@)
    }

    /// Whether the table holds a solar term of index `index`.
    pub open spec fn has_term(&self, index: int) -> bool {
        0 <= index < self@.len()
    }

    /// Whether `term` is the solar term that the table holds at its index.
    pub open spec fn holds(&self, term: Solarterm) -> bool {
        &&& self.has_term(term.index_spec())
        &&& term.instant() == self@[term.index_spec()]
    }

    /// The year after the last whose 24 solar terms the table holds in full.
    pub open spec fn to_year_spec(&self) -> int {
        SOLARTERM_FROM_YEAR + self@.len() / 24
    }

    /// The index of the last solar term before the instant `ts`, or -1 where
    /// there is none.
    pub open spec fn prev_index(&self, ts: int) -> int {
        terms_before(self@, ts) - 1
    }

    /// The index of the first solar term after the instant `ts`, which is
    /// the number of solar terms of the table where there is none.
    pub open spec fn next_index(&self, ts: int) -> int {
        terms_up_to(self@, ts)
    }

    /// The table of the given boundaries, or nothing where they are not
    /// instants of the civil calendar in rising order, or are too many.
    pub fn new(instants: Vec<i64>) -> (r: Option<SolartermTable>)
        ensures
            r is Some <==> is_term_sequence(instants@),
            r is Some ==> r.unwrap()@ == instants@,
    {
        let n = instants.len();
        if n > SOLARTERM_CAPACITY {
            return None;
        }
        let mut i: usize = 0;
        while i < n
            invariant
                n == instants@.len(),
                n <= SOLARTERM_CAPACITY,
                0 <= i <= n,
                forall|k: int| 0 <= k < i ==> is_timestamp(#[trigger] instants@[k] as int),
                forall|k: int| 0 < k < i ==> instants@[k - 1] < #[trigger] instants@[k],
            decreases n - i,
        {
            let ts = instants[i];
            if ts < MIN_TIMESTAMP || ts > MAX_TIMESTAMP {
                return None;
            }
            if i > 0 && instants[i - 1] >= ts {
                assert(!(instants@[i - 1] < instants@[i as int]));
                return None;
            }
            i += 1;
        }
        proof {
            lemma_rising(instants@);
        }
        Some(SolartermTable { instants })
    }

    /// The number of solar terms that the table holds.
    pub fn len(&self) -> (r: usize)
        ensures
            r == self@.len(),
            r <= SOLARTERM_CAPACITY,
    {
        proof {
            use_type_invariant(self);
        }
        self.instants.len()
    }

    /// The first year whose solar terms the table holds.
    pub fn from_year(&self) -> (r: i64)
        ensures
            r == SOLARTERM_FROM_YEAR,
    {
        SOLARTERM_FROM_YEAR
    }

    /// The year after the last whose 24 solar terms the table holds in full.
    pub fn to_year(&self) -> (r: i64)
        ensures
            r == self.to_year_spec(),
    {
        let n = self.len();
        SOLARTERM_FROM_YEAR + (n / 24) as i64
    }

    /// The solar term of index `index`, or nothing where the table does not
    /// hold it.
    pub fn term(&self, index: i64) -> (r: Option<Solarterm>)
        ensures
            r is Some <==> self.has_term(index as int),
            r is Some ==> r.unwrap().index_spec() == index && self.holds(r.unwrap()),
    {
        proof {
            use_type_invariant(self);
        }
        if index < 0 || index >= self.instants.len() as i64 {
            return None;
        }
        Some(Solarterm { index, timestamp: self.instants[index as usize] })
    }

    /// The solar term before `term`, or nothing where `term` is the first.
    pub fn prev(&self, term: &Solarterm) -> (r: Option<Solarterm>)
        ensures
            r is Some <==> self.has_term(term.index_spec() - 1),
            r is Some ==> r.unwrap().index_spec() == term.index_spec() - 1 && self.holds(r.unwrap()),
    {
        self.term(term.index() - 1)
    }

    /// The solar term after `term`, or nothing where the table ends with
    /// `term` or before it.
    pub fn next(&self, term: &Solarterm) -> (r: Option<Solarterm>)
        ensures
            r is Some <==> self.has_term(term.index_spec() + 1),
            r is Some ==> r.unwrap().index_spec() == term.index_spec() + 1 && self.holds(r.unwrap()),
    {
        self.term(term.index() + 1)
    }

    /// The timestamp of the Start of Spring of `year`, or nothing where the
    /// table does not hold it.
    pub fn spring_timestamp(&self, year: i64) -> (r: Option<i64>)
        ensures
            r is Some <==> SOLARTERM_FROM_YEAR <= year && self.has_term((year - SOLARTERM_FROM_YEAR) * 24 + 2),
            r is Some ==> r.unwrap() == self@[(year - SOLARTERM_FROM_YEAR) * 24 + 2],
    {
        let n = self.len();
        if year < SOLARTERM_FROM_YEAR || year - SOLARTERM_FROM_YEAR > (n / 24) as i64 {
            return None;
        }
        match self.term((year - SOLARTERM_FROM_YEAR) * SOLARTERMS_PER_YEAR + SPRING_ORDER) {
            Some(term) => Some(term.timestamp()),
            None => None,
        }
    }

    /// The two solar terms that straddle the instant `t`: the last whose
    /// boundary lies before `t` and the first whose boundary lies after it,
    /// each where the table holds one. A solar term whose boundary is `t`
    /// itself is neither.
    pub fn calc_solarterm(&self, t: &UtcInstant) -> (r: (Option<Solarterm>, Option<Solarterm>))
        ensures
            r.0 is Some <==> self.has_term(self.prev_index(t.seconds())),
            r.0 is Some ==> r.0.unwrap().index_spec() == self.prev_index(t.seconds()) && self.holds(r.0.unwrap()),
            r.1 is Some <==> self.has_term(self.next_index(t.seconds())),
            r.1 is Some ==> r.1.unwrap().index_spec() == self.next_index(t.seconds()) && self.holds(r.1.unwrap()),
    {
        proof {
            use_type_invariant(self);
        }
        let ts = t.timestamp();
        let n = self.instants.len();
        let mut before: usize = 0;
        while before < n && self.instants[before] < ts
            invariant
                n == self.instants@.len(),
                is_term_sequence(self.instants@),
                0 <= before <= n,
                forall|i: int| 0 <= i < before ==> #[trigger] self.instants@[i] < ts,
            decreases n - before,
        {
            before += 1;
        }
        proof {
            assert forall|i: int| before <= i < n implies #[trigger] self.instants@[i] >= ts by {
                if before < i {
                    assert(self.instants@[before as int] < self.instants@[i]);
                }
            }
            lemma_terms_before_is(self.instants@, ts as int, before as int);
        }
        let up_to = if before < n && self.instants[before] == ts {
            before + 1
        } else {
            before
        };
        proof {
            assert forall|i: int| up_to <= i < n implies #[trigger] self.instants@[i] >= ts + 1 by {
                if before < i {
                    assert(self.instants@[before as int] < self.instants@[i]);
                }
            }
            lemma_terms_before_is(self.instants@, ts + 1, up_to as int);
        }
        (self.term(before as i64 - 1), self.term(up_to as i64))
    }
}

/// Boundaries of which each is later than the one before rise throughout.
proof fn lemma_rising(instants: Seq<i64>)
    requires
        forall|k: int| 0 < k < instants.len() ==> instants[k - 1] < #[trigger] instants[k],
    ensures
        forall|i: int, j: int| 0 <= i < j < instants.len() ==> instants[i] < instants[j],
{
    assert forall|i: int, j: int| 0 <= i < j < instants.len() implies instants[i] < instants[j] by {
        lemma_rising_between(instants, i, j);
    }
}

proof fn lemma_rising_between(instants: Seq<i64>, i: int, j: int)
    requires
        forall|k: int| 0 < k < instants.len() ==> instants[k - 1] < #[trigger] instants[k],
        0 <= i < j < instants.len(),
    ensures
        instants[i] < instants[j],
    decreases j - i,
{
    if i + 1 < j {
        lemma_rising_between(instants, i, j - 1);
    }
    assert(instants[j - 1] < instants[j]);
}

} // verus!

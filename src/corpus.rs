//! The word corpus: a newline-delimited file, read one record at a time.
//! A record is `Some` text where the line decoded and `None` where it did not.
use crate::chance::random_below;
use crate::error::BotError;
use crate::text::{opt_view, trim, trimmed};
use vstd::prelude::*;

verus! {

/// The number of records that decoded.
pub open spec fn decoded_count(rs: Seq<Option<String>>) -> nat
    decreases rs.len(),
{
    if rs.len() == 0 {
        0
    } else {
        decoded_count(rs.drop_last()) + if rs.last() is Some { 1nat } else { 0nat }
    }
}

/// The word that the draw `target` selects: the record at that index, trimmed,
/// if there is one and it decoded.
pub open spec fn sampled(rs: Seq<Option<String>>, target: nat) -> Option<Seq<char>> {
    if target < rs.len() {
        match rs[target as int] {
            Some(t) => Some(trimmed(t@)),
            None => None,
        }
    } else {
        None
    }
}

/// Counts the records of a corpus that decoded, as they stream past.
pub struct LineCounter {
    count: u64,
}

impl View for LineCounter {
    type V = nat;

    closed spec fn view(&self) -> nat {
        self.count as nat
    }
}

impl LineCounter {
    /// A counter that has seen nothing.
    pub fn new() -> (c: Self)
        ensures
            c@ == 0,
    {
        LineCounter { count: 0 }
    }

    /// Takes in one record: it counts if it decoded.
    pub fn feed(&mut self, decoded: bool)
        requires
            old(self)@ < u64::MAX,
        ensures
            final(self)@ == old(self)@ + if decoded { 1nat } else { 0nat },
    {
        if decoded {
            self.count = self.count + 1;
        }
    }

    /// The number of decoded records seen so far.
    pub fn total(&self) -> (r: u64)
        ensures
            r as nat == self@,
    {
        self.count
    }
}

/// The number of records in a corpus that decoded.
pub fn get_line_count(records: &Vec<Option<String>>) -> (r: u64)
    ensures
        r as nat == decoded_count(records@),
{
    let mut counter = LineCounter::new();
    let mut i: usize = 0;
    while i < records.len()
        invariant
            i <= records@.len(),
            counter@ == decoded_count(records@.take(i as int)),
            counter@ <= i,
        decreases records@.len() - i,
    {
        assert(records@.take(i + 1).drop_last() =~= records@.take(i as int));
        counter.feed(records[i].is_some());
        i = i + 1;
    }
    assert(records@.take(i as int) =~= records@);
    counter.total()
}

/// A single pass over a corpus that picks out the record at a drawn index.
/// It keeps at most that one record, and is done as soon as it has passed it.
pub struct LineScan {
    target: u64,
    index: u64,
    word: Option<String>,
}

impl LineScan {
    #[verifier::type_invariant]
    spec fn inv(&self) -> bool {
        self.target < u64::MAX && self.index <= self.target + 1
    }

    /// The index being looked for.
    pub closed spec fn target(&self) -> nat {
        self.target as nat
    }

    /// The number of records seen so far.
    pub closed spec fn index(&self) -> nat {
        self.index as nat
    }

    /// The word picked out so far, trimmed.
    pub closed spec fn found(&self) -> Option<Seq<char>> {
        opt_view(self.word)
    }

    /// Whether the scan has passed the index it looks for.
    pub open spec fn done(&self) -> bool {
        self.index() > self.target()
    }

    /// A scan for the record at `target`, before the first record.
    pub fn new(target: u64) -> (s: Self)
        requires
            target < u64::MAX,
        ensures
            s.target() == target,
            s.index() == 0,
            s.found() is None,
    {
        LineScan { target, index: 0, word: None }
    }

    /// A scan for a record drawn at random among the first `total_lines`; none
    /// where there are no lines to draw from.
    pub fn start(total_lines: u64) -> (r: Option<Self>)
        ensures
            r is None <==> total_lines == 0,
            r is Some ==> r->Some_0.target() < total_lines && r->Some_0.index() == 0
                && r->Some_0.found() is None,
    {
        if total_lines == 0 {
            None
        } else {
            Some(LineScan::new(random_below(total_lines)))
        }
    }

    /// Whether the scan has passed the index it looks for.
    pub fn is_done(&self) -> (r: bool)
        ensures
            r == self.done(),
    {
        self.index > self.target
    }

    /// Takes in the next record: `Some` text, or `None` where it did not decode.
    pub fn feed(&mut self, record: Option<&str>)
        requires
            !old(self).done(),
        ensures
            final(self).target() == old(self).target(),
            final(self).index() == old(self).index() + 1,
            final(self).found() == if old(self).index() == old(self).target() {
                match record {
                    Some(t) => Some(trimmed(t@)),
                    None => None,
                }
            } else {
                old(self).found()
            },
    {
        proof {
            use_type_invariant(&*self);
        }
        if self.index == self.target {
            self.word = match record {
                Some(t) => Some(trim(t)),
                None => None,
            };
        }
        self.index = self.index + 1;
    }

    /// The picked word, or `SampleExhausted` where the target index was never
    /// reached or its record did not decode.
    pub fn finish(self) -> (r: Result<String, BotError>)
        ensures
            match self.found() {
                Some(w) => r is Ok && r->Ok_0@ == w,
                None => r == Err::<String, BotError>(BotError::SampleExhausted),
            },
    {
        match self.word {
            Some(w) => Ok(w),
            None => Err(BotError::SampleExhausted),
        }
    }
}

/// The word at index `target` of a corpus, trimmed.
pub fn select_line(records: &Vec<Option<String>>, target: u64) -> (r: Result<String, BotError>)
    ensures
        match sampled(records@, target as nat) {
            Some(w) => r is Ok && r->Ok_0@ == w,
            None => r == Err::<String, BotError>(BotError::SampleExhausted),
        },
{
    if target >= records.len() as u64 {
        return Err(BotError::SampleExhausted);
    }
    let mut scan = LineScan::new(target);
    let mut i: usize = 0;
    while i < records.len() && !scan.is_done()
        invariant
            i <= records@.len(),
            scan.target() == target,
            scan.index() == i,
            scan.found() == sampled(records@.take(i as int), target as nat),
        decreases records@.len() - i,
    {
        match &records[i] {
            Some(t) => scan.feed(Some(t.as_str())),
            None => scan.feed(None),
        }
        i = i + 1;
    }
    scan.finish()
}

/// Draws an index below `total_lines` and returns the word there. A corpus of
/// no lines, or a draw that finds no decoded record, gives `SampleExhausted`.
pub fn get_random_line(records: &Vec<Option<String>>, total_lines: u64) -> (r: Result<
    String,
    BotError,
>)
    ensures
        r is Ok ==> exists|t: nat| t < total_lines && sampled(records@, t) == Some(r->Ok_0@),
        r is Err ==> r == Err::<String, BotError>(BotError::SampleExhausted),
        total_lines == 0 ==> r is Err,
        (0 < total_lines <= records@.len() && forall|i: int|
            0 <= i < total_lines ==> (#[trigger] records@[i]) is Some) ==> r is Ok,
{
    if total_lines == 0 {
        return Err(BotError::SampleExhausted);
    }
    let target = random_below(total_lines);
    let r = select_line(records, target);
    proof {
        if r is Ok {
            assert(sampled(records@, target as nat) == Some(r->Ok_0@));
        }
        if total_lines <= records@.len() && forall|i: int|
            0 <= i < total_lines ==> (#[trigger] records@[i]) is Some {
            assert(records@[target as int] is Some);
        }
    }
    r
}

/// Every decoded record can be drawn: the draw of its index yields it,
/// trimmed.
pub proof fn lemma_every_record_drawable(records: Seq<Option<String>>, i: nat)
    requires
        i < records.len(),
        records[i as int] is Some,
    ensures
        sampled(records, i) == Some(trimmed(records[i as int]->Some_0@)),
{
}

/// Over a corpus whose records all decoded, the line count is the number of
/// records, and every draw below it selects a record.
pub proof fn lemma_count_of_decoded_corpus(records: Seq<Option<String>>)
    requires
        forall|i: int| 0 <= i < records.len() ==> (#[trigger] records[i]) is Some,
    ensures
        decoded_count(records) == records.len(),
        forall|t: nat| t < decoded_count(records) ==> (#[trigger] sampled(records, t)) is Some,
    decreases records.len(),
{
    if records.len() > 0 {
        let prefix = records.drop_last();
        assert forall|i: int| 0 <= i < prefix.len() implies (#[trigger] prefix[i]) is Some by {
            assert(prefix[i] == records[i]);
        }
        lemma_count_of_decoded_corpus(prefix);
        assert(records.last() == records[records.len() - 1]);
    }
}

} // verus!

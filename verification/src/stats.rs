//! Statistics over a stream of records, kept in one pass.

use crate::histogram::{is_mode, lists, Histogram};
use crate::json::{texts, Record};
use crate::metadata::{doi_of, get_doi_from_record};
use vstd::prelude::*;
use vstd::string::StrSliceExecFns;
use vstd::utf8::encode_utf8;

verus! {

/// The greatest character of `text`, and the zero character where `text` is
/// empty.
pub open spec fn max_char(text: Seq<char>) -> char
    decreases text.len(),
{
    if text.len() == 0 {
        '\0'
    } else {
        let before = max_char(text.drop_last());
        if text.last() > before {
            text.last()
        } else {
            before
        }
    }
}

proof fn lemma_zero_is_least(c: char)
    ensures
        '\0' <= c,
{
}

/// The greatest character of a text is one of its characters, and no
/// character of the text is greater.
pub proof fn lemma_max_char_bounds(text: Seq<char>)
    ensures
        forall|i: int| 0 <= i < text.len() ==> text[i] <= max_char(text),
        text.len() > 0 ==> text.contains(max_char(text)),
        text.len() == 0 ==> max_char(text) == '\0',
    decreases text.len(),
{
    if text.len() > 0 {
        let front = text.drop_last();
        lemma_max_char_bounds(front);
        assert forall|i: int| 0 <= i < text.len() implies text[i] <= max_char(text) by {
            if i < front.len() {
                assert(front[i] == text[i]);
            }
        }
        if text.last() > max_char(front) {
            assert(text[text.len() - 1] == max_char(text));
        } else if front.len() > 0 {
            let i = choose|i: int| 0 <= i < front.len() && front[i] == max_char(front);
            assert(text[i] == max_char(text));
        } else {
            lemma_zero_is_least(text.last());
        }
    }
}

/// What the statistics take from a DOI.
#[derive(Clone, Copy, Debug)]
pub struct DoiSize {
    /// Its length in characters.
    pub chars: usize,
    /// Its length in bytes, encoded as UTF-8.
    pub bytes: usize,
    /// Its greatest character; the zero character for the empty DOI.
    pub max_char: char,
}

/// What the statistics take from one record.
#[derive(Clone, Copy, Debug)]
pub struct Sample {
    /// The length of the record's JSON text in characters.
    pub json_chars: usize,
    /// The sizes of the record's DOI, where it has one.
    pub doi: Option<DoiSize>,
}

/// The sizes of the DOI `doi`.
pub open spec fn doi_size_of(doi: Seq<char>) -> DoiSize {
    DoiSize {
        chars: doi.len() as usize,
        bytes: encode_utf8(doi).len() as usize,
        max_char: max_char(doi),
    }
}

/// The sample that the record with compact text `text` gives.
pub open spec fn sample_of(text: Seq<char>) -> Sample {
    Sample {
        json_chars: text.len() as usize,
        doi: match doi_of(text) {
            Some(doi) => Some(doi_size_of(doi)),
            None => None,
        },
    }
}

/// Measures a DOI.
pub fn measure_doi(doi: &str) -> (r: DoiSize)
    ensures
        r == doi_size_of(doi@),
{
    let mut greatest: char = '\0';
    for c in it: doi.chars()
        invariant
            it.seq() == doi@,
            greatest == max_char(doi@.take(it.index())),
    {
        assert(doi@.take(it.index() + 1).drop_last() =~= doi@.take(it.index()));
        if c > greatest {
            greatest = c;
        }
    }
    assert(doi@.take(doi@.len() as int) =~= doi@);
    DoiSize { chars: doi.unicode_len(), bytes: doi.len(), max_char: greatest }
}

/// Measures a record.
pub fn measure(record: &Record) -> (r: Sample)
    ensures
        r == sample_of(record@),
{
    let json_chars = record.to_json().as_str().unicode_len();
    let doi = match get_doi_from_record(record) {
        Some(doi) => Some(measure_doi(doi.as_str())),
        None => None,
    };
    Sample { json_chars, doi }
}

/// The width of the bins into which the lengths of JSON texts are gathered.
pub const BUCKET_WIDTH: usize = 1024;

/// The bin that a JSON text of `chars` characters falls in, named by the
/// lowest length of the bin.
pub open spec fn bucket_of(chars: usize) -> usize {
    ((chars / BUCKET_WIDTH) * BUCKET_WIDTH) as usize
}

/// The bin that a JSON text of `chars` characters falls in.
pub fn bucket(chars: usize) -> (r: usize)
    ensures
        r == bucket_of(chars),
        r <= chars < r + BUCKET_WIDTH,
        r % BUCKET_WIDTH == 0,
{
    (chars / BUCKET_WIDTH) * BUCKET_WIDTH
}

impl Sample {
    /// The length of the DOI in characters, zero without a DOI.
    pub open spec fn doi_chars(self) -> nat {
        match self.doi {
            Some(size) => size.chars as nat,
            None => 0,
        }
    }

    /// The length of the DOI in bytes, zero without a DOI.
    pub open spec fn doi_bytes(self) -> nat {
        match self.doi {
            Some(size) => size.bytes as nat,
            None => 0,
        }
    }

    /// The greatest character of the DOI, the zero character without a DOI.
    pub open spec fn doi_max_char(self) -> char {
        match self.doi {
            Some(size) => size.max_char,
            None => '\0',
        }
    }

    /// The row of the table of JSON lengths that the sample counts in.
    pub open spec fn json_key(self) -> Option<usize> {
        Some(bucket_of(self.json_chars))
    }

    /// The row of the table of DOI lengths in characters that the sample
    /// counts in: none without a DOI.
    pub open spec fn doi_chars_key(self) -> Option<usize> {
        match self.doi {
            Some(size) => Some(size.chars),
            None => None,
        }
    }

    /// The row of the table of DOI lengths in bytes that the sample counts
    /// in: none without a DOI.
    pub open spec fn doi_bytes_key(self) -> Option<usize> {
        match self.doi {
            Some(size) => Some(size.bytes),
            None => None,
        }
    }
}

/// The sum of `sizes`.
pub open spec fn sum(sizes: Seq<nat>) -> nat
    decreases sizes.len(),
{
    if sizes.len() == 0 {
        0
    } else {
        sum(sizes.drop_last()) + sizes.last()
    }
}

/// How many of `keys` are `value`.
pub open spec fn occurrences(keys: Seq<Option<usize>>, value: usize) -> nat
    decreases keys.len(),
{
    if keys.len() == 0 {
        0
    } else {
        occurrences(keys.drop_last(), value) + if keys.last() == Some(value) {
            1nat
        } else {
            0nat
        }
    }
}

/// The lengths of the JSON texts of `history`.
pub open spec fn json_sizes(history: Seq<Sample>) -> Seq<nat> {
    Seq::new(history.len(), |i: int| history[i].json_chars as nat)
}

/// The lengths in characters of the DOIs of `history`.
pub open spec fn doi_char_sizes(history: Seq<Sample>) -> Seq<nat> {
    Seq::new(history.len(), |i: int| history[i].doi_chars())
}

/// The lengths in bytes of the DOIs of `history`.
pub open spec fn doi_byte_sizes(history: Seq<Sample>) -> Seq<nat> {
    Seq::new(history.len(), |i: int| history[i].doi_bytes())
}

/// The greatest characters of the DOIs of `history`.
pub open spec fn doi_max_chars(history: Seq<Sample>) -> Seq<char> {
    Seq::new(history.len(), |i: int| history[i].doi_max_char())
}

/// The rows of the table of JSON lengths that `history` counts in.
pub open spec fn json_keys(history: Seq<Sample>) -> Seq<Option<usize>> {
    Seq::new(history.len(), |i: int| history[i].json_key())
}

/// The rows of the table of DOI lengths in characters that `history` counts in.
pub open spec fn doi_chars_keys(history: Seq<Sample>) -> Seq<Option<usize>> {
    Seq::new(history.len(), |i: int| history[i].doi_chars_key())
}

/// The rows of the table of DOI lengths in bytes that `history` counts in.
pub open spec fn doi_bytes_keys(history: Seq<Sample>) -> Seq<Option<usize>> {
    Seq::new(history.len(), |i: int| history[i].doi_bytes_key())
}

/// The frequency table of `keys`: each value that occurs among them, with the
/// number of its occurrences.
pub open spec fn tally(keys: Seq<Option<usize>>) -> Map<usize, usize> {
    Map::new(
        |value: usize| occurrences(keys, value) > 0,
        |value: usize| occurrences(keys, value) as usize,
    )
}

proof fn lemma_sum_push(sizes: Seq<nat>, size: nat)
    ensures
        sum(sizes.push(size)) == sum(sizes) + size,
{
    assert(sizes.push(size).drop_last() =~= sizes);
}

proof fn lemma_occurrences_push(keys: Seq<Option<usize>>, key: Option<usize>, value: usize)
    ensures
        occurrences(keys.push(key), value) == occurrences(keys, value) + if key == Some(value) {
            1nat
        } else {
            0nat
        },
{
    assert(keys.push(key).drop_last() =~= keys);
}

/// No value occurs more often among `keys` than there are keys.
pub proof fn lemma_occurrences_bound(keys: Seq<Option<usize>>, value: usize)
    ensures
        occurrences(keys, value) <= keys.len(),
    decreases keys.len(),
{
    if keys.len() > 0 {
        lemma_occurrences_bound(keys.drop_last(), value);
    }
}

/// A mean, kept exact: its whole part, and what that leaves of the total,
/// which is still to be divided by the number of records.
#[derive(Clone, Copy, Debug)]
pub struct Mean {
    /// The whole part of the mean.
    pub whole: usize,
    /// What the whole part leaves of the total: less than the number of
    /// records.
    pub rest: usize,
}

/// `mean` is the mean of `count` sizes that add up to `total`: the total
/// divided by the count, and nothing where the count is zero.
pub open spec fn is_mean(mean: Option<Mean>, total: nat, count: nat) -> bool {
    match mean {
        Some(mean) => count > 0 && mean.rest < count && mean.whole * count + mean.rest == total,
        None => count == 0,
    }
}

/// A total and a count have one mean.
pub proof fn lemma_mean_is_unique(a: Option<Mean>, b: Option<Mean>, total: nat, count: nat)
    requires
        is_mean(a, total, count),
        is_mean(b, total, count),
    ensures
        a == b,
{
    if count > 0 {
        let (a, b) = (a->Some_0, b->Some_0);
        vstd::arithmetic::div_mod::lemma_fundamental_div_mod_converse(
            total as int,
            count as int,
            a.whole as int,
            a.rest as int,
        );
        vstd::arithmetic::div_mod::lemma_fundamental_div_mod_converse(
            total as int,
            count as int,
            b.whole as int,
            b.rest as int,
        );
    }
}

/// The mean of `count` sizes that add up to `total`.
pub fn mean(total: usize, count: usize) -> (r: Option<Mean>)
    ensures
        is_mean(r, total as nat, count as nat),
{
    if count == 0 {
        None
    } else {
        proof {
            vstd::arithmetic::div_mod::lemma_fundamental_div_mod(total as int, count as int);
            assert((total / count) * count == count * (total / count)) by (nonlinear_arith);
        }
        Some(Mean { whole: total / count, rest: total % count })
    }
}

/// The figures of a finished run.
#[derive(Debug)]
pub struct Report {
    /// The number of records.
    pub count: usize,
    /// The lengths of the JSON texts in characters, added up.
    pub total_json_chars: usize,
    /// The mean length of a JSON text.
    pub mean_json_chars: Option<Mean>,
    /// The most frequent bin of JSON lengths.
    pub mode_json_chars: usize,
    /// The lengths of the DOIs in characters, added up.
    pub total_doi_chars: usize,
    /// The DOI characters per record.
    pub mean_doi_chars: Option<Mean>,
    /// The most frequent length of a DOI in characters.
    pub mode_doi_chars: usize,
    /// The lengths of the DOIs in bytes, added up.
    pub total_doi_bytes: usize,
    /// The DOI bytes per record.
    pub mean_doi_bytes: Option<Mean>,
    /// The most frequent length of a DOI in bytes.
    pub mode_doi_bytes: usize,
    /// The greatest character met in a DOI.
    pub max_doi_codepoint: char,
    /// How many JSON texts fell in each bin, the bins ascending.
    pub json_chars_frequencies: Vec<(usize, usize)>,
    /// How many DOIs had each length in characters, the lengths ascending.
    pub doi_chars_frequencies: Vec<(usize, usize)>,
}

impl Report {
    /// The report states the figures of `history`.
    pub open spec fn describes(&self, history: Seq<Sample>) -> bool {
        &&& self.count == history.len()
        &&& self.total_json_chars == sum(json_sizes(history))
        &&& is_mean(self.mean_json_chars, sum(json_sizes(history)), history.len())
        &&& is_mode(tally(json_keys(history)), self.mode_json_chars)
        &&& self.total_doi_chars == sum(doi_char_sizes(history))
        &&& is_mean(self.mean_doi_chars, sum(doi_char_sizes(history)), history.len())
        &&& is_mode(tally(doi_chars_keys(history)), self.mode_doi_chars)
        &&& self.total_doi_bytes == sum(doi_byte_sizes(history))
        &&& is_mean(self.mean_doi_bytes, sum(doi_byte_sizes(history)), history.len())
        &&& is_mode(tally(doi_bytes_keys(history)), self.mode_doi_bytes)
        &&& self.max_doi_codepoint == max_char(doi_max_chars(history))
        &&& lists(self.json_chars_frequencies@, tally(json_keys(history)))
        &&& lists(self.doi_chars_frequencies@, tally(doi_chars_keys(history)))
    }
}

/// In the frequency table of at most `usize::MAX` keys every row holds the
/// number of occurrences of its value, which is at least one.
pub proof fn lemma_tally_rows(keys: Seq<Option<usize>>)
    requires
        keys.len() <= usize::MAX,
    ensures
        forall|value: usize| #[trigger]
            tally(keys).contains_key(value) ==> 1 <= tally(keys)[value] == occurrences(
                keys,
                value,
            ),
        forall|value: usize|
            crate::histogram::frequency(tally(keys), value) == #[trigger] occurrences(keys, value),
{
    assert forall|value: usize| occurrences(keys, value) <= keys.len() by {
        lemma_occurrences_bound(keys, value);
    }
}

/// The samples that the records with compact texts `texts` give, in order.
pub open spec fn samples_of(texts: Seq<Seq<char>>) -> Seq<Sample> {
    Seq::new(texts.len(), |i: int| sample_of(texts[i]))
}

/// The statistics of the records seen so far: their number, the running
/// totals, the frequency tables and the greatest character met in a DOI.
pub struct Stats {
    count: usize,
    total_json_chars: usize,
    total_doi_chars: usize,
    total_doi_bytes: usize,
    json_chars_frequencies: Histogram,
    doi_chars_frequencies: Histogram,
    doi_bytes_frequencies: Histogram,
    max_doi_codepoint: char,
    history: Ghost<Seq<Sample>>,
}

impl View for Stats {
    type V = Seq<Sample>;

    /// The samples taken in, oldest first.
    closed spec fn view(&self) -> Seq<Sample> {
        self.history@
    }
}

impl Stats {
    /// Every figure kept is the figure of the samples taken in.
    pub closed spec fn wf(&self) -> bool {
        &&& self.count == self@.len()
        &&& self.total_json_chars == sum(json_sizes(self@))
        &&& self.total_doi_chars == sum(doi_char_sizes(self@))
        &&& self.total_doi_bytes == sum(doi_byte_sizes(self@))
        &&& self.json_chars_frequencies@ == tally(json_keys(self@))
        &&& self.doi_chars_frequencies@ == tally(doi_chars_keys(self@))
        &&& self.doi_bytes_frequencies@ == tally(doi_bytes_keys(self@))
        &&& self.max_doi_codepoint == max_char(doi_max_chars(self@))
    }

    /// Whether one more sample can be taken in without a figure leaving the
    /// range of `usize`.
    pub open spec fn room_for(&self, sample: Sample) -> bool {
        &&& self@.len() < usize::MAX
        &&& sum(json_sizes(self@)) + sample.json_chars <= usize::MAX
        &&& sum(doi_char_sizes(self@)) + sample.doi_chars() <= usize::MAX
        &&& sum(doi_byte_sizes(self@)) + sample.doi_bytes() <= usize::MAX
    }

    /// The statistics of no record.
    pub fn new() -> (r: Stats)
        ensures
            r.wf(),
            r@ == Seq::<Sample>::empty(),
    {
        assert(tally(json_keys(Seq::<Sample>::empty())) =~= Map::<usize, usize>::empty());
        assert(tally(doi_chars_keys(Seq::<Sample>::empty())) =~= Map::<usize, usize>::empty());
        assert(tally(doi_bytes_keys(Seq::<Sample>::empty())) =~= Map::<usize, usize>::empty());
        Stats {
            count: 0,
            total_json_chars: 0,
            total_doi_chars: 0,
            total_doi_bytes: 0,
            json_chars_frequencies: Histogram::new(),
            doi_chars_frequencies: Histogram::new(),
            doi_bytes_frequencies: Histogram::new(),
            max_doi_codepoint: '\0',
            history: Ghost(Seq::empty()),
        }
    }

    /// Whether `sample` can be taken in.
    pub fn has_room(&self, sample: &Sample) -> (r: bool)
        requires
            self.wf(),
        ensures
            r == self.room_for(*sample),
    {
        let (doi_chars, doi_bytes) = match sample.doi {
            Some(size) => (size.chars, size.bytes),
            None => (0, 0),
        };
        self.count < usize::MAX && sample.json_chars <= usize::MAX - self.total_json_chars
            && doi_chars <= usize::MAX - self.total_doi_chars && doi_bytes <= usize::MAX
            - self.total_doi_bytes
    }

    /// The number of records seen.
    pub fn count(&self) -> (r: usize)
        requires
            self.wf(),
        ensures
            r == self@.len(),
    {
        self.count
    }

    /// The lengths of the JSON texts seen, added up.
    pub fn total_json_chars(&self) -> (r: usize)
        requires
            self.wf(),
        ensures
            r == sum(json_sizes(self@)),
    {
        self.total_json_chars
    }

    /// The lengths in characters of the DOIs seen, added up.
    pub fn total_doi_chars(&self) -> (r: usize)
        requires
            self.wf(),
        ensures
            r == sum(doi_char_sizes(self@)),
    {
        self.total_doi_chars
    }

    /// The lengths in bytes of the DOIs seen, added up.
    pub fn total_doi_bytes(&self) -> (r: usize)
        requires
            self.wf(),
        ensures
            r == sum(doi_byte_sizes(self@)),
    {
        self.total_doi_bytes
    }

    /// The greatest character met in a DOI so far.
    pub fn max_doi_codepoint(&self) -> (r: char)
        requires
            self.wf(),
        ensures
            r == max_char(doi_max_chars(self@)),
    {
        self.max_doi_codepoint
    }

    /// How many JSON texts fell in each bin of lengths.
    pub fn json_chars_frequencies(&self) -> (r: &Histogram)
        requires
            self.wf(),
        ensures
            r.wf(),
            r@ == tally(json_keys(self@)),
    {
        proof {
            lemma_tally_rows(json_keys(self@));
        }
        &self.json_chars_frequencies
    }

    /// How many DOIs had each length in characters.
    pub fn doi_chars_frequencies(&self) -> (r: &Histogram)
        requires
            self.wf(),
        ensures
            r.wf(),
            r@ == tally(doi_chars_keys(self@)),
    {
        proof {
            lemma_tally_rows(doi_chars_keys(self@));
        }
        &self.doi_chars_frequencies
    }

    /// How many DOIs had each length in bytes.
    pub fn doi_bytes_frequencies(&self) -> (r: &Histogram)
        requires
            self.wf(),
        ensures
            r.wf(),
            r@ == tally(doi_bytes_keys(self@)),
    {
        proof {
            lemma_tally_rows(doi_bytes_keys(self@));
        }
        &self.doi_bytes_frequencies
    }

    /// The figures of the records seen: to be asked for when the last record
    /// has been taken in.
    pub fn report(&self) -> (r: Report)
        requires
            self.wf(),
        ensures
            r.describes(self@),
    {
        Report {
            count: self.count,
            total_json_chars: self.total_json_chars,
            mean_json_chars: mean(self.total_json_chars, self.count),
            mode_json_chars: self.json_chars_frequencies().mode(),
            total_doi_chars: self.total_doi_chars,
            mean_doi_chars: mean(self.total_doi_chars, self.count),
            mode_doi_chars: self.doi_chars_frequencies().mode(),
            total_doi_bytes: self.total_doi_bytes,
            mean_doi_bytes: mean(self.total_doi_bytes, self.count),
            mode_doi_bytes: self.doi_bytes_frequencies().mode(),
            max_doi_codepoint: self.max_doi_codepoint,
            json_chars_frequencies: self.json_chars_frequencies().rows(),
            doi_chars_frequencies: self.doi_chars_frequencies().rows(),
        }
    }

    /// Takes one sample in.
    pub fn add(&mut self, sample: Sample)
        requires
            old(self).wf(),
            old(self).room_for(sample),
        ensures
            final(self).wf(),
            final(self)@ == old(self)@.push(sample),
    {
        let ghost before = self@;
        let ghost after = before.push(sample);
        proof {
            assert(json_sizes(after) =~= json_sizes(before).push(sample.json_chars as nat));
            assert(doi_char_sizes(after) =~= doi_char_sizes(before).push(sample.doi_chars()));
            assert(doi_byte_sizes(after) =~= doi_byte_sizes(before).push(sample.doi_bytes()));
            assert(doi_max_chars(after) =~= doi_max_chars(before).push(sample.doi_max_char()));
            assert(json_keys(after) =~= json_keys(before).push(sample.json_key()));
            assert(doi_chars_keys(after) =~= doi_chars_keys(before).push(sample.doi_chars_key()));
            assert(doi_bytes_keys(after) =~= doi_bytes_keys(before).push(sample.doi_bytes_key()));
            lemma_sum_push(json_sizes(before), sample.json_chars as nat);
            lemma_sum_push(doi_char_sizes(before), sample.doi_chars());
            lemma_sum_push(doi_byte_sizes(before), sample.doi_bytes());
            assert(doi_max_chars(before).push(sample.doi_max_char()).drop_last()
                =~= doi_max_chars(before));
            assert forall|value: usize|
                occurrences(json_keys(after), value) == occurrences(json_keys(before), value)
                    + if sample.json_key() == Some(value) {
                    1nat
                } else {
                    0nat
                } by {
                lemma_occurrences_push(json_keys(before), sample.json_key(), value);
            }
            assert forall|value: usize|
                occurrences(doi_chars_keys(after), value) == occurrences(
                    doi_chars_keys(before),
                    value,
                ) + if sample.doi_chars_key() == Some(value) {
                    1nat
                } else {
                    0nat
                } by {
                lemma_occurrences_push(doi_chars_keys(before), sample.doi_chars_key(), value);
            }
            assert forall|value: usize|
                occurrences(doi_bytes_keys(after), value) == occurrences(
                    doi_bytes_keys(before),
                    value,
                ) + if sample.doi_bytes_key() == Some(value) {
                    1nat
                } else {
                    0nat
                } by {
                lemma_occurrences_push(doi_bytes_keys(before), sample.doi_bytes_key(), value);
            }
            lemma_tally_rows(json_keys(before));
            lemma_tally_rows(doi_chars_keys(before));
            lemma_tally_rows(doi_bytes_keys(before));
        }
        self.count = self.count + 1;
        self.total_json_chars = self.total_json_chars + sample.json_chars;
        let key = bucket(sample.json_chars);
        proof {
            lemma_occurrences_bound(json_keys(before), key);
        }
        self.json_chars_frequencies.add(key);
        match sample.doi {
            Some(size) => {
                proof {
                    lemma_occurrences_bound(doi_chars_keys(before), size.chars);
                    lemma_occurrences_bound(doi_bytes_keys(before), size.bytes);
                }
                if size.max_char > self.max_doi_codepoint {
                    self.max_doi_codepoint = size.max_char;
                }
                self.total_doi_chars = self.total_doi_chars + size.chars;
                self.doi_chars_frequencies.add(size.chars);
                self.total_doi_bytes = self.total_doi_bytes + size.bytes;
                self.doi_bytes_frequencies.add(size.bytes);
            },
            None => {
                proof {
                    lemma_zero_is_least(self.max_doi_codepoint);
                }
            },
        }
        self.history = Ghost(after);
        proof {
            assert(self.json_chars_frequencies@ =~= tally(json_keys(after)));
            assert(self.doi_chars_frequencies@ =~= tally(doi_chars_keys(after)));
            assert(self.doi_bytes_frequencies@ =~= tally(doi_bytes_keys(after)));
        }
    }

    /// Takes a record in, unless a figure would leave the range of `usize`:
    /// then the statistics stay as they are and the answer is `false`.
    pub fn observe(&mut self, record: &Record) -> (taken: bool)
        requires
            old(self).wf(),
        ensures
            final(self).wf(),
            taken == old(self).room_for(sample_of(record@)),
            taken ==> final(self)@ == old(self)@.push(sample_of(record@)),
            !taken ==> final(self)@ == old(self)@,
    {
        let sample = measure(record);
        if self.has_room(&sample) {
            self.add(sample);
            true
        } else {
            false
        }
    }

    /// Takes records in, one after the other, up to the first for which
    /// there is no room. Gives the number of records taken in, which is the
    /// number of records given where there was room for each.
    pub fn observe_all(&mut self, records: &Vec<Record>) -> (taken: usize)
        requires
            old(self).wf(),
        ensures
            final(self).wf(),
            taken <= records@.len(),
            final(self)@ == old(self)@ + samples_of(texts(records@)).take(taken as int),
            taken < records@.len() ==> !final(self).room_for(sample_of(records@[taken as int]@)),
    {
        let mut i: usize = 0;
        while i < records.len()
            invariant
                i <= records.len(),
                self.wf(),
                self@ == old(self)@ + samples_of(texts(records@)).take(i as int),
            decreases records.len() - i,
        {
            if !self.observe(&records[i]) {
                return i;
            }
            i += 1;
        }
        i
    }
}

} // verus!

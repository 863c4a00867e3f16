//! Durations, ordered duration sequences with their total, and the grammar
//! that denotes both.

use crate::utils::text::{
    chars_of, decimal_text, decimal_value, digits, lemma_decimal_nonnegative, lemma_decimal_text,
    parse_digits, split, split_ranges, trim, trim_bounds,
};
use std::cmp::Ordering;
use vstd::prelude::*;
use vstd::std_specs::cmp::{PartialEqSpecImpl, PartialOrdSpecImpl};

verus! {

pub const MILLIS_PER_SECOND: i128 = 1_000;

pub const MILLIS_PER_MINUTE: i128 = 60_000;

pub const MILLIS_PER_HOUR: i128 = 3_600_000;

pub const MILLIS_PER_DAY: i128 = 86_400_000;

pub const MILLIS_PER_WEEK: i128 = 604_800_000;

/// Whether a number of milliseconds can be held by a `Duration`.
pub open spec fn representable(millis: int) -> bool {
    i128::MIN <= millis <= i128::MAX
}

/// How many whole units of `unit` milliseconds lie in `millis`, rounded
/// towards zero.
pub open spec fn whole_units(millis: int, unit: int) -> int
    recommends
        unit > 0,
{
    if millis >= 0 {
        millis / unit
    } else {
        -((-millis) / unit)
    }
}

/// A signed span of time, held as a whole number of milliseconds. Its view is
/// that number, and durations are ordered by it.
#[derive(Clone, Copy, Debug, PartialEq, Eq, Hash, Structural)]
pub struct Duration {
    millis: i128,
}

impl View for Duration {
    type V = int;

    closed spec fn view(&self) -> int {
        self.millis as int
    }
}

impl PartialOrd for Duration {
    /// The order of two durations: that of their lengths.
    fn partial_cmp(&self, other: &Self) -> (order: Option<Ordering>) {
        if self.millis < other.millis {
            Some(Ordering::Less)
        } else if self.millis > other.millis {
            Some(Ordering::Greater)
        } else {
            Some(Ordering::Equal)
        }
    }
}

impl PartialOrdSpecImpl for Duration {
    open spec fn obeys_partial_cmp_spec() -> bool {
        true
    }

    open spec fn partial_cmp_spec(&self, other: &Self) -> Option<Ordering> {
        if self@ < other@ {
            Some(Ordering::Less)
        } else if self@ > other@ {
            Some(Ordering::Greater)
        } else {
            Some(Ordering::Equal)
        }
    }
}

impl Duration {
    /// Every duration is representable.
    pub proof fn lemma_representable(self)
        ensures
            representable(self@),
    {
    }

    /// Two durations of the same length are the same duration.
    pub proof fn lemma_equal_by_view(self, other: Duration)
        requires
            self@ == other@,
        ensures
            self == other,
    {
    }

    /// The span of `n` milliseconds.
    pub fn milliseconds(n: i64) -> (d: Duration)
        ensures
            d@ == n,
    {
        Duration { millis: n as i128 }
    }

    /// The span of `n` seconds.
    pub fn seconds(n: i64) -> (d: Duration)
        ensures
            d@ == n * MILLIS_PER_SECOND,
    {
        Duration { millis: n as i128 * MILLIS_PER_SECOND }
    }

    /// The span of `n` minutes.
    pub fn minutes(n: i64) -> (d: Duration)
        ensures
            d@ == n * MILLIS_PER_MINUTE,
    {
        Duration { millis: n as i128 * MILLIS_PER_MINUTE }
    }

    /// The span of `n` hours.
    pub fn hours(n: i64) -> (d: Duration)
        ensures
            d@ == n * MILLIS_PER_HOUR,
    {
        Duration { millis: n as i128 * MILLIS_PER_HOUR }
    }

    /// The span of `n` days of 24 hours.
    pub fn days(n: i64) -> (d: Duration)
        ensures
            d@ == n * MILLIS_PER_DAY,
    {
        Duration { millis: n as i128 * MILLIS_PER_DAY }
    }

    /// The span of `n` weeks of 7 days.
    pub fn weeks(n: i64) -> (d: Duration)
        ensures
            d@ == n * MILLIS_PER_WEEK,
    {
        Duration { millis: n as i128 * MILLIS_PER_WEEK }
    }

    /// The length in milliseconds.
    pub fn whole_milliseconds(&self) -> (n: i128)
        ensures
            n == self@,
    {
        self.millis
    }

    /// The length in whole seconds, rounded towards zero.
    pub fn whole_seconds(&self) -> (n: i128)
        ensures
            n == whole_units(self@, MILLIS_PER_SECOND as int),
    {
        self.millis / MILLIS_PER_SECOND
    }

    /// The length in whole hours, rounded towards zero.
    pub fn whole_hours(&self) -> (n: i128)
        ensures
            n == whole_units(self@, MILLIS_PER_HOUR as int),
    {
        self.millis / MILLIS_PER_HOUR
    }

    /// The length in whole days, rounded towards zero.
    pub fn whole_days(&self) -> (n: i128)
        ensures
            n == whole_units(self@, MILLIS_PER_DAY as int),
    {
        self.millis / MILLIS_PER_DAY
    }

    /// The sum of two durations, or `None` where it is not representable.
    pub fn checked_add(&self, rhs: Duration) -> (sum: Option<Duration>)
        ensures
            sum is Some <==> representable(self@ + rhs@),
            sum is Some ==> sum->0@ == self@ + rhs@,
    {
        match self.millis.checked_add(rhs.millis) {
            Some(millis) => Some(Duration { millis }),
            None => None,
        }
    }
}

/// The lengths, in milliseconds, of the durations in `durations`.
pub open spec fn millis_of(durations: Seq<Duration>) -> Seq<int> {
    durations.map_values(|d: Duration| d@)
}

/// The sum of the lengths in `lengths`.
pub open spec fn total_millis(lengths: Seq<int>) -> int
    decreases lengths.len(),
{
    if lengths.len() == 0 {
        0
    } else {
        total_millis(lengths.drop_last()) + lengths.last()
    }
}

/// Appending one length adds it to the total.
pub proof fn lemma_total_push(lengths: Seq<int>, length: int)
    ensures
        total_millis(lengths.push(length)) == total_millis(lengths) + length,
{
    assert(lengths.push(length).drop_last() =~= lengths);
}

/// The sum of all durations in `durations`, or `None` where that sum is not
/// representable. Sums along the way that are not representable do not
/// matter.
pub fn checked_total(durations: &Vec<Duration>) -> (total: Option<Duration>)
    ensures
        total is Some <==> representable(total_millis(millis_of(durations@))),
        total is Some ==> total->0@ == total_millis(millis_of(durations@)),
{
    let ghost lengths = millis_of(durations@);
    // The sum so far is `low + wraps * 2^128`.
    let mut low: i128 = 0;
    let mut wraps: i128 = 0;
    let mut i: usize = 0;
    while i < durations.len()
        invariant
            i <= durations.len(),
            lengths == millis_of(durations@),
            low + wraps * 0x1_0000_0000_0000_0000_0000_0000_0000_0000 == total_millis(
                lengths.take(i as int),
            ),
            -i <= wraps <= i,
        decreases durations.len() - i,
    {
        let d: i128 = durations[i].millis;
        proof {
            assert(lengths.take(i + 1).drop_last() =~= lengths.take(i as int));
        }
        match low.checked_add(d) {
            Some(sum) => {
                low = sum;
            },
            None => {
                if d > 0 {
                    low = (low + i128::MIN) + (d + i128::MIN);
                    wraps = wraps + 1;
                } else {
                    low = (low - i128::MIN) + (d - i128::MIN);
                    wraps = wraps - 1;
                }
            },
        }
        i += 1;
    }
    assert(lengths.take(i as int) =~= lengths);
    if wraps == 0 {
        Some(Duration { millis: low })
    } else {
        None
    }
}

/// What can go wrong when a duration sequence is made.
#[derive(Clone, Copy, Debug, PartialEq, Eq, Structural)]
pub enum DurationSequenceError {
    /// The sequence would hold no duration.
    EmptySequence,
}

impl DurationSequenceError {
    /// What `message` says of the error.
    pub open spec fn message_text(self) -> Seq<char> {
        "Duration sequence is empty"@
    }

    /// The error in words.
    pub fn message(&self) -> (text: String)
        ensures
            text@ == self.message_text(),
    {
        String::from_str("Duration sequence is empty")
    }
}

/// An ordered, non-empty list of durations that says when an event is to
/// happen again: `[5m, 5m, 1h]` stands for after five minutes, after another
/// five, then after an hour. The total of the list is kept beside it.
///
/// The view is the list of lengths in milliseconds.
#[derive(Debug)]
pub struct DurationSequence {
    sequence: Vec<Duration>,
    total_duration: Duration,
}

impl View for DurationSequence {
    type V = Seq<int>;

    closed spec fn view(&self) -> Seq<int> {
        millis_of(self.sequence@)
    }
}

impl DurationSequence {
    #[verifier::type_invariant]
    spec fn well_formed(&self) -> bool {
        &&& self.sequence@.len() >= 1
        &&& self.total_duration@ == total_millis(millis_of(self.sequence@))
    }

    /// Makes a sequence of the durations in `dur_seq`, in their order.
    /// Fails on an empty list. The total has to be representable.
    pub fn from_vec(dur_seq: Vec<Duration>) -> (made: Result<DurationSequence, DurationSequenceError>)
        requires
            representable(total_millis(millis_of(dur_seq@))),
        ensures
            dur_seq@.len() == 0 ==> made == Err::<DurationSequence, _>(
                DurationSequenceError::EmptySequence,
            ),
            dur_seq@.len() > 0 ==> made is Ok && made->Ok_0@ == millis_of(dur_seq@),
    {
        if dur_seq.len() == 0 {
            return Err(DurationSequenceError::EmptySequence);
        }
        let total_duration = checked_total(&dur_seq).unwrap();
        Ok(DurationSequence { sequence: dur_seq, total_duration })
    }

    /// The duration at `index`, if the sequence is that long.
    pub fn get_from_sequence(&self, index: usize) -> (found: Option<&Duration>)
        ensures
            index < self@.len() ==> found is Some && found->0@ == self@[index as int],
            index >= self@.len() ==> found is None,
    {
        if index < self.sequence.len() {
            Some(&self.sequence[index])
        } else {
            None
        }
    }

    /// The duration at `index`, or the first one where the sequence is
    /// shorter than that.
    pub fn get_from_sequence_or_first(&self, index: usize) -> (found: &Duration)
        ensures
            self@.len() >= 1,
            found@ == if index < self@.len() {
                self@[index as int]
            } else {
                self@[0]
            },
    {
        proof {
            use_type_invariant(self);
        }
        if index < self.sequence.len() {
            &self.sequence[index]
        } else {
            &self.sequence[0]
        }
    }

    /// Appends `d`. The total grows by exactly `d` and has to stay
    /// representable. Returns the sequence itself, so that calls can be
    /// chained.
    pub fn push(&mut self, d: Duration) -> (same: &mut Self)
        requires
            representable(total_millis(old(self)@) + d@),
        ensures
            same@ == old(self)@.push(d@),
            total_millis(same@) == total_millis(old(self)@) + d@,
            *final(self) == *final(same),
    {
        proof {
            use_type_invariant(&*self);
            lemma_total_push(self@, d@);
            assert(millis_of(self.sequence@.push(d)) =~= millis_of(self.sequence@).push(d@));
        }
        let total = Duration { millis: self.total_duration.millis + d.millis };
        // The fields cannot be changed one by one, so the sequence is taken
        // out whole, with a valid one left in its place for the moment.
        let single: Vec<Duration> = vec![d];
        proof {
            assert(millis_of(single@) =~= Seq::<int>::empty().push(d@));
            lemma_total_push(Seq::<int>::empty(), d@);
        }
        let mut taken = DurationSequence { sequence: single, total_duration: d };
        core::mem::swap(self, &mut taken);
        let DurationSequence { sequence, total_duration: _ } = taken;
        let mut sequence = sequence;
        sequence.push(d);
        *self = DurationSequence { sequence, total_duration: total };
        self
    }

    /// The durations, in order. There is at least one.
    pub fn sequence(&self) -> (durations: &Vec<Duration>)
        ensures
            durations@.len() >= 1,
            millis_of(durations@) == self@,
    {
        proof {
            use_type_invariant(self);
        }
        &self.sequence
    }

    /// The total: the sum of all durations in the sequence.
    pub fn total_duration(&self) -> (total: &Duration)
        ensures
            total@ == total_millis(self@),
    {
        proof {
            use_type_invariant(self);
        }
        &self.total_duration
    }
}

impl Clone for DurationSequence {
    /// A sequence of the same durations in the same order.
    fn clone(&self) -> (copy: Self)
        ensures
            copy@ == self@,
    {
        proof {
            use_type_invariant(self);
        }
        let mut sequence: Vec<Duration> = Vec::new();
        let mut i: usize = 0;
        while i < self.sequence.len()
            invariant
                i <= self.sequence.len(),
                sequence@ == self.sequence@.take(i as int),
            decreases self.sequence.len() - i,
        {
            sequence.push(self.sequence[i]);
            i += 1;
        }
        assert(self.sequence@.take(i as int) =~= self.sequence@);
        DurationSequence { sequence, total_duration: self.total_duration }
    }
}

impl PartialEq for DurationSequence {
    /// Whether both sequences hold the same durations in the same order.
    fn eq(&self, other: &Self) -> (same: bool) {
        proof {
            use_type_invariant(self);
            use_type_invariant(other);
        }
        if self.sequence.len() != other.sequence.len() {
            return false;
        }
        let mut i: usize = 0;
        while i < self.sequence.len()
            invariant
                i <= self.sequence.len(),
                self.sequence.len() == other.sequence.len(),
                forall|j: int| 0 <= j < i ==> self@[j] == other@[j],
            decreases self.sequence.len() - i,
        {
            if self.sequence[i].millis != other.sequence[i].millis {
                assert(self@[i as int] != other@[i as int]);
                return false;
            }
            i += 1;
        }
        assert(self@ =~= other@);
        true
    }
}

impl PartialEqSpecImpl for DurationSequence {
    open spec fn obeys_eq_spec() -> bool {
        true
    }

    open spec fn eq_spec(&self, other: &Self) -> bool {
        self@ == other@
    }
}

/// What can go wrong when text is read as a duration or a duration sequence.
#[derive(Clone, Copy, Debug, PartialEq, Eq, Structural)]
pub enum DurationSerdeErrors {
    /// The text does not follow the grammar, or denotes more than can be
    /// held.
    InvalidSyntax,
}

impl DurationSerdeErrors {
    /// What `message` says of the error.
    pub open spec fn message_text(self) -> Seq<char> {
        "Data has invalid syntax"@
    }

    /// The error in words.
    pub fn message(&self) -> (text: String)
        ensures
            text@ == self.message_text(),
    {
        String::from_str("Data has invalid syntax")
    }
}

/// The length in seconds of one unit letter: `s` seconds, `m` minutes, `h`
/// hours, `d` days of 24 hours, `w` weeks of 7 days. `None` for any other
/// character.
pub open spec fn unit_seconds(unit: char) -> Option<int> {
    if unit == 's' {
        Some(1)
    } else if unit == 'm' {
        Some(60)
    } else if unit == 'h' {
        Some(3_600)
    } else if unit == 'd' {
        Some(86_400)
    } else if unit == 'w' {
        Some(604_800)
    } else {
        None
    }
}

/// The length in milliseconds that a duration token denotes: one or more
/// ASCII digits that denote a count of at most `i64::MAX`, then one unit
/// letter, and nothing else; the length is that of the unit, taken count
/// times. `None` for any other text.
pub open spec fn token_millis(token: Seq<char>) -> Option<int> {
    if token.len() >= 2 && digits(token.drop_last()) && decimal_value(token.drop_last())
        <= i64::MAX && unit_seconds(token.last()) is Some {
        Some(decimal_value(token.drop_last()) * unit_seconds(token.last())->0 * 1_000)
    } else {
        None
    }
}

/// A count written in digits, with a unit letter behind it, denotes the
/// length of the unit taken count times: in seconds, the count times the
/// seconds of the unit.
pub proof fn lemma_token_of_digits(count: Seq<char>, unit: char)
    requires
        count.len() >= 1,
        digits(count),
        decimal_value(count) <= i64::MAX,
        unit_seconds(unit) is Some,
    ensures
        token_millis(count.push(unit)) == Some(
            decimal_value(count) * unit_seconds(unit)->0 * 1_000,
        ),
        whole_units(token_millis(count.push(unit))->0, 1_000) == decimal_value(count)
            * unit_seconds(unit)->0,
{
    assert(count.push(unit).drop_last() =~= count);
    lemma_decimal_nonnegative(count);
    let seconds = decimal_value(count) * unit_seconds(unit)->0;
    assert(seconds >= 0) by (nonlinear_arith)
        requires
            seconds == decimal_value(count) * unit_seconds(unit)->0,
            decimal_value(count) >= 0,
            unit_seconds(unit)->0 >= 0,
    ;
}

/// The number `n`, with a unit letter behind it, denotes the length of the
/// unit taken `n` times: `n` times 1 second for `s`, 60 for `m`, 3600 for
/// `h`, 86400 for `d` and 604800 for `w`.
pub proof fn lemma_token_of_number(n: nat, unit: char)
    requires
        n <= i64::MAX,
        unit_seconds(unit) is Some,
    ensures
        token_millis(decimal_text(n).push(unit)) == Some(n * unit_seconds(unit)->0 * 1_000),
        whole_units(token_millis(decimal_text(n).push(unit))->0, 1_000) == n * unit_seconds(
            unit,
        )->0,
{
    lemma_decimal_text(n);
    lemma_token_of_digits(decimal_text(n), unit);
}

/// Whether `text` starts with `[` and ends with `]`.
pub open spec fn bracketed(text: Seq<char>) -> bool {
    text.len() >= 2 && text.first() == '[' && text.last() == ']'
}

/// The tokens of a duration sequence. Bracketed text loses one `[` and one
/// `]`, is cut at each `,`, and each piece is trimmed. Any other text is one
/// token as it stands.
pub open spec fn sequence_tokens(text: Seq<char>) -> Seq<Seq<char>> {
    if bracketed(text) {
        split(text.subrange(1, text.len() - 1), ',').map_values(|piece: Seq<char>| trim(piece))
    } else {
        seq![text]
    }
}

/// The lengths in milliseconds that the text of a duration sequence denotes:
/// those of its tokens, in order, where each token is a duration token and
/// the total is representable. `None` for any other text.
pub open spec fn sequence_millis(text: Seq<char>) -> Option<Seq<int>> {
    let tokens = sequence_tokens(text);
    let lengths = tokens.map_values(|token: Seq<char>| token_millis(token)->0);
    if (forall|i: int| 0 <= i < tokens.len() ==> token_millis(#[trigger] tokens[i]) is Some)
        && representable(total_millis(lengths)) {
        Some(lengths)
    } else {
        None
    }
}

/// Reads the range `lo..hi` of `v` as a duration token.
pub fn parse_duration(v: &Vec<char>, lo: usize, hi: usize) -> (parsed: Result<
    Duration,
    DurationSerdeErrors,
>)
    requires
        lo <= hi <= v.len(),
    ensures
        match token_millis(v@.subrange(lo as int, hi as int)) {
            Some(millis) => parsed is Ok && parsed->Ok_0@ == millis,
            None => parsed == Err::<Duration, _>(DurationSerdeErrors::InvalidSyntax),
        },
{
    if hi - lo < 2 {
        return Err(DurationSerdeErrors::InvalidSyntax);
    }
    let ghost token = v@.subrange(lo as int, hi as int);
    assert(token.drop_last() =~= v@.subrange(lo as int, hi - 1));
    let unit = v[hi - 1];
    let unit_length: i128 = if unit == 's' {
        MILLIS_PER_SECOND
    } else if unit == 'm' {
        MILLIS_PER_MINUTE
    } else if unit == 'h' {
        MILLIS_PER_HOUR
    } else if unit == 'd' {
        MILLIS_PER_DAY
    } else if unit == 'w' {
        MILLIS_PER_WEEK
    } else {
        return Err(DurationSerdeErrors::InvalidSyntax);
    };
    match parse_digits(v, lo, hi - 1, 0x7fff_ffff_ffff_ffff) {
        Some(count) => {
            let ghost seconds = unit_seconds(unit)->0;
            assert(count * unit_length <= 0x7fff_ffff_ffff_ffff * 604_800_000 && count
                * unit_length == count * seconds * 1_000) by (nonlinear_arith)
                requires
                    0 <= count <= 0x7fff_ffff_ffff_ffff,
                    0 < unit_length <= 604_800_000,
                    unit_length == seconds * 1_000,
            ;
            Ok(Duration { millis: count as i128 * unit_length })
        },
        None => Err(DurationSerdeErrors::InvalidSyntax),
    }
}

/// The reading of a value as one duration.
pub trait DurationDeserializer {
    /// Reads the value as a duration.
    fn to_duration(&self) -> Result<Duration, DurationSerdeErrors>;
}

/// The reading of a value as a duration sequence.
pub trait DurationSequenceDeserializer {
    /// Reads the value as a duration sequence.
    fn to_duration_sequence(&self) -> Result<DurationSequence, DurationSerdeErrors>;
}

impl DurationDeserializer for &str {
    /// Reads the text as a duration token, such as `30m` or `7d`: a count in
    /// ASCII digits and one unit letter, with no sign and no whitespace.
    /// Every other text is refused with `InvalidSyntax`.
    fn to_duration(&self) -> (parsed: Result<Duration, DurationSerdeErrors>)
        ensures
            match token_millis(self@) {
                Some(millis) => parsed is Ok && parsed->Ok_0@ == millis,
                None => parsed == Err::<Duration, _>(DurationSerdeErrors::InvalidSyntax),
            },
    {
        let v = chars_of(self);
        assert(v@.subrange(0, v@.len() as int) =~= v@);
        parse_duration(&v, 0, v.len())
    }
}

/// Reads all of `v` as the text of a duration sequence.
pub fn parse_duration_sequence(v: &Vec<char>) -> (parsed: Result<
    DurationSequence,
    DurationSerdeErrors,
>)
    ensures
        match sequence_millis(v@) {
            Some(lengths) => parsed is Ok && parsed->Ok_0@ == lengths,
            None => parsed is Err && parsed->Err_0 == DurationSerdeErrors::InvalidSyntax,
        },
{
    let n = v.len();
    let ghost tokens = sequence_tokens(v@);
    let ghost lengths = tokens.map_values(|token: Seq<char>| token_millis(token)->0);
    let mut sequence: Vec<Duration> = Vec::new();
    if n < 2 || v[0] != '[' || v[n - 1] != ']' {
        assert(v@.subrange(0, n as int) =~= v@);
        match parse_duration(v, 0, n) {
            Ok(d) => {
                sequence.push(d);
            },
            Err(e) => {
                return Err(e);
            },
        }
        assert(millis_of(sequence@) =~= lengths);
    } else {
        let pieces = split_ranges(v, 1, n - 1, ',');
        let mut i: usize = 0;
        while i < pieces.len()
            invariant
                i <= pieces.len(),
                n == v.len(),
                bracketed(v@),
                tokens == sequence_tokens(v@),
                lengths == tokens.map_values(|token: Seq<char>| token_millis(token)->0),
                pieces@.len() == split(v@.subrange(1, n - 1), ',').len(),
                forall|k: int|
                    0 <= k < pieces@.len() ==> 1 <= (#[trigger] pieces@[k]).0 <= pieces@[k].1 <= n
                        - 1,
                forall|k: int|
                    0 <= k < pieces@.len() ==> v@.subrange(
                        (#[trigger] pieces@[k]).0 as int,
                        pieces@[k].1 as int,
                    ) == split(v@.subrange(1, n - 1), ',')[k],
                forall|k: int| 0 <= k < i ==> token_millis(#[trigger] tokens[k]) is Some,
                millis_of(sequence@) == lengths.take(i as int),
            decreases pieces.len() - i,
        {
            let piece = pieces[i];
            let (a, b) = trim_bounds(v, piece.0, piece.1);
            assert(tokens[i as int] == v@.subrange(a as int, b as int));
            match parse_duration(v, a, b) {
                Ok(d) => {
                    sequence.push(d);
                    assert(lengths.take(i + 1) =~= lengths.take(i as int).push(d@));
                },
                Err(e) => {
                    return Err(e);
                },
            }
            i += 1;
        }
        assert(lengths.take(i as int) =~= lengths);
    }
    match checked_total(&sequence) {
        Some(total_duration) => Ok(DurationSequence { sequence, total_duration }),
        None => Err(DurationSerdeErrors::InvalidSyntax),
    }
}

impl DurationSequenceDeserializer for &str {
    /// Reads the text as a duration sequence: either one duration token,
    /// which gives a sequence of one, or `[`, duration tokens with `,`
    /// between them, and `]`. Whitespace may stand around a token in
    /// brackets, not inside one. Every other text is refused with
    /// `InvalidSyntax`, and so is a sequence whose total is not
    /// representable.
    fn to_duration_sequence(&self) -> (parsed: Result<DurationSequence, DurationSerdeErrors>)
        ensures
            match sequence_millis(self@) {
                Some(lengths) => parsed is Ok && parsed->Ok_0@ == lengths,
                None => parsed is Err && parsed->Err_0 == DurationSerdeErrors::InvalidSyntax,
            },
    {
        let v = chars_of(self);
        parse_duration_sequence(&v)
    }
}

} // verus!

//! Ranges of History entries (`--entries RANGE`), their resolution against a
//! History's size, and the walk over the entries that `heal-history` makes.

use vstd::prelude::*;
use vstd::string::*;
use crate::text::{chars_of, parse_u64, parse_u64_spec, slice_from, slice_range};

verus! {

/// A range of History entries: an optional first and last entry.
#[derive(Clone, Debug)]
pub struct EntriesRange {
    pub start: Option<u64>,
    pub end: Option<u64>,
}

/// Why a RANGE argument was refused.
#[derive(Clone, Copy, Debug, PartialEq, Eq)]
pub enum EntriesRangeError {
    /// Not of the form `[digits][:][digits]`.
    InvalidRange,
    /// The start is not a `u64`: too large, or written with digits of another script.
    InvalidStart,
    /// The end is not a `u64`: too large, or written with digits of another script.
    InvalidEnd,
    /// The end is less than the start.
    EndBeforeStart,
}

impl EntriesRangeError {
    /// The message that the command line reports for this error.
    pub fn message(&self) -> (r: String)
        ensures
            r@ == (match self {
                EntriesRangeError::InvalidRange => "invalid range"@,
                EntriesRangeError::InvalidStart => "invalid start value"@,
                EntriesRangeError::InvalidEnd => "invalid end value"@,
                EntriesRangeError::EndBeforeStart => "end cannot be less than start"@,
            }),
    {
        match self {
            EntriesRangeError::InvalidRange => String::from_str("invalid range"),
            EntriesRangeError::InvalidStart => String::from_str("invalid start value"),
            EntriesRangeError::InvalidEnd => String::from_str("invalid end value"),
            EntriesRangeError::EndBeforeStart => String::from_str("end cannot be less than start"),
        }
    }
}

/// A decimal digit of any script (Unicode general category Nd, as of
/// Unicode 16.0): what `\d` matches in the RANGE pattern. Only the ASCII
/// digits among them make a number.
pub open spec fn is_decimal_number(c: char) -> bool {
    let n = c as u32;
    (0x30 <= n && n <= 0x39) || (0x660 <= n && n <= 0x669) || (0x6f0 <= n && n <= 0x6f9)
    || (0x7c0 <= n && n <= 0x7c9) || (0x966 <= n && n <= 0x96f) || (0x9e6 <= n && n <= 0x9ef)
    || (0xa66 <= n && n <= 0xa6f) || (0xae6 <= n && n <= 0xaef) || (0xb66 <= n && n <= 0xb6f)
    || (0xbe6 <= n && n <= 0xbef) || (0xc66 <= n && n <= 0xc6f) || (0xce6 <= n && n <= 0xcef)
    || (0xd66 <= n && n <= 0xd6f) || (0xde6 <= n && n <= 0xdef) || (0xe50 <= n && n <= 0xe59)
    || (0xed0 <= n && n <= 0xed9) || (0xf20 <= n && n <= 0xf29) || (0x1040 <= n && n <= 0x1049)
    || (0x1090 <= n && n <= 0x1099) || (0x17e0 <= n && n <= 0x17e9)
    || (0x1810 <= n && n <= 0x1819) || (0x1946 <= n && n <= 0x194f)
    || (0x19d0 <= n && n <= 0x19d9) || (0x1a80 <= n && n <= 0x1a89)
    || (0x1a90 <= n && n <= 0x1a99) || (0x1b50 <= n && n <= 0x1b59)
    || (0x1bb0 <= n && n <= 0x1bb9) || (0x1c40 <= n && n <= 0x1c49)
    || (0x1c50 <= n && n <= 0x1c59) || (0xa620 <= n && n <= 0xa629)
    || (0xa8d0 <= n && n <= 0xa8d9) || (0xa900 <= n && n <= 0xa909)
    || (0xa9d0 <= n && n <= 0xa9d9) || (0xa9f0 <= n && n <= 0xa9f9)
    || (0xaa50 <= n && n <= 0xaa59) || (0xabf0 <= n && n <= 0xabf9)
    || (0xff10 <= n && n <= 0xff19) || (0x104a0 <= n && n <= 0x104a9)
    || (0x10d30 <= n && n <= 0x10d39) || (0x10d40 <= n && n <= 0x10d49)
    || (0x11066 <= n && n <= 0x1106f) || (0x110f0 <= n && n <= 0x110f9)
    || (0x11136 <= n && n <= 0x1113f) || (0x111d0 <= n && n <= 0x111d9)
    || (0x112f0 <= n && n <= 0x112f9) || (0x11450 <= n && n <= 0x11459)
    || (0x114d0 <= n && n <= 0x114d9) || (0x11650 <= n && n <= 0x11659)
    || (0x116c0 <= n && n <= 0x116c9) || (0x116d0 <= n && n <= 0x116e3)
    || (0x11730 <= n && n <= 0x11739) || (0x118e0 <= n && n <= 0x118e9)
    || (0x11950 <= n && n <= 0x11959) || (0x11bf0 <= n && n <= 0x11bf9)
    || (0x11c50 <= n && n <= 0x11c59) || (0x11d50 <= n && n <= 0x11d59)
    || (0x11da0 <= n && n <= 0x11da9) || (0x11f50 <= n && n <= 0x11f59)
    || (0x16130 <= n && n <= 0x16139) || (0x16a60 <= n && n <= 0x16a69)
    || (0x16ac0 <= n && n <= 0x16ac9) || (0x16b50 <= n && n <= 0x16b59)
    || (0x16d70 <= n && n <= 0x16d79) || (0x1ccf0 <= n && n <= 0x1ccf9)
    || (0x1d7ce <= n && n <= 0x1d7ff) || (0x1e140 <= n && n <= 0x1e149)
    || (0x1e2f0 <= n && n <= 0x1e2f9) || (0x1e4f0 <= n && n <= 0x1e4f9)
    || (0x1e5f1 <= n && n <= 0x1e5fa) || (0x1e950 <= n && n <= 0x1e959)
    || (0x1fbf0 <= n && n <= 0x1fbf9)
}

/// See [`is_decimal_number`].
pub fn is_decimal_number_char(c: char) -> (r: bool)
    ensures
        r == is_decimal_number(c),
{
    let n = c as u32;
    (0x30 <= n && n <= 0x39) || (0x660 <= n && n <= 0x669) || (0x6f0 <= n && n <= 0x6f9)
    || (0x7c0 <= n && n <= 0x7c9) || (0x966 <= n && n <= 0x96f) || (0x9e6 <= n && n <= 0x9ef)
    || (0xa66 <= n && n <= 0xa6f) || (0xae6 <= n && n <= 0xaef) || (0xb66 <= n && n <= 0xb6f)
    || (0xbe6 <= n && n <= 0xbef) || (0xc66 <= n && n <= 0xc6f) || (0xce6 <= n && n <= 0xcef)
    || (0xd66 <= n && n <= 0xd6f) || (0xde6 <= n && n <= 0xdef) || (0xe50 <= n && n <= 0xe59)
    || (0xed0 <= n && n <= 0xed9) || (0xf20 <= n && n <= 0xf29) || (0x1040 <= n && n <= 0x1049)
    || (0x1090 <= n && n <= 0x1099) || (0x17e0 <= n && n <= 0x17e9)
    || (0x1810 <= n && n <= 0x1819) || (0x1946 <= n && n <= 0x194f)
    || (0x19d0 <= n && n <= 0x19d9) || (0x1a80 <= n && n <= 0x1a89)
    || (0x1a90 <= n && n <= 0x1a99) || (0x1b50 <= n && n <= 0x1b59)
    || (0x1bb0 <= n && n <= 0x1bb9) || (0x1c40 <= n && n <= 0x1c49)
    || (0x1c50 <= n && n <= 0x1c59) || (0xa620 <= n && n <= 0xa629)
    || (0xa8d0 <= n && n <= 0xa8d9) || (0xa900 <= n && n <= 0xa909)
    || (0xa9d0 <= n && n <= 0xa9d9) || (0xa9f0 <= n && n <= 0xa9f9)
    || (0xaa50 <= n && n <= 0xaa59) || (0xabf0 <= n && n <= 0xabf9)
    || (0xff10 <= n && n <= 0xff19) || (0x104a0 <= n && n <= 0x104a9)
    || (0x10d30 <= n && n <= 0x10d39) || (0x10d40 <= n && n <= 0x10d49)
    || (0x11066 <= n && n <= 0x1106f) || (0x110f0 <= n && n <= 0x110f9)
    || (0x11136 <= n && n <= 0x1113f) || (0x111d0 <= n && n <= 0x111d9)
    || (0x112f0 <= n && n <= 0x112f9) || (0x11450 <= n && n <= 0x11459)
    || (0x114d0 <= n && n <= 0x114d9) || (0x11650 <= n && n <= 0x11659)
    || (0x116c0 <= n && n <= 0x116c9) || (0x116d0 <= n && n <= 0x116e3)
    || (0x11730 <= n && n <= 0x11739) || (0x118e0 <= n && n <= 0x118e9)
    || (0x11950 <= n && n <= 0x11959) || (0x11bf0 <= n && n <= 0x11bf9)
    || (0x11c50 <= n && n <= 0x11c59) || (0x11d50 <= n && n <= 0x11d59)
    || (0x11da0 <= n && n <= 0x11da9) || (0x11f50 <= n && n <= 0x11f59)
    || (0x16130 <= n && n <= 0x16139) || (0x16a60 <= n && n <= 0x16a69)
    || (0x16ac0 <= n && n <= 0x16ac9) || (0x16b50 <= n && n <= 0x16b59)
    || (0x16d70 <= n && n <= 0x16d79) || (0x1ccf0 <= n && n <= 0x1ccf9)
    || (0x1d7ce <= n && n <= 0x1d7ff) || (0x1e140 <= n && n <= 0x1e149)
    || (0x1e2f0 <= n && n <= 0x1e2f9) || (0x1e4f0 <= n && n <= 0x1e4f9)
    || (0x1e5f1 <= n && n <= 0x1e5fa) || (0x1e950 <= n && n <= 0x1e959)
    || (0x1fbf0 <= n && n <= 0x1fbf9)
}

/// Every character of `s` is a decimal digit of some script.
pub open spec fn all_decimal_numbers(s: Seq<char>) -> bool {
    forall|i: int| 0 <= i < s.len() ==> #[trigger] is_decimal_number(s[i])
}

/// The number of leading decimal digits of `s`.
pub open spec fn leading_digits(s: Seq<char>) -> nat
    decreases s.len(),
{
    if s.len() > 0 && is_decimal_number(s[0]) {
        1 + leading_digits(s.drop_first())
    } else {
        0
    }
}

/// The three groups of `(digits)(:?)(digits)` that match all of `s`, if it
/// matches.
pub open spec fn range_groups(s: Seq<char>) -> Option<(Seq<char>, Seq<char>, Seq<char>)> {
    let k = leading_digits(s) as int;
    let rest = s.skip(k);
    if rest.len() == 0 {
        Some((s.take(k), Seq::empty(), Seq::empty()))
    } else if rest[0] == ':' && all_decimal_numbers(rest.drop_first()) {
        Some((s.take(k), seq![':'], rest.drop_first()))
    } else {
        None
    }
}

/// What a RANGE argument denotes: an integer (a single entry), an integer
/// followed by ':', two integers separated by ':', or ':' followed by an
/// integer, with an empty part meaning unbounded.
pub open spec fn entries_range_spec(s: Seq<char>) -> Result<(Option<u64>, Option<u64>), EntriesRangeError> {
    match range_groups(s) {
        None => Err(EntriesRangeError::InvalidRange),
        Some((g1, g2, g3)) => {
            let start = if g1.len() > 0 { parse_u64_spec(g1) } else { None };
            if g1.len() > 0 && start is None {
                Err(EntriesRangeError::InvalidStart)
            } else {
                let end = if start is Some && g2.len() == 0 {
                    Ok(start)
                } else if g3.len() > 0 {
                    match parse_u64_spec(g3) {
                        Some(n) => Ok(Some(n)),
                        None => Err(EntriesRangeError::InvalidEnd),
                    }
                } else {
                    Ok(None)
                };
                match end {
                    Err(e) => Err(e),
                    Ok(end) => if start is Some && end is Some && end->0 < start->0 {
                        Err(EntriesRangeError::EndBeforeStart)
                    } else {
                        Ok((start, end))
                    },
                }
            }
        },
    }
}

proof fn lemma_leading_digits(s: Seq<char>, i: int)
    requires
        0 <= i <= s.len(),
        all_decimal_numbers(s.take(i)),
        i == s.len() || !is_decimal_number(s[i]),
    ensures
        leading_digits(s) == i,
    decreases i,
{
    if i > 0 {
        let t = s.drop_first();
        assert(is_decimal_number(s.take(i)[0]));
        assert(t.take(i - 1) =~= s.take(i).drop_first());
        assert forall|j: int| 0 <= j < i - 1 implies #[trigger] is_decimal_number(t.take(i - 1)[j]) by {
            assert(t.take(i - 1)[j] == s.take(i)[j + 1]);
        }
        if i < s.len() {
            assert(t[i - 1] == s[i]);
        }
        lemma_leading_digits(t, i - 1);
    }
}

/// The number of leading decimal digits.
fn count_leading_digits(s: &[char]) -> (r: usize)
    ensures
        r == leading_digits(s@),
        r <= s@.len(),
{
    let mut i: usize = 0;
    while i < s.len() && is_decimal_number_char(s[i])
        invariant
            i <= s.len(),
            all_decimal_numbers(s@.take(i as int)),
        decreases s.len() - i,
    {
        i = i + 1;
        assert forall|j: int| 0 <= j < i implies #[trigger] is_decimal_number(s@.take(i as int)[j]) by {
            if j < i - 1 {
                assert(s@.take(i as int)[j] == s@.take(i - 1)[j]);
            }
        }
    }
    proof { lemma_leading_digits(s@, i as int); }
    i
}

fn all_decimal_digits(s: &[char]) -> (r: bool)
    ensures
        r == all_decimal_numbers(s@),
{
    let mut i: usize = 0;
    while i < s.len()
        invariant
            i <= s.len(),
            forall|j: int| 0 <= j < i ==> is_decimal_number(#[trigger] s@[j]),
        decreases s.len() - i,
    {
        if !is_decimal_number_char(s[i]) {
            assert(!is_decimal_number(s@[i as int]));
            return false;
        }
        i = i + 1;
    }
    true
}

/// Parse a RANGE argument: an integer (for a single entry), or an integer
/// followed by ':' or two integers separated by ':'. The first entry is
/// position 0.
pub fn str_to_entries_range(s: &str) -> (r: Result<EntriesRange, EntriesRangeError>)
    ensures
        match r {
            Ok(range) => entries_range_spec(s@) == Ok::<_, EntriesRangeError>((range.start, range.end)),
            Err(e) => entries_range_spec(s@) == Err::<(Option<u64>, Option<u64>), _>(e),
        },
{
    let cs = chars_of(s);
    let k = count_leading_digits(&cs);
    let g1 = slice_range(&cs, 0, k);
    let rest = slice_from(&cs, k);
    let (colon, g3): (bool, Vec<char>) = if rest.len() == 0 {
        (false, Vec::new())
    } else {
        let tail = slice_from(&rest, 1);
        assert(tail@ =~= rest@.drop_first());
        if rest[0] == ':' && all_decimal_digits(&tail) {
            (true, tail)
        } else {
            return Err(EntriesRangeError::InvalidRange);
        }
    };
    let start = if g1.len() > 0 {
        match parse_u64(&g1) {
            Some(n) => Some(n),
            None => return Err(EntriesRangeError::InvalidStart),
        }
    } else {
        None
    };
    let end = if start.is_some() && !colon {
        start
    } else if g3.len() > 0 {
        match parse_u64(&g3) {
            Some(n) => Some(n),
            None => return Err(EntriesRangeError::InvalidEnd),
        }
    } else {
        None
    };
    if let (Some(a), Some(b)) = (start, end) {
        if b < a {
            return Err(EntriesRangeError::EndBeforeStart);
        }
    }
    Ok(EntriesRange { start, end })
}

/// The entries that a range selects from a History of `size` entries, or the
/// largest entry when the range goes past it.
pub open spec fn resolve_spec(start: Option<u64>, end: Option<u64>, size: u64) -> Result<(u64, u64), u64> {
    let first = match start {
        Some(n) => n,
        None => 0,
    };
    let last = match end {
        Some(n) => n,
        None => (size - 1) as u64,
    };
    if last > size - 1 {
        Err((size - 1) as u64)
    } else {
        Ok((first, last))
    }
}

/// Resolve a range against the size of a History: the first entry (0 when
/// open) and the last (the final entry when open). `Err` holds the largest
/// entry when the range exceeds it ("range exceeds maximum register entry").
pub fn resolve_entries_range(range: &EntriesRange, size: u64) -> (r: Result<(u64, u64), u64>)
    requires
        size >= 1,
    ensures
        r == resolve_spec(range.start, range.end, size),
        r matches Ok((first, last)) ==> {
            &&& first == (match range.start {
                Some(a) => a,
                None => 0,
            })
            &&& last == (match range.end {
                Some(b) => b,
                None => (size - 1) as u64,
            })
            &&& last < size
        },
        r is Err <==> (range.end matches Some(b) && b >= size),
        r matches Err(m) ==> m == size - 1,
{
    let first = match range.start {
        Some(n) => n,
        None => 0,
    };
    let last = match range.end {
        Some(n) => n,
        None => size - 1,
    };
    if last > size - 1 {
        Err(size - 1)
    } else {
        Ok((first, last))
    }
}

/// A range that is accepted never ends before it starts, and a resolved
/// range lies within the History: its last entry is below the History's size.
pub proof fn accepted_ranges_are_ordered(s: Seq<char>, size: u64)
    requires
        size >= 1,
    ensures
        entries_range_spec(s) matches Ok((Some(a), Some(b))) ==> a <= b,
        entries_range_spec(s) matches Ok((start, end)) ==> (resolve_spec(start, end, size) matches Ok(
            (first, last),
        ) ==> last < size),
{
}

/// How a range resolves against a History of `size` entries: an open start
/// is the first entry (0) and an open end the last (`size - 1`), given ends
/// are kept, and only an end beyond the last entry is refused, with the
/// last entry's position.
pub proof fn open_ends_reach_the_history_ends(start: Option<u64>, end: Option<u64>, size: u64)
    requires
        size >= 1,
    ensures
        end is None ==> resolve_spec(start, end, size) is Ok,
        resolve_spec(start, end, size) matches Ok((first, last)) ==> {
            &&& (start is None ==> first == 0)
            &&& (start matches Some(a) ==> first == a)
            &&& (end is None ==> last == size - 1)
            &&& (end matches Some(b) ==> last == b)
        },
        resolve_spec(start, end, size) is Err <==> (end matches Some(b) && b >= size),
        resolve_spec(start, end, size) matches Err(m) ==> m == size - 1,
{
}

/// The marker printed before the entry that the History's Pointer points at.
pub open spec fn pointer_indicator_spec(pointer_counter: u64, index: u64) -> Seq<char> {
    if pointer_counter == index {
        seq!['P', '>']
    } else {
        seq![' ', ' ']
    }
}

/// `P>` for the entry the Pointer points at, two spaces otherwise.
pub fn pointer_indicator(pointer_counter: u64, index: u64) -> (r: String)
    ensures
        r@ == pointer_indicator_spec(pointer_counter, index),
{
    let mut v: Vec<char> = Vec::new();
    if pointer_counter == index {
        v.push('P');
        v.push('>');
    } else {
        v.push(' ');
        v.push(' ');
    }
    assert(v@ =~= pointer_indicator_spec(pointer_counter, index));
    crate::text::string_of(&v)
}

/// What the `heal-history` walk asks its driver to do next.
#[derive(Clone, Copy, Debug, PartialEq, Eq)]
pub enum HealAction {
    /// Update the Pointer by one to target the current entry, then report the result.
    HealPointer,
    /// Fetch the child of the current entry and report the Pointer's counter.
    NextEntry,
    /// All entries were visited.
    Finish,
    /// Healing failed: stop early.
    Stop,
}

/// The summary that `heal-history` prints at the end of a walk.
#[derive(Clone, Copy, Debug, PartialEq, Eq)]
pub enum HealReport {
    /// The Pointer was not behind: nothing was changed.
    NoChanges,
    /// The Pointer was `steps_behind` entries behind; `still_behind` heals failed.
    Healed { steps_behind: u64, still_behind: u64 },
}

/// The state of the `heal-history` walk over entries `index..=last`.
pub struct HealWalk {
    pub index: u64,
    pub last: u64,
    pub attempts: u64,
    pub successes: u64,
    pub first: u64,
}

impl HealWalk {
    /// The walk's invariant: heals are attempted at most once per visited
    /// entry, and succeed at most as often as they are attempted.
    pub open spec fn wf(&self) -> bool {
        &&& self.first <= self.index
        &&& self.index <= self.last + 1
        &&& self.last < u64::MAX
        &&& self.successes <= self.attempts
        &&& self.attempts <= self.successes + 1
        &&& self.attempts <= self.index - self.first + 1
    }

    /// A walk over entries `first..=last`, starting at `first`.
    pub fn new(first: u64, last: u64) -> (w: HealWalk)
        requires
            first <= last,
            last < u64::MAX,
        ensures
            w.wf(),
            w.index == first,
            w.first == first,
            w.last == last,
            w.attempts == 0,
            w.successes == 0,
    {
        HealWalk { index: first, last, attempts: 0, successes: 0, first }
    }

    fn advance(&mut self) -> (a: HealAction)
        requires
            old(self).wf(),
            old(self).index <= old(self).last,
            old(self).attempts <= old(self).index - old(self).first + 1,
        ensures
            final(self).wf(),
            final(self).index == old(self).index + 1,
            final(self).attempts == old(self).attempts,
            final(self).successes == old(self).successes,
            final(self).last == old(self).last,
            final(self).first == old(self).first,
            a == (if final(self).index <= final(self).last { HealAction::NextEntry } else { HealAction::Finish }),
    {
        self.index = self.index + 1;
        if self.index <= self.last {
            HealAction::NextEntry
        } else {
            HealAction::Finish
        }
    }

    /// The entry at `index` was fetched and printed, and the Pointer's
    /// counter is `pointer_counter`. A Pointer behind the entry is healed;
    /// otherwise the walk moves on.
    pub fn on_entry(&mut self, pointer_counter: u64) -> (a: HealAction)
        requires
            old(self).wf(),
            old(self).index <= old(self).last,
            old(self).attempts <= old(self).index - old(self).first,
            old(self).attempts == old(self).successes,
        ensures
            final(self).wf(),
            final(self).first == old(self).first,
            final(self).last == old(self).last,
            final(self).successes == old(self).successes,
            a != HealAction::HealPointer ==> final(self).attempts == final(self).successes,
            pointer_counter < old(self).index ==> a == HealAction::HealPointer && final(self).index
                == old(self).index && final(self).attempts == old(self).attempts + 1,
            pointer_counter >= old(self).index ==> final(self).index == old(self).index + 1
                && final(self).attempts == old(self).attempts && a == (if final(self).index
                <= final(self).last { HealAction::NextEntry } else { HealAction::Finish }),
    {
        if pointer_counter < self.index {
            self.attempts = self.attempts + 1;
            HealAction::HealPointer
        } else {
            self.advance()
        }
    }

    /// The result of healing the Pointer at the current entry: on success the
    /// walk moves on, on failure it stops.
    pub fn on_heal_result(&mut self, healed: bool) -> (a: HealAction)
        requires
            old(self).wf(),
            old(self).index <= old(self).last,
            old(self).successes < old(self).attempts,
        ensures
            final(self).wf(),
            final(self).first == old(self).first,
            final(self).last == old(self).last,
            final(self).attempts == old(self).attempts,
            healed ==> final(self).successes == old(self).successes + 1 && final(self).index
                == old(self).index + 1 && a == (if final(self).index <= final(self).last {
                HealAction::NextEntry
            } else {
                HealAction::Finish
            }),
            !healed ==> a == HealAction::Stop && *final(self) == *old(self),
            healed ==> final(self).attempts == final(self).successes,
    {
        if healed {
            self.successes = self.successes + 1;
            self.advance()
        } else {
            HealAction::Stop
        }
    }

    /// The summary of a finished walk.
    pub fn report(&self) -> (r: HealReport)
        requires
            self.wf(),
        ensures
            self.attempts == 0 ==> r == HealReport::NoChanges,
            self.attempts > 0 ==> r == (HealReport::Healed {
                steps_behind: self.attempts,
                still_behind: (self.attempts - self.successes) as u64,
            }),
    {
        if self.attempts == 0 {
            HealReport::NoChanges
        } else {
            HealReport::Healed { steps_behind: self.attempts, still_behind: self.attempts - self.successes }
        }
    }
}

} // verus!

//! Severities, thresholds and the tokens that name them.

use tracing::level_filters::LevelFilter;
use vstd::prelude::*;

verus! {

/// How severe an event is. The variants are declared from the most verbose
/// to the most severe, and the derived order follows the declaration:
/// `Trace < Debug < Info < Warn < Error`.
#[derive(Clone, Copy, Debug, PartialEq, Eq, Structural, PartialOrd, Ord, Hash)]
pub enum Severity {
    Trace,
    Debug,
    Info,
    Warn,
    Error,
}

impl Severity {
    /// Position in the order of severities, `Trace` being 0 and `Error` 4.
    pub open spec fn rank(self) -> int {
        match self {
            Severity::Trace => 0,
            Severity::Debug => 1,
            Severity::Info => 2,
            Severity::Warn => 3,
            Severity::Error => 4,
        }
    }

    /// The rank as a machine integer.
    pub fn rank_u8(self) -> (r: u8)
        ensures
            r == self.rank(),
    {
        match self {
            Severity::Trace => 0,
            Severity::Debug => 1,
            Severity::Info => 2,
            Severity::Warn => 3,
            Severity::Error => 4,
        }
    }
}

/// The least severity that a scope lets through, or `Off` for a scope that
/// lets nothing through.
#[derive(Clone, Copy, Debug, PartialEq, Eq, Structural, Hash)]
pub enum Threshold {
    Off,
    AtLeast(Severity),
}

impl Threshold {
    /// An event of severity `level` passes this threshold.
    pub open spec fn allows(self, level: Severity) -> bool {
        match self {
            Threshold::Off => false,
            Threshold::AtLeast(least) => least.rank() <= level.rank(),
        }
    }

    /// Decides whether an event of severity `level` passes this threshold.
    pub fn permits(self, level: Severity) -> (r: bool)
        ensures
            r == self.allows(level),
    {
        match self {
            Threshold::Off => false,
            Threshold::AtLeast(least) => least.rank_u8() <= level.rank_u8(),
        }
    }
}

/// The order of severities is total: of two severities one is at least as
/// severe as the other, and two of the same rank are the same.
pub proof fn law_severity_order_is_total(a: Severity, b: Severity)
    ensures
        a.rank() <= b.rank() || b.rank() <= a.rank(),
        a.rank() == b.rank() ==> a == b,
{
}

/// What passes a threshold is everything from some severity upwards: with
/// an event, every event at least as severe passes too; and nothing passes
/// `Off`.
pub proof fn law_threshold_is_upward_closed(t: Threshold, a: Severity, b: Severity)
    ensures
        t.allows(a) && a.rank() <= b.rank() ==> t.allows(b),
        !Threshold::Off.allows(a),
        Threshold::AtLeast(a).allows(b) <==> a.rank() <= b.rank(),
{
}

/// The code of a character with the upper-case letters of ASCII moved onto
/// the lower-case ones; any other character keeps its code.
pub open spec fn ascii_lower(c: char) -> int {
    if 'A' <= c <= 'Z' {
        c as int + 32
    } else {
        c as int
    }
}

/// Two texts are equal up to the case of their ASCII letters.
pub open spec fn eq_ignore_ascii_case(a: Seq<char>, b: Seq<char>) -> bool {
    &&& a.len() == b.len()
    &&& forall|i: int| 0 <= i < a.len() ==> ascii_lower(#[trigger] a[i]) == ascii_lower(b[i])
}

/// A non-empty run of the digits `0` to `9`.
pub open spec fn is_digits(s: Seq<char>) -> bool {
    &&& s.len() > 0
    &&& forall|i: int| 0 <= i < s.len() ==> '0' <= #[trigger] s[i] <= '9'
}

/// The number that a run of decimal digits writes.
pub open spec fn digits_value(s: Seq<char>) -> nat
    decreases s.len(),
{
    if s.len() == 0 {
        0
    } else {
        (digits_value(s.drop_last()) * 10 + (s.last() as int - '0' as int)) as nat
    }
}

/// The number that a token writes in decimal, with an optional `+` in front
/// of the digits, or `None` if the token is not such a number.
pub open spec fn unsigned_number(s: Seq<char>) -> Option<nat> {
    let digits = if s.len() > 0 && s[0] == '+' {
        s.drop_first()
    } else {
        s
    };
    if is_digits(digits) {
        Some(digits_value(digits))
    } else {
        None
    }
}

/// The threshold that a number names: 0 is off, 1 to 5 run from `Error` down
/// to `Trace`.
pub open spec fn level_by_number(n: nat) -> Option<Threshold> {
    if n == 0 {
        Some(Threshold::Off)
    } else if n == 1 {
        Some(Threshold::AtLeast(Severity::Error))
    } else if n == 2 {
        Some(Threshold::AtLeast(Severity::Warn))
    } else if n == 3 {
        Some(Threshold::AtLeast(Severity::Info))
    } else if n == 4 {
        Some(Threshold::AtLeast(Severity::Debug))
    } else if n == 5 {
        Some(Threshold::AtLeast(Severity::Trace))
    } else {
        None
    }
}

/// The threshold that a word names, whatever the case of its letters. The
/// empty word names `Error`.
pub open spec fn level_by_name(s: Seq<char>) -> Option<Threshold> {
    if s.len() == 0 {
        Some(Threshold::AtLeast(Severity::Error))
    } else if eq_ignore_ascii_case(s, seq!['e', 'r', 'r', 'o', 'r']) {
        Some(Threshold::AtLeast(Severity::Error))
    } else if eq_ignore_ascii_case(s, seq!['w', 'a', 'r', 'n']) {
        Some(Threshold::AtLeast(Severity::Warn))
    } else if eq_ignore_ascii_case(s, seq!['i', 'n', 'f', 'o']) {
        Some(Threshold::AtLeast(Severity::Info))
    } else if eq_ignore_ascii_case(s, seq!['d', 'e', 'b', 'u', 'g']) {
        Some(Threshold::AtLeast(Severity::Debug))
    } else if eq_ignore_ascii_case(s, seq!['t', 'r', 'a', 'c', 'e']) {
        Some(Threshold::AtLeast(Severity::Trace))
    } else if eq_ignore_ascii_case(s, seq!['o', 'f', 'f']) {
        Some(Threshold::Off)
    } else {
        None
    }
}

/// The threshold that a level token names: by number if the token is a
/// number from 0 to 5, by name otherwise.
pub open spec fn level_token(s: Seq<char>) -> Option<Threshold> {
    match unsigned_number(s) {
        Some(n) if n <= 5 => level_by_number(n),
        _ => level_by_name(s),
    }
}

/// Reads a level token with `LevelFilter::from_str`, the `FromStr` impl of
/// the `LevelFilter` that the `tracing` crate exports from `tracing-core`.
///
/// Trusted: the contract restates that function and is not proved. The
/// function first reads the token with `usize::from_str`, that is as
/// decimal digits with an optional `+` before them, and maps 0 to `OFF` and
/// 1 to 5 to `ERROR` down to `TRACE`. A token that is no such number, or a
/// number that is greater or does not fit, is compared with the level
/// names and with `off` without regard to ASCII case, the empty token
/// counting as `ERROR`. Anything else is an error, which comes back here as
/// `None`. The function compares bytes; the contract speaks of characters,
/// which comes to the same: digits, `+` and the letters of the names are
/// ASCII, one byte each, and a token with any other character is neither a
/// number nor a name either way. The body tells the six values of
/// `LevelFilter` apart and does nothing else.
#[verifier::external_body]
pub(crate) fn level_filter_from_str(token: &str) -> (r: Option<Threshold>)
    ensures
        r == level_token(token@),
{
    match token.parse::<LevelFilter>() {
        Err(_) => None,
        Ok(LevelFilter::OFF) => Some(Threshold::Off),
        Ok(LevelFilter::ERROR) => Some(Threshold::AtLeast(Severity::Error)),
        Ok(LevelFilter::WARN) => Some(Threshold::AtLeast(Severity::Warn)),
        Ok(LevelFilter::INFO) => Some(Threshold::AtLeast(Severity::Info)),
        Ok(LevelFilter::DEBUG) => Some(Threshold::AtLeast(Severity::Debug)),
        Ok(_) => Some(Threshold::AtLeast(Severity::Trace)),
    }
}

} // verus!

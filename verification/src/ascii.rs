//! Single bytes: the ones the scanner knows by name, and the three classes
//! of bytes that form runs.

use vstd::prelude::*;

verus! {

/// Stands for "no more input"; a zero byte inside the input reads the same.
pub const NUL: u8 = 0x00;

pub const TAB: u8 = 0x09;

pub const LINE_FEED: u8 = 0x0a;

pub const CARRIAGE_RETURN: u8 = 0x0d;

pub const SPACE: u8 = 0x20;

pub const BANG: u8 = 0x21;

pub const LEFT_PAREN: u8 = 0x28;

pub const RIGHT_PAREN: u8 = 0x29;

pub const ASTERISK: u8 = 0x2a;

pub const PLUS: u8 = 0x2b;

pub const COMMA: u8 = 0x2c;

pub const MINUS: u8 = 0x2d;

pub const SLASH: u8 = 0x2f;

pub const DIGIT_ZERO: u8 = 0x30;

pub const DIGIT_NINE: u8 = 0x39;

pub const SEMICOLON: u8 = 0x3b;

pub const LESS_THAN: u8 = 0x3c;

pub const EQUALS: u8 = 0x3d;

pub const GREATER_THAN: u8 = 0x3e;

pub const UPPER_A: u8 = 0x41;

pub const UPPER_Z: u8 = 0x5a;

pub const UNDERSCORE: u8 = 0x5f;

pub const LOWER_A: u8 = 0x61;

pub const LOWER_Z: u8 = 0x7a;

pub const LEFT_BRACE: u8 = 0x7b;

pub const RIGHT_BRACE: u8 = 0x7d;

/// A set of bytes of which the scanner consumes maximal runs.
#[derive(Clone, Copy, Debug)]
pub enum ByteClass {
    /// Space, tab, line feed and carriage return: skipped between tokens.
    Space,
    /// ASCII letters and the underscore: the alphabet of words.
    Letter,
    /// ASCII decimal digits.
    Digit,
}

impl ByteClass {
    /// Whether `b` belongs to the class.
    pub open spec fn spec_contains(self, b: u8) -> bool {
        match self {
            ByteClass::Space => b == SPACE || b == TAB || b == LINE_FEED || b == CARRIAGE_RETURN,
            ByteClass::Letter => (LOWER_A <= b && b <= LOWER_Z) || (UPPER_A <= b && b <= UPPER_Z)
                || b == UNDERSCORE,
            ByteClass::Digit => DIGIT_ZERO <= b && b <= DIGIT_NINE,
        }
    }

    #[verifier::when_used_as_spec(spec_contains)]
    pub fn contains(self, b: u8) -> (r: bool)
        ensures
            r == self.spec_contains(b),
    {
        match self {
            ByteClass::Space => b == SPACE || b == TAB || b == LINE_FEED || b == CARRIAGE_RETURN,
            ByteClass::Letter => (LOWER_A <= b && b <= LOWER_Z) || (UPPER_A <= b && b <= UPPER_Z)
                || b == UNDERSCORE,
            ByteClass::Digit => DIGIT_ZERO <= b && b <= DIGIT_NINE,
        }
    }
}

/// The byte at index `i` of `input`, and `NUL` where `input` has none.
pub open spec fn byte_at(input: Seq<u8>, i: int) -> u8 {
    if 0 <= i < input.len() {
        input[i]
    } else {
        NUL
    }
}

/// Where the longest run of bytes of `class` that starts at `from` ends:
/// the index of the first byte at or after `from` that is outside the class,
/// or the length of `input` if there is none.
pub open spec fn run_end(input: Seq<u8>, from: int, class: ByteClass) -> int
    decreases input.len() - from,
{
    if 0 <= from < input.len() && class.contains(input[from]) {
        run_end(input, from + 1, class)
    } else {
        from
    }
}

/// `run_end` is the end of a run, and the run is maximal.
pub proof fn lemma_run_end(input: Seq<u8>, from: int, class: ByteClass)
    requires
        0 <= from <= input.len(),
    ensures
        from <= run_end(input, from, class) <= input.len(),
        forall|i: int| from <= i < run_end(input, from, class) ==> class.contains(#[trigger] input[i]),
        !class.contains(byte_at(input, run_end(input, from, class))),
    decreases input.len() - from,
{
    if from < input.len() && class.contains(input[from]) {
        lemma_run_end(input, from + 1, class);
    }
}

/// Only one index ends a maximal run that starts at `from`.
pub proof fn lemma_run_end_unique(input: Seq<u8>, from: int, class: ByteClass, end: int)
    requires
        0 <= from <= end <= input.len(),
        forall|i: int| from <= i < end ==> class.contains(#[trigger] input[i]),
        end < input.len() ==> !class.contains(input[end]),
    ensures
        run_end(input, from, class) == end,
    decreases end - from,
{
    if from < end {
        lemma_run_end_unique(input, from + 1, class, end);
    }
}

} // verus!

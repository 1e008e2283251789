//! Bytes of a text: classes of byte, runs, numerals, and cutting a `str` at
//! a byte offset.

use vstd::prelude::*;
use vstd::string::*;
use vstd::utf8::*;

verus! {

/// The space, ` `.
pub const SPACE: u8 = 0x20;

/// The horizontal tab.
pub const TAB: u8 = 0x09;

/// The line feed, which ends a line.
pub const LINE_FEED: u8 = 0x0a;

/// The carriage return.
pub const CARRIAGE_RETURN: u8 = 0x0d;

/// The double quote, `"`.
pub const DOUBLE_QUOTE: u8 = 0x22;

/// The apostrophe, `'`: the single quote, and the mark of a decimal duration.
pub const APOSTROPHE: u8 = 0x27;

/// `(`, which opens a scope.
pub const OPEN: u8 = 0x28;

/// `)`, which closes a scope.
pub const CLOSE: u8 = 0x29;

/// `;`, which opens a comment.
pub const SEMICOLON: u8 = 0x3b;

/// The digit `0`.
pub const ZERO: u8 = 0x30;

/// The digit `1`.
pub const ONE: u8 = 0x31;

/// The digit `9`.
pub const NINE: u8 = 0x39;

/// The letter `a`, the hexadecimal digit for ten.
pub const LETTER_A: u8 = 0x61;

/// The letter `f`: the hexadecimal digit for fifteen, and the letter of the
/// loud markings.
pub const LETTER_F: u8 = 0x66;

/// The letter `m`, which makes a marking mezzo.
pub const LETTER_M: u8 = 0x6d;

/// The letter `p`, the letter of the soft markings.
pub const LETTER_P: u8 = 0x70;

/// A set of bytes that a run is made of.
#[derive(PartialEq, Eq, Structural, Debug, Clone, Copy)]
pub enum Class {
    /// Space, tab, carriage return and line feed.
    Space,
    /// `0` to `9`.
    Digit,
    /// `0` to `9` and `a` to `f`. Capitals are not digits.
    Hex,
    /// The one byte given.
    Is(u8),
    /// Every byte but the one given.
    Not(u8),
}

impl Class {
    /// Whether the byte belongs to the class.
    pub open spec fn has(self, b: u8) -> bool {
        match self {
            Class::Space => b == SPACE || b == TAB || b == CARRIAGE_RETURN || b == LINE_FEED,
            Class::Digit => ZERO <= b <= NINE,
            Class::Hex => ZERO <= b <= NINE || LETTER_A <= b <= LETTER_F,
            Class::Is(c) => b == c,
            Class::Not(c) => b != c,
        }
    }

    /// Whether the byte belongs to the class.
    pub fn holds(&self, b: u8) -> (r: bool)
        ensures
            r == self.has(b),
    {
        match self {
            Class::Space => b == SPACE || b == TAB || b == CARRIAGE_RETURN || b == LINE_FEED,
            Class::Digit => ZERO <= b && b <= NINE,
            Class::Hex => (ZERO <= b && b <= NINE) || (LETTER_A <= b && b <= LETTER_F),
            Class::Is(c) => b == *c,
            Class::Not(c) => b != *c,
        }
    }
}

/// The number of bytes at the start of `s` that belong to `class`: the
/// length of the longest such prefix.
pub open spec fn run_len(s: Seq<u8>, class: Class) -> nat
    decreases s.len(),
{
    if s.len() > 0 && class.has(s[0]) {
        1 + run_len(s.skip(1), class)
    } else {
        0
    }
}

/// `n` is the length of the run at the start of `s` exactly when the first
/// `n` bytes belong to the class and the next one, if any, does not.
pub proof fn lemma_run_len(s: Seq<u8>, class: Class, n: nat)
    requires
        n <= s.len(),
        forall|k: int| 0 <= k < n ==> class.has(#[trigger] s[k]),
        n < s.len() ==> !class.has(s[n as int]),
    ensures
        run_len(s, class) == n,
    decreases n,
{
    if n > 0 {
        let t = s.skip(1);
        assert forall|k: int| 0 <= k < n - 1 implies class.has(#[trigger] t[k]) by {
            assert(t[k] == s[k + 1]);
        }
        lemma_run_len(t, class, (n - 1) as nat);
    }
}

/// A run is a prefix: it is no longer than the text, it is made of bytes of
/// the class, and the byte after it is not one.
pub proof fn lemma_run_is_prefix(s: Seq<u8>, class: Class)
    ensures
        run_len(s, class) <= s.len(),
        forall|k: int| 0 <= k < run_len(s, class) ==> class.has(#[trigger] s[k]),
        run_len(s, class) < s.len() ==> !class.has(s[run_len(s, class) as int]),
    decreases s.len(),
{
    if s.len() > 0 && class.has(s[0]) {
        let t = s.skip(1);
        lemma_run_is_prefix(t, class);
        assert forall|k: int| 0 <= k < run_len(s, class) implies class.has(#[trigger] s[k]) by {
            if k > 0 {
                assert(s[k] == t[k - 1]);
            }
        }
        if run_len(s, class) < s.len() {
            assert(s[run_len(s, class) as int] == t[run_len(t, class) as int]);
        }
    }
}

/// The end of the run of `class` that starts at `from`.
pub(crate) fn run(b: &[u8], from: usize, class: Class) -> (end: usize)
    requires
        from <= b@.len(),
    ensures
        from <= end <= b@.len(),
        end - from == run_len(b@.skip(from as int), class),
{
    let mut end: usize = from;
    while end < b.len() && class.holds(b[end])
        invariant
            from <= end <= b@.len(),
            forall|k: int| from <= k < end ==> class.has(#[trigger] b@[k]),
        decreases b@.len() - end,
    {
        end = end + 1;
    }
    proof {
        let s = b@.skip(from as int);
        assert forall|k: int| 0 <= k < end - from implies class.has(#[trigger] s[k]) by {
            assert(s[k] == b@[from + k]);
        }
        lemma_run_len(s, class, (end - from) as nat);
    }
    end
}

/// The value of one digit: `0` to `9` are 0 to 9, `a` to `f` are 10 to 15.
pub open spec fn digit_value(b: u8) -> nat {
    if ZERO <= b <= NINE {
        (b - ZERO) as nat
    } else if LETTER_A <= b <= LETTER_F {
        (b - LETTER_A + 10) as nat
    } else {
        0
    }
}

/// The number that the digits denote in the given radix, most significant
/// digit first. No digits denote 0.
pub open spec fn number(digits: Seq<u8>, radix: nat) -> nat
    decreases digits.len(),
{
    if digits.len() == 0 {
        0
    } else {
        number(digits.drop_last(), radix) * radix + digit_value(digits.last())
    }
}

/// Reading more digits never makes the number smaller.
pub proof fn lemma_number_grows(digits: Seq<u8>, radix: nat, n: int)
    requires
        radix >= 1,
        0 <= n <= digits.len(),
    ensures
        number(digits.take(n), radix) <= number(digits, radix),
    decreases digits.len() - n,
{
    if n == digits.len() {
        assert(digits.take(n) =~= digits);
    } else {
        let front = digits.drop_last();
        lemma_number_grows(front, radix, n);
        assert(front.take(n) =~= digits.take(n));
        assert(number(front, radix) <= number(front, radix) * radix) by (nonlinear_arith)
            requires
                radix >= 1,
        ;
    }
}

/// The number that the digits from `from` to `to` denote, if it is at most
/// `max`.
pub(crate) fn read_number(
    b: &[u8],
    from: usize,
    to: usize,
    radix: u32,
    max: u32,
) -> (r: Option<u32>)
    requires
        from <= to <= b@.len(),
        radix == 10 || radix == 16,
        max <= 0xffff,
        forall|k: int| from <= k < to ==> Class::Hex.has(#[trigger] b@[k]),
    ensures
        r == if number(b@.subrange(from as int, to as int), radix as nat) <= max {
            Some(number(b@.subrange(from as int, to as int), radix as nat) as u32)
        } else {
            None
        },
{
    let ghost digits = b@.subrange(from as int, to as int);
    let mut acc: u32 = 0;
    let mut at: usize = from;
    while at < to
        invariant
            from <= at <= to <= b@.len(),
            radix == 10 || radix == 16,
            max <= 0xffff,
            digits == b@.subrange(from as int, to as int),
            forall|k: int| from <= k < to ==> Class::Hex.has(#[trigger] b@[k]),
            acc == number(digits.take(at - from), radix as nat),
            acc <= max,
        decreases to - at,
    {
        let byte = b[at];
        let digit: u32 = if byte <= NINE {
            (byte - ZERO) as u32
        } else {
            (byte - LETTER_A) as u32 + 10
        };
        proof {
            let next = digits.take(at - from + 1);
            assert(next.drop_last() =~= digits.take(at - from));
            assert(next.last() == b@[at as int]);
            assert(digit == digit_value(byte));
            assert(number(next, radix as nat) == acc * radix + digit);
            assert(acc * radix <= 0xffff * 16) by (nonlinear_arith)
                requires
                    acc <= 0xffff,
                    radix <= 16,
            ;
        }
        let next: u32 = acc * radix + digit;
        if next > max {
            proof {
                lemma_number_grows(digits, radix as nat, at - from + 1);
            }
            return None;
        }
        acc = next;
        at = at + 1;
    }
    proof {
        assert(digits.take(to - from) =~= digits);
    }
    Some(acc)
}

/// A place in a text where no character can be cut in two: its start, its
/// end, and either side of an ASCII byte.
pub open spec fn apart(bytes: Seq<u8>, at: int) -> bool {
    &&& 0 <= at <= bytes.len()
    &&& (at == 0 || at == bytes.len() || bytes[at - 1] < 0x80 || bytes[at] < 0x80)
}

/// In well-formed UTF-8, a character starts at each place that is `apart`.
pub proof fn lemma_apart_is_boundary(bytes: Seq<u8>, at: int)
    requires
        valid_utf8(bytes),
        apart(bytes, at),
    ensures
        is_char_boundary(bytes, at),
{
    if at == 0 || at == bytes.len() {
        is_char_boundary_start_end_of_seq(bytes);
    } else if bytes[at] < 0x80 {
        is_char_boundary_iff_not_is_continuation_byte(bytes, at);
    } else {
        let before = at - 1;
        is_char_boundary_iff_not_is_continuation_byte(bytes, before);
        valid_utf8_split(bytes, before);
        let suffix = bytes.subrange(before, bytes.len() as int);
        assert(suffix[0] == bytes[before]);
        assert(valid_first_scalar(suffix));
        assert(length_of_first_scalar(suffix) == 1);
        let after = pop_first_scalar(suffix);
        assert(after =~= bytes.subrange(at, bytes.len() as int));
        assert(valid_utf8(after));
        assert(after[0] == bytes[at]);
        assert(valid_first_scalar(after));
        is_char_boundary_iff_not_is_continuation_byte(bytes, at);
    }
}

/// The text from byte `from` to byte `to`.
pub(crate) fn between<'a>(text: &'a str, from: usize, to: usize) -> (part: &'a str)
    requires
        from <= to,
        apart(text.spec_bytes(), from as int),
        apart(text.spec_bytes(), to as int),
    ensures
        part.spec_bytes() == text.spec_bytes().subrange(from as int, to as int),
{
    proof {
        encode_utf8_valid_utf8(text@);
        lemma_apart_is_boundary(text.spec_bytes(), to as int);
    }
    let (head, _) = text.split_at(to);
    proof {
        encode_utf8_valid_utf8(head@);
        assert(apart(head.spec_bytes(), from as int)) by {
            if 0 < from < to {
                assert(head.spec_bytes()[from - 1] == text.spec_bytes()[from - 1]);
                assert(head.spec_bytes()[from as int] == text.spec_bytes()[from as int]);
            }
        }
        lemma_apart_is_boundary(head.spec_bytes(), from as int);
    }
    let (_, part) = head.split_at(from);
    assert(part.spec_bytes() =~= text.spec_bytes().subrange(from as int, to as int));
    part
}

/// The text from byte `from` on.
pub(crate) fn tail<'a>(text: &'a str, from: usize) -> (rest: &'a str)
    requires
        apart(text.spec_bytes(), from as int),
    ensures
        rest.spec_bytes() == text.spec_bytes().skip(from as int),
{
    proof {
        encode_utf8_valid_utf8(text@);
        lemma_apart_is_boundary(text.spec_bytes(), from as int);
    }
    let (_, rest) = text.split_at(from);
    rest
}

} // verus!

//! The notation, as mathematics: for each piece of the grammar, what a text
//! that starts with it yields and what text is left.
//!
//! A text is its sequence of bytes. Every function here takes the text that
//! is still unread and returns either a value with the rest of the text, or
//! a failure.

use vstd::prelude::*;
use vstd::utf8::decode_utf8;
use crate::error::{ErrorKind, Expected, Failure};
use crate::structure::{
    AccelConfig, Dynamics, Payload, Repartition, Tagging, Time, Tree, VibratoConfig,
    VolumeFadeConfig, W,
};
use crate::text::{
    number, run_len, Class, APOSTROPHE, CLOSE, DOUBLE_QUOTE, LETTER_F, LETTER_M, LETTER_P,
    LINE_FEED, ONE, OPEN, SEMICOLON, SPACE, ZERO,
};

verus! {

/// What reading a piece of the grammar gives: the unread rest of the text
/// and the value read, or the failure.
pub type Parsed<T> = Result<(Seq<u8>, T), Failure>;

/// The failure of the given kind at the start of `at`.
pub open spec fn failure(kind: ErrorKind, expected: Expected, at: Seq<u8>) -> Failure {
    Failure { kind, expected, remaining: at.len() }
}

/// Whether `s` starts with the byte `b`.
pub open spec fn starts_with(s: Seq<u8>, b: u8) -> bool {
    s.len() > 0 && s[0] == b
}

// ---------------------------------------------------------------------------
// Trivia
// ---------------------------------------------------------------------------

/// A run of one or more white-space bytes.
pub open spec fn spec_space(s: Seq<u8>) -> Parsed<()> {
    let n = run_len(s, Class::Space);
    if n == 0 {
        Err(failure(ErrorKind::MalformedArgument, Expected::Space, s))
    } else {
        Ok((s.skip(n as int), ()))
    }
}

/// A comment: a `;`, everything up to the next line feed, and the line feed.
/// A comment that has no line feed before the end of the text is
/// unterminated; the failure is at the end of the text.
pub open spec fn spec_comment(s: Seq<u8>) -> Parsed<()> {
    if !starts_with(s, SEMICOLON) {
        Err(failure(ErrorKind::MalformedArgument, Expected::Comment, s))
    } else {
        let n = run_len(s.skip(1), Class::Not(LINE_FEED));
        if 1 + n >= s.len() {
            Err(failure(ErrorKind::UnterminatedLiteral, Expected::LineEnd, Seq::empty()))
        } else {
            Ok((s.skip(n as int + 2), ()))
        }
    }
}

/// Trivia: any mix of white space and comments, as much as there is. Where
/// there is none the text comes back whole. The one failure is an
/// unterminated comment.
pub open spec fn spec_junk(s: Seq<u8>) -> Parsed<()>
    decreases s.len(),
{
    if s.len() > 0 && Class::Space.has(s[0]) {
        spec_junk(s.skip(1))
    } else if starts_with(s, SEMICOLON) {
        match spec_comment(s) {
            Ok((rest, _)) => spec_junk(rest),
            Err(e) => Err(e),
        }
    } else {
        Ok((s, ()))
    }
}

// ---------------------------------------------------------------------------
// Primitive decoders
// ---------------------------------------------------------------------------

/// A numeral: the longest run of digits of `class`, read in `radix`. It
/// fails where there is no digit and where the number is above `max`.
pub open spec fn spec_numeral(
    s: Seq<u8>,
    class: Class,
    radix: nat,
    max: nat,
    expected: Expected,
) -> Parsed<nat> {
    let n = run_len(s, class);
    let value = number(s.take(n as int), radix);
    if n == 0 || value > max {
        Err(failure(ErrorKind::MalformedArgument, expected, s))
    } else {
        Ok((s.skip(n as int), value))
    }
}

/// A decimal integer that fits in 8 bits.
pub open spec fn spec_decimal_u8(s: Seq<u8>) -> Parsed<u8> {
    match spec_numeral(s, Class::Digit, 10, 0xff, Expected::Integer) {
        Ok((rest, value)) => Ok((rest, value as u8)),
        Err(e) => Err(e),
    }
}

/// A decimal integer that fits in 16 bits.
pub open spec fn spec_decimal_u16(s: Seq<u8>) -> Parsed<u16> {
    match spec_numeral(s, Class::Digit, 10, 0xffff, Expected::Integer) {
        Ok((rest, value)) => Ok((rest, value as u16)),
        Err(e) => Err(e),
    }
}

/// A hexadecimal integer that fits in 8 bits, in the digits `0` to `9` and
/// `a` to `f`. The digit `0` counts as any other, so that `0` is read as 0
/// and `a0` as 160; capital letters are no digits.
pub open spec fn spec_hex(s: Seq<u8>) -> Parsed<u8> {
    match spec_numeral(s, Class::Hex, 16, 0xff, Expected::Hex) {
        Ok((rest, value)) => Ok((rest, value as u8)),
        Err(e) => Err(e),
    }
}

/// A duration token in one of two radices. After an apostrophe stands a
/// decimal count of milliseconds; without one, a hexadecimal percentage. The
/// flag of the result tells which: it is `true` for a percentage.
pub open spec fn spec_hex_or_dec(s: Seq<u8>) -> Parsed<(u8, bool)> {
    if starts_with(s, APOSTROPHE) {
        match spec_numeral(s.skip(1), Class::Digit, 10, 0xff, Expected::Duration) {
            Ok((rest, value)) => Ok((rest, (value as u8, false))),
            Err(_) => Err(failure(ErrorKind::MalformedArgument, Expected::Duration, s)),
        }
    } else {
        match spec_numeral(s, Class::Hex, 16, 0xff, Expected::Duration) {
            Ok((rest, value)) => Ok((rest, (value as u8, true))),
            Err(e) => Err(e),
        }
    }
}

/// The time that a duration token stands for.
pub open spec fn spec_rephelp(token: (u8, bool)) -> Time {
    if token.1 {
        Time::Dynamic(token.0)
    } else {
        Time::Static(token.0 as u64)
    }
}

/// A dynamics token: an optional `m`, then the longest run of `f`, or else
/// of `p`.
pub open spec fn spec_dynamics(s: Seq<u8>) -> Parsed<Dynamics> {
    let mezzo = starts_with(s, LETTER_M);
    let letters = if mezzo { s.skip(1) } else { s };
    let forte = starts_with(letters, LETTER_F);
    let count = run_len(letters, Class::Is(if forte { LETTER_F } else { LETTER_P }));
    match Dynamics::spec_marking(mezzo, forte, count) {
        Some(level) => Ok((letters.skip(count as int), level)),
        None => Err(failure(ErrorKind::MalformedArgument, Expected::Dynamics, s)),
    }
}

/// A flag: one `0` or `1`.
pub open spec fn spec_bool_digit(s: Seq<u8>) -> Parsed<bool> {
    if starts_with(s, ZERO) {
        Ok((s.skip(1), false))
    } else if starts_with(s, ONE) {
        Ok((s.skip(1), true))
    } else {
        Err(failure(ErrorKind::MalformedArgument, Expected::Flag, s))
    }
}

/// A string, of which the bytes are returned. In quotes, single or double,
/// it is what stands before the next quote of the same sort, taken as it is,
/// and at least one byte. Without quotes it is the run of bytes up to the
/// next space; nothing but a space ends it, not even the end of a line.
pub open spec fn spec_arg_string(s: Seq<u8>) -> Parsed<Seq<u8>> {
    if starts_with(s, APOSTROPHE) || starts_with(s, DOUBLE_QUOTE) {
        let inside = s.skip(1);
        let n = run_len(inside, Class::Not(s[0]));
        if n >= inside.len() {
            Err(failure(ErrorKind::UnterminatedLiteral, Expected::Quote, Seq::empty()))
        } else if n == 0 {
            Err(failure(ErrorKind::MalformedArgument, Expected::Text, s))
        } else {
            Ok((inside.skip(n as int + 1), inside.take(n as int)))
        }
    } else {
        let n = run_len(s, Class::Not(SPACE));
        if n == 0 {
            Err(failure(ErrorKind::MalformedArgument, Expected::Text, s))
        } else {
            Ok((s.skip(n as int), s.take(n as int)))
        }
    }
}

// ---------------------------------------------------------------------------
// The table of tags
// ---------------------------------------------------------------------------

/// The byte that introduces a node of the given kind.
pub open spec fn tag_byte(kind: W) -> u8 {
    kind.spec_tag() as u8
}

/// The table by tag: the kind of node that the byte introduces, for the
/// kinds whose arguments this grammar defines. The tags `N`, `I`, `~`, `M`
/// and `m` are set aside for kinds that have no grammar yet, and introduce
/// nothing.
pub open spec fn kind_of_tag(b: u8) -> Option<W> {
    if b == tag_byte(W::Song) {
        Some(W::Song)
    } else if b == tag_byte(W::Album) {
        Some(W::Album)
    } else if b == tag_byte(W::Artist) {
        Some(W::Artist)
    } else if b == tag_byte(W::Channel) {
        Some(W::Channel)
    } else if b == tag_byte(W::Year) {
        Some(W::Year)
    } else if b == tag_byte(W::Tempo) {
        Some(W::Tempo)
    } else if b == tag_byte(W::Length) {
        Some(W::Length)
    } else if b == tag_byte(W::Octave) {
        Some(W::Octave)
    } else if b == tag_byte(W::Loop) {
        Some(W::Loop)
    } else if b == tag_byte(W::Accel) {
        Some(W::Accel)
    } else if b == tag_byte(W::Glissando) {
        Some(W::Glissando)
    } else if b == tag_byte(W::Vibrato) {
        Some(W::Vibrato)
    } else if b == tag_byte(W::Volume) {
        Some(W::Volume)
    } else if b == tag_byte(W::VolumeFader) {
        Some(W::VolumeFader)
    } else {
        None
    }
}

/// Whether the table has an entry for the kind.
pub open spec fn in_table(kind: W) -> bool {
    kind_of_tag(tag_byte(kind)) == Some(kind)
}

/// Whether the text starts with a tag of the table.
pub open spec fn at_tag(s: Seq<u8>) -> bool {
    s.len() > 0 && kind_of_tag(s[0]) is Some
}

// ---------------------------------------------------------------------------
// Arguments
// ---------------------------------------------------------------------------

/// Trivia after a value: the value is kept and the trivia is dropped.
pub open spec fn terminated<T>(p: Parsed<T>) -> Parsed<T> {
    match p {
        Ok((rest, value)) => match spec_junk(rest) {
            Ok((rest, _)) => Ok((rest, value)),
            Err(e) => Err(e),
        },
        Err(e) => Err(e),
    }
}

/// A string, as the characters that it holds.
pub open spec fn spec_text(s: Seq<u8>) -> Parsed<Seq<char>> {
    match spec_arg_string(s) {
        Ok((rest, bytes)) => Ok((rest, decode_utf8(bytes))),
        Err(e) => Err(e),
    }
}

/// A tempo ramp: two decimal integers of 16 bits with trivia between them.
pub open spec fn spec_ramp(s: Seq<u8>) -> Parsed<AccelConfig> {
    match terminated(spec_decimal_u16(s)) {
        Ok((rest, from)) => match spec_decimal_u16(rest) {
            Ok((rest, to)) => Ok((rest, AccelConfig { from, to })),
            Err(e) => Err(e),
        },
        Err(e) => Err(e),
    }
}

/// The span of an effect: two duration tokens with trivia between them, for
/// the start and the end of a note.
pub open spec fn spec_sides(s: Seq<u8>) -> Parsed<Repartition> {
    match terminated(spec_hex_or_dec(s)) {
        Ok((rest, start)) => match spec_hex_or_dec(rest) {
            Ok((rest, end)) => Ok(
                (
                    rest,
                    Repartition::BothSides { start: spec_rephelp(start), end: spec_rephelp(end) },
                ),
            ),
            Err(e) => Err(e),
        },
        Err(e) => Err(e),
    }
}

/// The arguments of a vibrato: the amplitude and the frequency in
/// hexadecimal, then the span, with trivia between them.
pub open spec fn spec_swing(s: Seq<u8>) -> Parsed<(Repartition, VibratoConfig)> {
    match terminated(spec_hex(s)) {
        Ok((rest, amplitude)) => match terminated(spec_hex(rest)) {
            Ok((rest, frequency)) => match spec_sides(rest) {
                Ok((rest, span)) => Ok((rest, (span, VibratoConfig { amplitude, frequency }))),
                Err(e) => Err(e),
            },
            Err(e) => Err(e),
        },
        Err(e) => Err(e),
    }
}

/// The arguments of a volume fade: the two dynamics markings and the flag
/// that tells whether the fade happens inside each note, with trivia between
/// them.
pub open spec fn spec_fade(s: Seq<u8>) -> Parsed<VolumeFadeConfig> {
    match terminated(spec_dynamics(s)) {
        Ok((rest, from)) => match terminated(spec_dynamics(rest)) {
            Ok((rest, to)) => match spec_bool_digit(rest) {
                Ok((rest, inside)) => Ok((rest, VolumeFadeConfig { from, to, inside })),
                Err(e) => Err(e),
            },
            Err(e) => Err(e),
        },
        Err(e) => Err(e),
    }
}

/// The payload that is made of what was read.
pub open spec fn carried<T>(p: Parsed<T>, make: spec_fn(T) -> Payload) -> Parsed<Payload> {
    match p {
        Ok((rest, value)) => Ok((rest, make(value))),
        Err(e) => Err(e),
    }
}

/// The table by kind: the arguments that a node of the given kind takes, and
/// the payload that they make. A kind that the table does not have takes no
/// arguments at all.
pub open spec fn spec_arguments(kind: W, s: Seq<u8>) -> Parsed<Payload> {
    match kind {
        W::Song => carried(spec_text(s), |name: Seq<char>| Payload::Song(name)),
        W::Album => carried(spec_text(s), |name: Seq<char>| Payload::Album(name)),
        W::Artist => carried(spec_text(s), |name: Seq<char>| Payload::Artist(name)),
        W::Channel => carried(spec_text(s), |name: Seq<char>| Payload::Channel(name)),
        W::Year => carried(spec_decimal_u16(s), |year: u16| Payload::Year(year)),
        W::Tempo => carried(spec_decimal_u16(s), |bpm: u16| Payload::Tempo(bpm)),
        W::Length => carried(spec_decimal_u8(s), |n: u8| Payload::Length(n)),
        W::Octave => carried(spec_decimal_u8(s), |n: u8| Payload::Octave(n)),
        W::Loop => carried(spec_decimal_u8(s), |n: u8| Payload::Loop(n)),
        W::Accel => carried(spec_ramp(s), |ramp: AccelConfig| Payload::Accel(ramp)),
        W::Glissando => carried(spec_sides(s), |span: Repartition| Payload::Glissando(span)),
        W::Vibrato => carried(
            spec_swing(s),
            |swing: (Repartition, VibratoConfig)| Payload::Vibrato(swing.0, swing.1),
        ),
        W::Volume => carried(spec_dynamics(s), |level: Dynamics| Payload::Volume(level)),
        W::VolumeFader => carried(
            spec_fade(s),
            |fade: VolumeFadeConfig| Payload::VolumeFader(fade),
        ),
        W::NoteDef
        | W::Instrument
        | W::ADSR
        | W::Singleton
        | W::Mask
        | W::Masked
        | W::Test
        | W::Test2 => Err(failure(ErrorKind::UnknownTag, Expected::Tag, s)),
    }
}

// ---------------------------------------------------------------------------
// Nodes by their tags
// ---------------------------------------------------------------------------

/// The tag of a node and the trivia after it. A text that starts with
/// another byte has an unknown tag, and nothing of it is read.
pub open spec fn spec_tag_prefix(s: Seq<u8>, tag: u8) -> Parsed<()> {
    if starts_with(s, tag) {
        spec_junk(s.skip(1))
    } else {
        Err(failure(ErrorKind::UnknownTag, Expected::Tag, s))
    }
}

/// One node of the given kind, without children: the tag of the kind,
/// trivia, and the arguments of the kind.
pub open spec fn spec_entry(kind: W, s: Seq<u8>) -> Parsed<Tree> {
    match spec_tag_prefix(s, tag_byte(kind)) {
        Ok((rest, _)) => match spec_arguments(kind, rest) {
            Ok((rest, payload)) => Ok((rest, Tree::bare(payload))),
            Err(e) => Err(e),
        },
        Err(e) => Err(e),
    }
}

/// One node by its tag: the tag picks the entry of the table, and the entry
/// reads the arguments. The node has no children. A text that does not start
/// with a tag of the table has an unknown tag, and nothing of it is read.
pub open spec fn spec_wrapper(s: Seq<u8>) -> Parsed<Tree> {
    if at_tag(s) {
        spec_entry(kind_of_tag(s[0])->0, s)
    } else {
        Err(failure(ErrorKind::UnknownTag, Expected::Tag, s))
    }
}

// ---------------------------------------------------------------------------
// The tree
// ---------------------------------------------------------------------------

/// How deep scopes may nest in a text that is parsed as a whole. Reading
/// follows the nesting, call within call; the limit keeps the calls few,
/// whatever the text.
pub const DEPTH_LIMIT: usize = 64;

/// Trivia never makes the text longer.
pub proof fn lemma_junk_shortens(s: Seq<u8>)
    ensures
        spec_junk(s) matches Ok((rest, _)) ==> rest.len() <= s.len(),
    decreases s.len(),
{
    if s.len() > 0 && Class::Space.has(s[0]) {
        lemma_junk_shortens(s.skip(1));
    } else if starts_with(s, SEMICOLON) {
        match spec_comment(s) {
            Ok((rest, _)) => lemma_junk_shortens(rest),
            Err(_) => {},
        }
    }
}

/// The end of a scope, where the list of its children has ended: the `)`
/// that closes it. The end of the text there, and a `(`, which would open a
/// scope of no node, are structural mismatches; any other byte is an unknown
/// tag.
pub open spec fn spec_close(s: Seq<u8>) -> Parsed<()> {
    if starts_with(s, CLOSE) {
        Ok((s.skip(1), ()))
    } else if s.len() == 0 {
        Err(failure(ErrorKind::StructuralMismatch, Expected::Close, s))
    } else if starts_with(s, OPEN) {
        Err(failure(ErrorKind::StructuralMismatch, Expected::Tag, s))
    } else {
        Err(failure(ErrorKind::UnknownTag, Expected::Tag, s))
    }
}

/// One node with its children.
///
/// A node is a tag with its arguments. Its children, if it has any, follow
/// after optional trivia in a scope of their own: a `(`, the children, and a
/// `)`. Without a `(` the node has no children and ends with its arguments.
/// `depth` is the number of scopes that may still be opened inside one
/// another; a scope beyond that is a structural mismatch.
pub open spec fn spec_node(s: Seq<u8>, depth: nat) -> Parsed<Tree>
    decreases depth, s.len(), 0nat,
{
    match spec_wrapper(s) {
        Err(e) => Err(e),
        Ok((rest, head)) => match spec_junk(rest) {
            Err(e) => Err(e),
            Ok((scope, _)) => if !starts_with(scope, OPEN) {
                Ok((rest, head))
            } else if depth == 0 {
                Err(failure(ErrorKind::StructuralMismatch, Expected::Shallower, scope))
            } else {
                match spec_nodes(scope.skip(1), (depth - 1) as nat) {
                    Err(e) => Err(e),
                    Ok((after, children)) => match spec_close(after) {
                        Err(e) => Err(e),
                        Ok((rest, _)) => Ok((rest, Tree { payload: head.payload, children })),
                    },
                }
            },
        },
    }
}

/// A list of nodes: trivia and a node, again and again, for as long as a tag
/// of the table follows the trivia. The rest starts where, after trivia, no
/// tag follows. Any failure of a node is the failure of the list.
///
/// (The test on the length of the rest is never false, since a node reads at
/// least its tag: see [`crate::laws::lemma_node_advances`].)
pub open spec fn spec_nodes(s: Seq<u8>, depth: nat) -> Parsed<Seq<Tree>>
    decreases depth, s.len(), 1nat,
{
    match spec_junk(s) {
        Err(e) => Err(e),
        Ok((start, _)) => if !at_tag(start) {
            Ok((start, Seq::empty()))
        } else {
            proof {
                lemma_junk_shortens(s);
            }
            match spec_node(start, depth) {
                Err(e) => Err(e),
                Ok((rest, first)) => if rest.len() < s.len() {
                    match spec_nodes(rest, depth) {
                        Err(e) => Err(e),
                        Ok((rest, others)) => Ok((rest, seq![first] + others)),
                    }
                } else {
                    Ok((rest, seq![first]))
                },
            }
        },
    }
}

/// A whole text: a list of nodes, which may nest [`DEPTH_LIMIT`] deep. The
/// rest is what follows the last node and the trivia after it; it is empty
/// where the text is nodes and trivia from end to end. A `)` there closes a
/// scope that was never opened, and a `(` opens a scope of no node: both are
/// structural mismatches.
pub open spec fn spec_parse(s: Seq<u8>) -> Parsed<Seq<Tree>> {
    match spec_nodes(s, DEPTH_LIMIT as nat) {
        Err(e) => Err(e),
        Ok((rest, list)) => if starts_with(rest, CLOSE) || starts_with(rest, OPEN) {
            Err(failure(ErrorKind::StructuralMismatch, Expected::Tag, rest))
        } else {
            Ok((rest, list))
        },
    }
}

} // verus!

//! The parser: from a notation text to the tree it describes.
//!
//! Each function reads one piece of the grammar from the start of a text and
//! returns the rest of the text with the value read. What it returns is
//! stated by the function of the same name in [`crate::grammar`], applied to
//! the bytes of the text.

use vstd::prelude::*;
use vstd::string::*;
use vstd::utf8::encode_utf8_decode_utf8;
use crate::error::{ErrorKind, Expected, Failure, ParseError};
use crate::grammar::{
    at_tag, kind_of_tag, lemma_junk_shortens, spec_arg_string, spec_bool_digit, spec_close,
    spec_comment, spec_decimal_u16, spec_decimal_u8, spec_dynamics, spec_entry, spec_fade,
    spec_hex, spec_hex_or_dec, spec_junk, spec_node, spec_nodes, spec_numeral, spec_parse,
    spec_ramp, spec_rephelp, spec_sides, spec_space, spec_swing, spec_tag_prefix, spec_text,
    spec_wrapper, tag_byte, terminated, Parsed, DEPTH_LIMIT,
};
use crate::laws::lemma_node_advances;
use crate::structure::{
    lemma_view, trees, AccelConfig, Dynamics, Repartition, Tagging, Time, Tree, VibratoConfig,
    VolumeFadeConfig, Wrappers, W,
};
use crate::text::{
    between, lemma_run_is_prefix, read_number, run, run_len, tail, Class, APOSTROPHE, CLOSE,
    DOUBLE_QUOTE, LETTER_F, LETTER_M, LETTER_P, LINE_FEED, ONE, OPEN, SEMICOLON, SPACE, ZERO,
};

verus! {

/// The result `r` of reading a text is what the grammar gives: the same
/// value and the same rest, or the same failure.
pub open spec fn agrees<T>(r: Result<(&str, T), ParseError>, p: Parsed<T>) -> bool {
    match r {
        Ok((rest, value)) => p == Ok::<(Seq<u8>, T), Failure>((rest.spec_bytes(), value)),
        Err(e) => p == Err::<(Seq<u8>, T), Failure>(e@),
    }
}

/// As [`agrees`], for a result that is itself a piece of the text.
pub open spec fn agrees_text(r: Result<(&str, &str), ParseError>, p: Parsed<Seq<u8>>) -> bool {
    match r {
        Ok((rest, value)) => p == Ok::<(Seq<u8>, Seq<u8>), Failure>(
            (rest.spec_bytes(), value.spec_bytes()),
        ),
        Err(e) => p == Err::<(Seq<u8>, Seq<u8>), Failure>(e@),
    }
}

/// As [`agrees`], for a node, which is read to the tree that is its model.
pub open spec fn agrees_node(r: Result<(&str, Wrappers), ParseError>, p: Parsed<Tree>) -> bool {
    match r {
        Ok((rest, node)) => p == Ok::<(Seq<u8>, Tree), Failure>((rest.spec_bytes(), node@)),
        Err(e) => p == Err::<(Seq<u8>, Tree), Failure>(e@),
    }
}

/// As [`agrees`], for a list of nodes.
pub open spec fn agrees_nodes(
    r: Result<(&str, Vec<Wrappers>), ParseError>,
    p: Parsed<Seq<Tree>>,
) -> bool {
    match r {
        Ok((rest, list)) => p == Ok::<(Seq<u8>, Seq<Tree>), Failure>(
            (rest.spec_bytes(), trees(list@)),
        ),
        Err(e) => p == Err::<(Seq<u8>, Seq<Tree>), Failure>(e@),
    }
}

/// The failure of the given kind, `remaining` bytes before the end.
fn fail<T>(kind: ErrorKind, expected: Expected, remaining: usize) -> (r: Result<T, ParseError>)
    ensures
        r == Err::<T, ParseError>(ParseError { kind, expected, remaining }),
{
    Err(ParseError::new(kind, expected, remaining))
}

// ---------------------------------------------------------------------------
// Trivia
// ---------------------------------------------------------------------------

/// Reads white space: one byte of it or more.
pub fn space(i: &str) -> (r: Result<(&str, ()), ParseError>)
    ensures
        agrees(r, spec_space(i.spec_bytes())),
{
    let b = i.as_bytes();
    assert(b@.skip(0) =~= b@);
    let end = run(b, 0, Class::Space);
    proof {
        lemma_run_is_prefix(b@, Class::Space);
    }
    if end == 0 {
        fail(ErrorKind::MalformedArgument, Expected::Space, b.len())
    } else {
        Ok((tail(i, end), ()))
    }
}

/// Reads one comment, from its `;` to the end of its line.
pub fn comment(i: &str) -> (r: Result<(&str, ()), ParseError>)
    ensures
        agrees(r, spec_comment(i.spec_bytes())),
{
    let b = i.as_bytes();
    if b.len() == 0 || b[0] != SEMICOLON {
        return fail(ErrorKind::MalformedArgument, Expected::Comment, b.len());
    }
    let end = run(b, 1, Class::Not(LINE_FEED));
    proof {
        lemma_run_is_prefix(b@.skip(1), Class::Not(LINE_FEED));
    }
    if end >= b.len() {
        fail(ErrorKind::UnterminatedLiteral, Expected::LineEnd, 0)
    } else {
        assert(b@[end as int] == b@.skip(1)[end - 1]);
        Ok((tail(i, end + 1), ()))
    }
}

/// The place `at` is the start of the text or follows an ASCII byte.
spec fn apart_after(bytes: Seq<u8>, at: usize) -> bool {
    at == 0 || (at <= bytes.len() && bytes[at - 1] < 0x80)
}

/// Skips trivia: all the white space and comments that the text starts
/// with.
pub fn junk(i: &str) -> (r: Result<(&str, ()), ParseError>)
    ensures
        agrees(r, spec_junk(i.spec_bytes())),
{
    let b = i.as_bytes();
    let mut at: usize = 0;
    assert(b@.skip(0) =~= b@);
    loop
        invariant
            b@ == i.spec_bytes(),
            at <= b@.len(),
            apart_after(b@, at),
            spec_junk(b@) == spec_junk(b@.skip(at as int)),
        decreases b@.len() - at,
    {
        let ghost here = b@.skip(at as int);
        if at < b.len() && Class::Space.holds(b[at]) {
            assert(here.skip(1) =~= b@.skip(at + 1));
            at = at + 1;
        } else if at < b.len() && b[at] == SEMICOLON {
            let end = run(b, at + 1, Class::Not(LINE_FEED));
            proof {
                assert(here.skip(1) =~= b@.skip(at + 1));
                lemma_run_is_prefix(here.skip(1), Class::Not(LINE_FEED));
            }
            if end >= b.len() {
                return fail(ErrorKind::UnterminatedLiteral, Expected::LineEnd, 0);
            }
            proof {
                let n = run_len(here.skip(1), Class::Not(LINE_FEED));
                assert(b@[end as int] == here.skip(1)[n as int]);
                assert(here.skip(n as int + 2) =~= b@.skip(end + 1));
            }
            at = end + 1;
        } else {
            return Ok((tail(i, at), ()));
        }
    }
}

// ---------------------------------------------------------------------------
// Primitive decoders
// ---------------------------------------------------------------------------

/// Reads the longest run of digits of `class` and the number they denote
/// in `radix`, which must not be above `max`.
fn numeral<'a>(
    i: &'a str,
    class: Class,
    radix: u32,
    max: u32,
    expected: Expected,
) -> (r: Result<(&'a str, u32), ParseError>)
    requires
        class == Class::Digit && radix == 10 || class == Class::Hex && radix == 16,
        max <= 0xffff,
    ensures
        ({
            let read = spec_numeral(i.spec_bytes(), class, radix as nat, max as nat, expected);
            match r {
                Ok((rest, value)) => read == Ok::<(Seq<u8>, nat), Failure>(
                    (rest.spec_bytes(), value as nat),
                ),
                Err(e) => read == Err::<(Seq<u8>, nat), Failure>(e@),
            }
        }),
{
    let b = i.as_bytes();
    assert(b@.skip(0) =~= b@);
    let end = run(b, 0, class);
    proof {
        lemma_run_is_prefix(b@, class);
        assert(b@.take(end as int) =~= b@.subrange(0, end as int));
    }
    if end == 0 {
        return fail(ErrorKind::MalformedArgument, expected, b.len());
    }
    match read_number(b, 0, end, radix, max) {
        Some(value) => Ok((tail(i, end), value)),
        None => fail(ErrorKind::MalformedArgument, expected, b.len()),
    }
}

/// Reads a decimal integer of 8 bits.
pub fn decimal_u8(i: &str) -> (r: Result<(&str, u8), ParseError>)
    ensures
        agrees(r, spec_decimal_u8(i.spec_bytes())),
{
    match numeral(i, Class::Digit, 10, 0xff, Expected::Integer) {
        Ok((rest, value)) => Ok((rest, value as u8)),
        Err(e) => Err(e),
    }
}

/// Reads a decimal integer of 16 bits.
pub fn decimal_u16(i: &str) -> (r: Result<(&str, u16), ParseError>)
    ensures
        agrees(r, spec_decimal_u16(i.spec_bytes())),
{
    match numeral(i, Class::Digit, 10, 0xffff, Expected::Integer) {
        Ok((rest, value)) => Ok((rest, value as u16)),
        Err(e) => Err(e),
    }
}

/// Reads a hexadecimal integer of 8 bits.
pub fn hex(i: &str) -> (r: Result<(&str, u8), ParseError>)
    ensures
        agrees(r, spec_hex(i.spec_bytes())),
{
    match numeral(i, Class::Hex, 16, 0xff, Expected::Hex) {
        Ok((rest, value)) => Ok((rest, value as u8)),
        Err(e) => Err(e),
    }
}

/// Reads a duration token: `'` and decimal milliseconds, or a hexadecimal
/// percentage. The flag is `true` for a percentage.
pub fn hex_or_dec(i: &str) -> (r: Result<(&str, (u8, bool)), ParseError>)
    ensures
        agrees(r, spec_hex_or_dec(i.spec_bytes())),
{
    let b = i.as_bytes();
    if b.len() > 0 && b[0] == APOSTROPHE {
        match numeral(tail(i, 1), Class::Digit, 10, 0xff, Expected::Duration) {
            Ok((rest, value)) => Ok((rest, (value as u8, false))),
            Err(_) => fail(ErrorKind::MalformedArgument, Expected::Duration, b.len()),
        }
    } else {
        match numeral(i, Class::Hex, 16, 0xff, Expected::Duration) {
            Ok((rest, value)) => Ok((rest, (value as u8, true))),
            Err(e) => Err(e),
        }
    }
}

/// The time that a duration token stands for: a percentage where the flag
/// is set, milliseconds where it is not.
pub fn rephelp(i: (u8, bool)) -> (time: Time)
    ensures
        time == spec_rephelp(i),
{
    if i.1 {
        Time::Dynamic(i.0)
    } else {
        Time::Static(i.0 as u64)
    }
}

/// The times that two duration tokens stand for.
pub fn rephelp2(i: ((u8, bool), (u8, bool))) -> (times: (Time, Time))
    ensures
        times == (spec_rephelp(i.0), spec_rephelp(i.1)),
{
    (rephelp(i.0), rephelp(i.1))
}

/// Reads a dynamics marking: `p`, `pp`, `ppp`, `f`, `ff`, `fff`, `mp` or
/// `mf`. A longer run of letters, and an `m` before anything but a single
/// letter, is malformed.
pub fn dynamics(i: &str) -> (r: Result<(&str, Dynamics), ParseError>)
    ensures
        agrees(r, spec_dynamics(i.spec_bytes())),
{
    let b = i.as_bytes();
    let mezzo = b.len() > 0 && b[0] == LETTER_M;
    let start: usize = if mezzo { 1 } else { 0 };
    let forte = start < b.len() && b[start] == LETTER_F;
    let letter: u8 = if forte { LETTER_F } else { LETTER_P };
    let end = run(b, start, Class::Is(letter));
    let count = end - start;
    proof {
        assert(b@.skip(0) =~= b@);
        let letters = b@.skip(start as int);
        lemma_run_is_prefix(letters, Class::Is(letter));
        if count > 0 {
            assert(letters[count - 1] == b@[end - 1]);
        }
        assert(letters.skip(count as int) =~= b@.skip(end as int));
    }
    match Dynamics::marking(mezzo, forte, count) {
        Some(level) => Ok((tail(i, end), level)),
        None => fail(ErrorKind::MalformedArgument, Expected::Dynamics, b.len()),
    }
}

/// Reads a flag: `0` is `false`, `1` is `true`.
pub fn bool_digit(i: &str) -> (r: Result<(&str, bool), ParseError>)
    ensures
        agrees(r, spec_bool_digit(i.spec_bytes())),
{
    let b = i.as_bytes();
    if b.len() > 0 && b[0] == ZERO {
        Ok((tail(i, 1), false))
    } else if b.len() > 0 && b[0] == ONE {
        Ok((tail(i, 1), true))
    } else {
        fail(ErrorKind::MalformedArgument, Expected::Flag, b.len())
    }
}

/// Reads a string, quoted or bare, and returns what it holds.
pub fn arg_string(i: &str) -> (r: Result<(&str, &str), ParseError>)
    ensures
        agrees_text(r, spec_arg_string(i.spec_bytes())),
{
    let b = i.as_bytes();
    assert(b@.skip(0) =~= b@);
    if b.len() > 0 && (b[0] == APOSTROPHE || b[0] == DOUBLE_QUOTE) {
        let end = run(b, 1, Class::Not(b[0]));
        proof {
            let inside = b@.skip(1);
            lemma_run_is_prefix(inside, Class::Not(b@[0]));
            assert(inside.take(end - 1) =~= b@.subrange(1, end as int));
            if end < b@.len() {
                assert(b@[end as int] == inside[end - 1]);
                assert(inside.skip(end - 1 + 1) =~= b@.skip(end + 1));
            }
        }
        if end >= b.len() {
            fail(ErrorKind::UnterminatedLiteral, Expected::Quote, 0)
        } else if end == 1 {
            fail(ErrorKind::MalformedArgument, Expected::Text, b.len())
        } else {
            Ok((tail(i, end + 1), between(i, 1, end)))
        }
    } else {
        let end = run(b, 0, Class::Not(SPACE));
        proof {
            lemma_run_is_prefix(b@, Class::Not(SPACE));
            assert(b@.take(end as int) =~= b@.subrange(0, end as int));
        }
        if end == 0 {
            fail(ErrorKind::MalformedArgument, Expected::Text, b.len())
        } else {
            Ok((tail(i, end), between(i, 0, end)))
        }
    }
}

// ---------------------------------------------------------------------------
// Arguments
// ---------------------------------------------------------------------------

/// The byte that introduces a node of the given kind.
pub(crate) fn tag_of(kind: W) -> (tag: u8)
    requires
        kind.has_tag(),
    ensures
        tag == tag_byte(kind),
        tag < 0x80,
{
    kind.tag() as u8
}

/// Skips the trivia that follows a value.
fn then_junk<'a, T>(p: Result<(&'a str, T), ParseError>) -> (r: Result<(&'a str, T), ParseError>)
    ensures
        forall|q: Parsed<T>| #[trigger] agrees(p, q) ==> agrees(r, terminated(q)),
{
    match p {
        Ok((rest, value)) => match junk(rest) {
            Ok((rest, _)) => Ok((rest, value)),
            Err(e) => Err(e),
        },
        Err(e) => Err(e),
    }
}

/// Reads the tag that a node starts with and the trivia after it.
fn tag_prefix(i: &str, tag: u8) -> (r: Result<(&str, ()), ParseError>)
    requires
        tag < 0x80,
    ensures
        agrees(r, spec_tag_prefix(i.spec_bytes(), tag)),
{
    let b = i.as_bytes();
    if b.len() > 0 && b[0] == tag {
        junk(tail(i, 1))
    } else {
        fail(ErrorKind::UnknownTag, Expected::Tag, b.len())
    }
}

/// Reads a string and returns it as a string of its own.
fn text(i: &str) -> (r: Result<(&str, String), ParseError>)
    ensures
        match r {
            Ok((rest, name)) => spec_text(i.spec_bytes()) == Ok::<(Seq<u8>, Seq<char>), Failure>(
                (rest.spec_bytes(), name@),
            ),
            Err(e) => spec_text(i.spec_bytes()) == Err::<(Seq<u8>, Seq<char>), Failure>(e@),
        },
{
    match arg_string(i) {
        Ok((rest, name)) => {
            proof {
                encode_utf8_decode_utf8(name@);
            }
            Ok((rest, name.to_owned()))
        },
        Err(e) => Err(e),
    }
}

/// Reads the two tempos of a ramp.
fn ramp(i: &str) -> (r: Result<(&str, AccelConfig), ParseError>)
    ensures
        agrees(r, spec_ramp(i.spec_bytes())),
{
    let (i, from) = then_junk(decimal_u16(i))?;
    let (rest, to) = decimal_u16(i)?;
    Ok((rest, AccelConfig::new(from, to)))
}

/// Reads the span of an effect: the duration tokens of its two sides.
fn sides(i: &str) -> (r: Result<(&str, Repartition), ParseError>)
    ensures
        agrees(r, spec_sides(i.spec_bytes())),
{
    let (i, start) = then_junk(hex_or_dec(i))?;
    let (rest, end) = hex_or_dec(i)?;
    Ok((rest, Repartition::new(rephelp2((start, end)))))
}

/// Reads the arguments of a vibrato: amplitude, frequency and span.
fn swing(i: &str) -> (r: Result<(&str, (Repartition, VibratoConfig)), ParseError>)
    ensures
        agrees(r, spec_swing(i.spec_bytes())),
{
    let (i, amplitude) = then_junk(hex(i))?;
    let (i, frequency) = then_junk(hex(i))?;
    let (rest, span) = sides(i)?;
    Ok((rest, (span, VibratoConfig::new(amplitude, frequency))))
}

/// Reads the arguments of a volume fade: two markings and a flag.
fn fade(i: &str) -> (r: Result<(&str, VolumeFadeConfig), ParseError>)
    ensures
        agrees(r, spec_fade(i.spec_bytes())),
{
    let (i, from) = then_junk(dynamics(i))?;
    let (i, to) = then_junk(dynamics(i))?;
    let (rest, inside) = bool_digit(i)?;
    Ok((rest, VolumeFadeConfig::new(from, to, inside)))
}

// ---------------------------------------------------------------------------
// Nodes by their tags
// ---------------------------------------------------------------------------

/// The tree of a node whose list of children is empty is bare.
proof fn lemma_bare(node: Wrappers)
    requires
        node.children().len() == 0,
    ensures
        node@ == Tree::bare(node.payload()),
{
    lemma_view(node);
    assert(trees(node.children()) =~= Seq::<Tree>::empty());
}

/// Reads `S` and the title of a song.
pub fn song(i: &str) -> (r: Result<(&str, Wrappers), ParseError>)
    ensures
        agrees_node(r, spec_entry(W::Song, i.spec_bytes())),
{
    let (i, _) = tag_prefix(i, tag_of(W::Song))?;
    let (rest, name) = text(i)?;
    let node = Wrappers::Song(name, Vec::new());
    proof {
        lemma_bare(node);
    }
    Ok((rest, node))
}

/// Reads `A` and the title of an album.
pub fn album(i: &str) -> (r: Result<(&str, Wrappers), ParseError>)
    ensures
        agrees_node(r, spec_entry(W::Album, i.spec_bytes())),
{
    let (i, _) = tag_prefix(i, tag_of(W::Album))?;
    let (rest, name) = text(i)?;
    let node = Wrappers::Album(name, Vec::new());
    proof {
        lemma_bare(node);
    }
    Ok((rest, node))
}

/// Reads `a` and the name of an artist.
pub fn artist(i: &str) -> (r: Result<(&str, Wrappers), ParseError>)
    ensures
        agrees_node(r, spec_entry(W::Artist, i.spec_bytes())),
{
    let (i, _) = tag_prefix(i, tag_of(W::Artist))?;
    let (rest, name) = text(i)?;
    let node = Wrappers::Artist(name, Vec::new());
    proof {
        lemma_bare(node);
    }
    Ok((rest, node))
}

/// Reads `C` and the name of a channel.
pub fn channel(i: &str) -> (r: Result<(&str, Wrappers), ParseError>)
    ensures
        agrees_node(r, spec_entry(W::Channel, i.spec_bytes())),
{
    let (i, _) = tag_prefix(i, tag_of(W::Channel))?;
    let (rest, name) = text(i)?;
    let node = Wrappers::Channel(name, Vec::new());
    proof {
        lemma_bare(node);
    }
    Ok((rest, node))
}

/// Reads `Y` and a year.
pub fn year(i: &str) -> (r: Result<(&str, Wrappers), ParseError>)
    ensures
        agrees_node(r, spec_entry(W::Year, i.spec_bytes())),
{
    let (i, _) = tag_prefix(i, tag_of(W::Year))?;
    let (rest, n) = decimal_u16(i)?;
    let node = Wrappers::Year(n, Vec::new());
    proof {
        lemma_bare(node);
    }
    Ok((rest, node))
}

/// Reads `T` and a tempo in beats per minute.
pub fn tempo(i: &str) -> (r: Result<(&str, Wrappers), ParseError>)
    ensures
        agrees_node(r, spec_entry(W::Tempo, i.spec_bytes())),
{
    let (i, _) = tag_prefix(i, tag_of(W::Tempo))?;
    let (rest, n) = decimal_u16(i)?;
    let node = Wrappers::Tempo(n, Vec::new());
    proof {
        lemma_bare(node);
    }
    Ok((rest, node))
}

/// Reads `l` and a note length.
pub fn length(i: &str) -> (r: Result<(&str, Wrappers), ParseError>)
    ensures
        agrees_node(r, spec_entry(W::Length, i.spec_bytes())),
{
    let (i, _) = tag_prefix(i, tag_of(W::Length))?;
    let (rest, n) = decimal_u8(i)?;
    let node = Wrappers::Length(n, Vec::new());
    proof {
        lemma_bare(node);
    }
    Ok((rest, node))
}

/// Reads `o` and an octave.
pub fn octave(i: &str) -> (r: Result<(&str, Wrappers), ParseError>)
    ensures
        agrees_node(r, spec_entry(W::Octave, i.spec_bytes())),
{
    let (i, _) = tag_prefix(i, tag_of(W::Octave))?;
    let (rest, n) = decimal_u8(i)?;
    let node = Wrappers::Octave(n, Vec::new());
    proof {
        lemma_bare(node);
    }
    Ok((rest, node))
}

/// Reads `x` and a number of repeats.
pub fn loop_(i: &str) -> (r: Result<(&str, Wrappers), ParseError>)
    ensures
        agrees_node(r, spec_entry(W::Loop, i.spec_bytes())),
{
    let (i, _) = tag_prefix(i, tag_of(W::Loop))?;
    let (rest, n) = decimal_u8(i)?;
    let node = Wrappers::Loop(n, Vec::new());
    proof {
        lemma_bare(node);
    }
    Ok((rest, node))
}

/// Reads `t` and the two tempos of a ramp.
pub fn accel(i: &str) -> (r: Result<(&str, Wrappers), ParseError>)
    ensures
        agrees_node(r, spec_entry(W::Accel, i.spec_bytes())),
{
    let (i, _) = tag_prefix(i, tag_of(W::Accel))?;
    let (rest, config) = ramp(i)?;
    let node = Wrappers::Accel(config, Vec::new());
    proof {
        lemma_bare(node);
    }
    Ok((rest, node))
}

/// Reads `G` and the two sides of the span that the glissando covers.
pub fn glissando(i: &str) -> (r: Result<(&str, Wrappers), ParseError>)
    ensures
        agrees_node(r, spec_entry(W::Glissando, i.spec_bytes())),
{
    let (i, _) = tag_prefix(i, tag_of(W::Glissando))?;
    let (rest, span) = sides(i)?;
    let node = Wrappers::Glissando(span, Vec::new());
    proof {
        lemma_bare(node);
    }
    Ok((rest, node))
}

/// Reads `V`, an amplitude and a frequency in hexadecimal, and the two sides
/// of the span that the vibrato covers.
pub fn vibrato(i: &str) -> (r: Result<(&str, Wrappers), ParseError>)
    ensures
        agrees_node(r, spec_entry(W::Vibrato, i.spec_bytes())),
{
    let (i, _) = tag_prefix(i, tag_of(W::Vibrato))?;
    let (rest, (span, config)) = swing(i)?;
    let node = Wrappers::Vibrato(span, config, Vec::new());
    proof {
        lemma_bare(node);
    }
    Ok((rest, node))
}

/// Reads `v` and a dynamics marking.
pub fn volume(i: &str) -> (r: Result<(&str, Wrappers), ParseError>)
    ensures
        agrees_node(r, spec_entry(W::Volume, i.spec_bytes())),
{
    let (i, _) = tag_prefix(i, tag_of(W::Volume))?;
    let (rest, level) = dynamics(i)?;
    let node = Wrappers::Volume(level, Vec::new());
    proof {
        lemma_bare(node);
    }
    Ok((rest, node))
}

/// Reads `F`, the two dynamics markings of a fade, and the flag that tells
/// whether the fade happens inside each note.
pub fn volume_fader(i: &str) -> (r: Result<(&str, Wrappers), ParseError>)
    ensures
        agrees_node(r, spec_entry(W::VolumeFader, i.spec_bytes())),
{
    let (i, _) = tag_prefix(i, tag_of(W::VolumeFader))?;
    let (rest, config) = fade(i)?;
    let node = Wrappers::VolumeFader(config, Vec::new());
    proof {
        lemma_bare(node);
    }
    Ok((rest, node))
}

/// The kind of node that a byte introduces, if the table has it.
pub fn kind_for(b: u8) -> (kind: Option<W>)
    ensures
        kind == kind_of_tag(b),
{
    if b == tag_of(W::Song) {
        Some(W::Song)
    } else if b == tag_of(W::Album) {
        Some(W::Album)
    } else if b == tag_of(W::Artist) {
        Some(W::Artist)
    } else if b == tag_of(W::Channel) {
        Some(W::Channel)
    } else if b == tag_of(W::Year) {
        Some(W::Year)
    } else if b == tag_of(W::Tempo) {
        Some(W::Tempo)
    } else if b == tag_of(W::Length) {
        Some(W::Length)
    } else if b == tag_of(W::Octave) {
        Some(W::Octave)
    } else if b == tag_of(W::Loop) {
        Some(W::Loop)
    } else if b == tag_of(W::Accel) {
        Some(W::Accel)
    } else if b == tag_of(W::Glissando) {
        Some(W::Glissando)
    } else if b == tag_of(W::Vibrato) {
        Some(W::Vibrato)
    } else if b == tag_of(W::Volume) {
        Some(W::Volume)
    } else if b == tag_of(W::VolumeFader) {
        Some(W::VolumeFader)
    } else {
        None
    }
}

/// Whether the text starts with a tag of the table.
fn starts_node(i: &str) -> (r: bool)
    ensures
        r == at_tag(i.spec_bytes()),
{
    let b = i.as_bytes();
    b.len() > 0 && kind_for(b[0]).is_some()
}

/// Reads one node by its tag, with its arguments and without children.
pub fn wrapper(i: &str) -> (r: Result<(&str, Wrappers), ParseError>)
    ensures
        agrees_node(r, spec_wrapper(i.spec_bytes())),
{
    let b = i.as_bytes();
    if b.len() == 0 {
        return fail(ErrorKind::UnknownTag, Expected::Tag, 0);
    }
    match kind_for(b[0]) {
        None => fail(ErrorKind::UnknownTag, Expected::Tag, b.len()),
        Some(kind) => match kind {
            W::Song => song(i),
            W::Album => album(i),
            W::Artist => artist(i),
            W::Channel => channel(i),
            W::Year => year(i),
            W::Tempo => tempo(i),
            W::Length => length(i),
            W::Octave => octave(i),
            W::Loop => loop_(i),
            W::Accel => accel(i),
            W::Glissando => glissando(i),
            W::Vibrato => vibrato(i),
            W::Volume => volume(i),
            W::VolumeFader => volume_fader(i),
            W::NoteDef
            | W::Instrument
            | W::ADSR
            | W::Singleton
            | W::Mask
            | W::Masked
            | W::Test
            | W::Test2 => fail(ErrorKind::UnknownTag, Expected::Tag, b.len()),
        },
    }
}

// ---------------------------------------------------------------------------
// The tree
// ---------------------------------------------------------------------------

/// Reads the `)` that closes a scope.
pub fn close(i: &str) -> (r: Result<(&str, ()), ParseError>)
    ensures
        agrees(r, spec_close(i.spec_bytes())),
{
    let b = i.as_bytes();
    if b.len() == 0 {
        fail(ErrorKind::StructuralMismatch, Expected::Close, 0)
    } else if b[0] == CLOSE {
        Ok((tail(i, 1), ()))
    } else if b[0] == OPEN {
        fail(ErrorKind::StructuralMismatch, Expected::Tag, b.len())
    } else {
        fail(ErrorKind::UnknownTag, Expected::Tag, b.len())
    }
}

/// Reads one node with its children, which may nest `depth` deep.
pub fn node(i: &str, depth: usize) -> (r: Result<(&str, Wrappers), ParseError>)
    ensures
        agrees_node(r, spec_node(i.spec_bytes(), depth as nat)),
    decreases depth, i.spec_bytes().len(), 0nat,
{
    let (rest, head) = wrapper(i)?;
    let (scope, _) = junk(rest)?;
    let b = scope.as_bytes();
    if !(b.len() > 0 && b[0] == OPEN) {
        return Ok((rest, head));
    }
    if depth == 0 {
        return fail(ErrorKind::StructuralMismatch, Expected::Shallower, b.len());
    }
    let (end, children) = nodes(tail(scope, 1), depth - 1)?;
    let (rest, _) = close(end)?;
    Ok((rest, head.with_children(children)))
}

/// What a list comes to when `done` has been read and the rest of the list
/// is `p`.
spec fn continued(done: Seq<Tree>, p: Parsed<Seq<Tree>>) -> Parsed<Seq<Tree>> {
    match p {
        Ok((rest, others)) => Ok((rest, done + others)),
        Err(e) => Err(e),
    }
}

/// Reads a list of nodes, which may nest `depth` deep, and the trivia after
/// it.
pub fn nodes(i: &str, depth: usize) -> (r: Result<(&str, Vec<Wrappers>), ParseError>)
    ensures
        agrees_nodes(r, spec_nodes(i.spec_bytes(), depth as nat)),
    decreases depth, i.spec_bytes().len(), 1nat,
{
    let mut list: Vec<Wrappers> = Vec::new();
    let mut here = i;
    proof {
        assert(trees(list@) + Seq::<Tree>::empty() =~= Seq::<Tree>::empty());
        assert(forall|others: Seq<Tree>| #[trigger] (trees(list@) + others) =~= others);
    }
    loop
        invariant
            here.spec_bytes().len() <= i.spec_bytes().len(),
            spec_nodes(i.spec_bytes(), depth as nat) == continued(
                trees(list@),
                spec_nodes(here.spec_bytes(), depth as nat),
            ),
        decreases here.spec_bytes().len(),
    {
        let (start, _) = junk(here)?;
        if !starts_node(start) {
            proof {
                assert(trees(list@) + Seq::<Tree>::empty() =~= trees(list@));
            }
            return Ok((start, list));
        }
        proof {
            lemma_junk_shortens(here.spec_bytes());
        }
        let (rest, first) = node(start, depth)?;
        proof {
            lemma_node_advances(start.spec_bytes(), depth as nat);
        }
        let ghost before = trees(list@);
        list.push(first);
        proof {
            assert(trees(list@) =~= before.push(first@));
            assert forall|others: Seq<Tree>| #[trigger]
                (before + (seq![first@] + others)) == trees(list@) + others by {
                assert(before + (seq![first@] + others) =~= trees(list@) + others);
            }
        }
        here = rest;
    }
}

/// Parses a whole text into the list of its top-level nodes. With the list
/// comes what was left unread: the text from where, after a node and
/// trivia, something other than a node stands. It is empty where the text
/// was read to its end.
pub fn parse(i: &str) -> (r: Result<(&str, Vec<Wrappers>), ParseError>)
    ensures
        agrees_nodes(r, spec_parse(i.spec_bytes())),
{
    let (rest, list) = nodes(i, DEPTH_LIMIT)?;
    let b = rest.as_bytes();
    if b.len() > 0 && (b[0] == CLOSE || b[0] == OPEN) {
        fail(ErrorKind::StructuralMismatch, Expected::Tag, b.len())
    } else {
        Ok((rest, list))
    }
}

} // verus!

use chromalisp::error::{ErrorKind, Expected, ParseError};
use chromalisp::parsers::{
    arg_string, bool_digit, comment, decimal_u16, decimal_u8, dynamics, hex, hex_or_dec, junk,
    rephelp, rephelp2, space,
};
use chromalisp::structure::{Dynamics, Time};

fn malformed(expected: Expected, remaining: usize) -> ParseError {
    ParseError::new(ErrorKind::MalformedArgument, expected, remaining)
}

#[test]
fn space_takes_every_kind_of_white_space() {
    assert_eq!(Ok(("x ", ())), space(" \t\r\nx "));
}

#[test]
fn space_needs_one_byte_at_least() {
    assert_eq!(Err(malformed(Expected::Space, 1)), space("x"));
    assert_eq!(Err(malformed(Expected::Space, 0)), space(""));
}

#[test]
fn comment_runs_to_the_end_of_its_line() {
    assert_eq!(Ok(("", ())), comment("; to the end\n"));
    assert_eq!(Ok((" next", ())), comment(";\n next"));
    assert_eq!(Ok(("l 1", ())), comment("; caf\u{e9} \u{2615}\nl 1"));
}

#[test]
fn comment_without_line_end_is_unterminated() {
    let unterminated = ParseError::new(ErrorKind::UnterminatedLiteral, Expected::LineEnd, 0);
    assert_eq!(Err(unterminated), comment("; no end"));
    assert_eq!(Err(unterminated), comment(";"));
}

#[test]
fn comment_starts_with_a_semicolon() {
    assert_eq!(Err(malformed(Expected::Comment, 4)), comment("text"));
    assert_eq!(Err(malformed(Expected::Comment, 0)), comment(""));
}

#[test]
fn junk_gives_back_a_text_without_trivia() {
    assert_eq!(Ok(("l 1", ())), junk("l 1"));
    assert_eq!(Ok(("", ())), junk(""));
}

#[test]
fn junk_skips_a_mix_of_space_and_comments() {
    assert_eq!(Ok(("T 120", ())), junk("  ; one\n\t; two\n\n  T 120"));
    assert_eq!(Ok(("", ())), junk(" \n ; only trivia\n "));
}

#[test]
fn junk_reports_an_unterminated_comment() {
    let unterminated = ParseError::new(ErrorKind::UnterminatedLiteral, Expected::LineEnd, 0);
    assert_eq!(Err(unterminated), junk("  ; runs out"));
    assert_eq!(Err(unterminated), junk("; one\n; two"));
}

#[test]
fn junk_twice_is_junk_once() {
    for text in ["", "x", "  x", "; c\n x ; d\n", " \n;a\n;b\n  y  ", "\t\t"] {
        let (once, _) = junk(text).unwrap();
        assert_eq!(Ok((once, ())), junk(once));
    }
}

#[test]
fn decimal_reads_all_the_digits() {
    assert_eq!(Ok(("", 0)), decimal_u8("0"));
    assert_eq!(Ok((" rest", 42)), decimal_u8("42 rest"));
    assert_eq!(Ok(("a", 7)), decimal_u8("007a"));
    assert_eq!(Ok(("", 255)), decimal_u8("255"));
    assert_eq!(Ok(("", 65535)), decimal_u16("65535"));
    assert_eq!(Ok((")", 120)), decimal_u16("120)"));
}

#[test]
fn decimal_fails_on_overflow() {
    assert_eq!(Err(malformed(Expected::Integer, 3)), decimal_u8("256"));
    assert_eq!(Err(malformed(Expected::Integer, 5)), decimal_u8("999 x"));
    assert_eq!(Err(malformed(Expected::Integer, 5)), decimal_u16("65536"));
    assert_eq!(
        Err(malformed(Expected::Integer, 30)),
        decimal_u16("100000000000000000000000000000")
    );
}

#[test]
fn decimal_reads_long_runs_of_zeros() {
    assert_eq!(
        Ok(("", 12)),
        decimal_u8("0000000000000000000000000000000000000000012")
    );
}

#[test]
fn decimal_fails_without_digits() {
    assert_eq!(Err(malformed(Expected::Integer, 0)), decimal_u8(""));
    assert_eq!(Err(malformed(Expected::Integer, 2)), decimal_u8("x1"));
    assert_eq!(Err(malformed(Expected::Integer, 2)), decimal_u16("-1"));
}

#[test]
fn hex_reads_small_letters_only() {
    assert_eq!(Ok(("", 0)), hex("0"));
    assert_eq!(Ok(("", 255)), hex("ff"));
    assert_eq!(Ok(("", 0x1f)), hex("1f"));
    assert_eq!(Ok(("g", 0xab)), hex("abg"));
    assert_eq!(Ok(("F", 1)), hex("1F"));
    assert_eq!(Err(malformed(Expected::Hex, 2)), hex("FF"));
}

#[test]
fn hex_fails_on_overflow_and_on_nothing() {
    assert_eq!(Err(malformed(Expected::Hex, 3)), hex("100"));
    assert_eq!(Err(malformed(Expected::Hex, 0)), hex(""));
    assert_eq!(Err(malformed(Expected::Hex, 3)), hex("'12"));
}

#[test]
fn duration_with_apostrophe_is_decimal() {
    assert_eq!(Ok(("", (10, false))), hex_or_dec("'10"));
    assert_eq!(Ok(("a", (255, false))), hex_or_dec("'255a"));
    assert_eq!(Time::Static(10), rephelp((10, false)));
}

#[test]
fn duration_without_apostrophe_is_hexadecimal() {
    assert_eq!(Ok(("", (16, true))), hex_or_dec("10"));
    assert_eq!(Ok((" x", (0xfe, true))), hex_or_dec("fe x"));
    assert_eq!(Ok(("", (0, true))), hex_or_dec("0"));
    assert_eq!(Time::Dynamic(16), rephelp((16, true)));
}

#[test]
fn duration_fails_where_neither_form_stands() {
    assert_eq!(Err(malformed(Expected::Duration, 4)), hex_or_dec("'abc"));
    assert_eq!(Err(malformed(Expected::Duration, 1)), hex_or_dec("'"));
    assert_eq!(Err(malformed(Expected::Duration, 4)), hex_or_dec("'256"));
    assert_eq!(Err(malformed(Expected::Duration, 3)), hex_or_dec("fff"));
    assert_eq!(Err(malformed(Expected::Duration, 2)), hex_or_dec("xy"));
    assert_eq!(Err(malformed(Expected::Duration, 0)), hex_or_dec(""));
}

#[test]
fn rephelp2_turns_both_tokens() {
    assert_eq!(
        (Time::Static(255), Time::Dynamic(110)),
        rephelp2(((255, false), (110, true)))
    );
}

#[test]
fn dynamics_reads_each_marking() {
    assert_eq!(Ok(("", Dynamics::Pianississimo)), dynamics("ppp"));
    assert_eq!(Ok(("", Dynamics::Pianissimo)), dynamics("pp"));
    assert_eq!(Ok(("", Dynamics::Piano)), dynamics("p"));
    assert_eq!(Ok(("", Dynamics::MezzoPiano)), dynamics("mp"));
    assert_eq!(Ok(("", Dynamics::MezzoForte)), dynamics("mf"));
    assert_eq!(Ok(("", Dynamics::Forte)), dynamics("f"));
    assert_eq!(Ok(("", Dynamics::Fortissimo)), dynamics("ff"));
    assert_eq!(Ok(("", Dynamics::Fortississimo)), dynamics("fff"));
}

#[test]
fn dynamics_round_trips_through_its_token() {
    let all = [
        Dynamics::Pianississimo,
        Dynamics::Pianissimo,
        Dynamics::Piano,
        Dynamics::MezzoPiano,
        Dynamics::MezzoForte,
        Dynamics::Forte,
        Dynamics::Fortissimo,
        Dynamics::Fortississimo,
    ];
    for level in all {
        assert_eq!(Ok(("", level)), dynamics(level.token()));
        let followed = format!("{} 1", level.token());
        assert_eq!(Ok((" 1", level)), dynamics(&followed));
    }
}

#[test]
fn dynamics_leaves_the_other_letter() {
    assert_eq!(Ok(("p", Dynamics::Forte)), dynamics("fp"));
    assert_eq!(Ok(("f", Dynamics::Pianissimo)), dynamics("ppf"));
    assert_eq!(Ok(("m", Dynamics::Piano)), dynamics("pm"));
}

#[test]
fn mezzo_with_more_than_one_letter_is_malformed() {
    assert_eq!(Err(malformed(Expected::Dynamics, 3)), dynamics("mff"));
    assert_eq!(Err(malformed(Expected::Dynamics, 3)), dynamics("mpp"));
    assert_eq!(Err(malformed(Expected::Dynamics, 4)), dynamics("mfff"));
    assert_eq!(Err(malformed(Expected::Dynamics, 1)), dynamics("m"));
    assert_eq!(Err(malformed(Expected::Dynamics, 2)), dynamics("mm"));
}

#[test]
fn dynamics_takes_three_letters_at_most() {
    assert_eq!(Err(malformed(Expected::Dynamics, 4)), dynamics("ffff"));
    assert_eq!(Err(malformed(Expected::Dynamics, 6)), dynamics("pppp 1"));
    assert_eq!(Err(malformed(Expected::Dynamics, 0)), dynamics(""));
    assert_eq!(Err(malformed(Expected::Dynamics, 1)), dynamics("x"));
}

#[test]
fn bool_digit_takes_one_digit() {
    assert_eq!(Ok(("1", true)), bool_digit("11"));
    assert_eq!(Ok((" x", false)), bool_digit("0 x"));
    assert_eq!(Err(malformed(Expected::Flag, 1)), bool_digit("2"));
    assert_eq!(Err(malformed(Expected::Flag, 0)), bool_digit(""));
    assert_eq!(Err(malformed(Expected::Flag, 4)), bool_digit("true"));
}

#[test]
fn string_in_quotes_is_taken_as_it_is() {
    assert_eq!(Ok(("", "My Song")), arg_string("'My Song'"));
    assert_eq!(Ok((" x", "it's")), arg_string("\"it's\" x"));
    assert_eq!(Ok(("", "say \"hi\"")), arg_string("'say \"hi\"'"));
    assert_eq!(Ok(("b'", "a\\")), arg_string("'a\\'b'"));
    assert_eq!(Ok(("", " ")), arg_string("' '"));
}

#[test]
fn string_without_quotes_ends_at_a_space() {
    assert_eq!(Ok((" rest", "Song")), arg_string("Song rest"));
    assert_eq!(Ok(("", "Song")), arg_string("Song"));
    assert_eq!(Ok((" b", "a'")), arg_string("a' b"));
    assert_eq!(Ok((" x", "line\nbreak")), arg_string("line\nbreak x"));
}

#[test]
fn string_keeps_characters_beyond_ascii() {
    assert_eq!(Ok((" l 1", "Caf\u{e9}")), arg_string("Caf\u{e9} l 1"));
    assert_eq!(
        Ok(("\u{e9}", "\u{2615} na\u{ef}ve \u{1f3b5}")),
        arg_string("'\u{2615} na\u{ef}ve \u{1f3b5}'\u{e9}")
    );
}

#[test]
fn string_that_is_not_closed_is_unterminated() {
    let unterminated = ParseError::new(ErrorKind::UnterminatedLiteral, Expected::Quote, 0);
    assert_eq!(Err(unterminated), arg_string("'abc"));
    assert_eq!(Err(unterminated), arg_string("\"abc'"));
    assert_eq!(Err(unterminated), arg_string("'"));
}

#[test]
fn string_must_hold_something() {
    assert_eq!(Err(malformed(Expected::Text, 2)), arg_string("''"));
    assert_eq!(Err(malformed(Expected::Text, 4)), arg_string("\"\" x"));
    assert_eq!(Err(malformed(Expected::Text, 0)), arg_string(""));
    assert_eq!(Err(malformed(Expected::Text, 2)), arg_string(" x"));
}

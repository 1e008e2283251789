//! The token grammar written a second time, with nom's combinators, and held
//! against the library on sample texts. The two agree on every text here:
//! either both read the same value and leave the same rest, or both fail.

use chromalisp::parsers::{
    accel, arg_string, bool_digit, comment, dynamics, glissando, hex, hex_or_dec, junk, length,
    song, space, vibrato, volume, volume_fader,
};
use chromalisp::structure::{
    AccelConfig, Dynamics, Repartition, Time, VibratoConfig, VolumeFadeConfig, Wrappers,
};
use nom::branch::alt;
use nom::bytes::complete::{is_not, take_till1};
use nom::character::complete::{char, digit1, multispace1, newline, one_of};
use nom::combinator::{map_opt, opt, value};
use nom::multi::{many0, many1};
use nom::sequence::{delimited, pair, preceded, separated_pair, terminated, tuple};
use nom::IResult;

fn nom_space(i: &str) -> IResult<&str, ()> {
    value((), multispace1)(i)
}

fn nom_comment(i: &str) -> IResult<&str, ()> {
    value((), delimited(char(';'), is_not("\n\r"), newline))(i)
}

fn nom_junk(i: &str) -> IResult<&str, ()> {
    value((), many0(alt((nom_space, nom_comment))))(i)
}

fn nom_dynamics(i: &str) -> IResult<&str, Dynamics> {
    map_opt(
        tuple((
            opt(char('m')),
            alt((
                nom::combinator::map(many1(char('f')), |run| (true, run.len())),
                nom::combinator::map(many1(char('p')), |run| (false, run.len())),
            )),
        )),
        |(mezzo, (forte, count))| Dynamics::marking(mezzo.is_some(), forte, count),
    )(i)
}

fn nom_bool_digit(i: &str) -> IResult<&str, bool> {
    nom::combinator::map(one_of("01"), |digit| digit == '1')(i)
}

fn nom_hex(i: &str) -> IResult<&str, u8> {
    map_opt(many1(one_of("0123456789abcdef")), |digits: Vec<char>| {
        u8::from_str_radix(&digits.iter().collect::<String>(), 16).ok()
    })(i)
}

fn nom_hex_or_dec(i: &str) -> IResult<&str, (u8, bool)> {
    alt((
        map_opt(preceded(char('\''), digit1), |digits: &str| {
            digits.parse::<u8>().ok().map(|n| (n, false))
        }),
        nom::combinator::map(nom_hex, |n| (n, true)),
    ))(i)
}

fn nom_arg_string(i: &str) -> IResult<&str, &str> {
    alt((
        delimited(char('\''), take_till1(|c| c == '\''), char('\'')),
        delimited(char('"'), take_till1(|c| c == '"'), char('"')),
        take_till1(|c| c == ' '),
    ))(i)
}

fn nom_sides(i: &str) -> IResult<&str, Repartition> {
    nom::combinator::map(separated_pair(nom_hex_or_dec, nom_junk, nom_hex_or_dec), |(start, end)| {
        let time = |token: (u8, bool)| match token {
            (percent, true) => Time::Dynamic(percent),
            (millis, false) => Time::Static(millis as u64),
        };
        Repartition::BothSides { start: time(start), end: time(end) }
    })(i)
}

fn nom_song(i: &str) -> IResult<&str, Wrappers> {
    nom::combinator::map(preceded(pair(char('S'), nom_junk), nom_arg_string), |name| {
        Wrappers::Song(name.to_string(), vec![])
    })(i)
}

fn nom_length(i: &str) -> IResult<&str, Wrappers> {
    map_opt(preceded(pair(char('l'), nom_junk), digit1), |digits: &str| {
        digits.parse().ok().map(|n| Wrappers::Length(n, vec![]))
    })(i)
}

fn nom_accel(i: &str) -> IResult<&str, Wrappers> {
    map_opt(
        preceded(pair(char('t'), nom_junk), separated_pair(digit1, nom_junk, digit1)),
        |(from, to): (&str, &str)| {
            Some(Wrappers::Accel(AccelConfig::new(from.parse().ok()?, to.parse().ok()?), vec![]))
        },
    )(i)
}

fn nom_glissando(i: &str) -> IResult<&str, Wrappers> {
    nom::combinator::map(preceded(pair(char('G'), nom_junk), nom_sides), |span| {
        Wrappers::Glissando(span, vec![])
    })(i)
}

fn nom_vibrato(i: &str) -> IResult<&str, Wrappers> {
    nom::combinator::map(
        preceded(
            pair(char('V'), nom_junk),
            tuple((terminated(nom_hex, nom_junk), terminated(nom_hex, nom_junk), nom_sides)),
        ),
        |(amplitude, frequency, span)| {
            Wrappers::Vibrato(span, VibratoConfig::new(amplitude, frequency), vec![])
        },
    )(i)
}

fn nom_volume(i: &str) -> IResult<&str, Wrappers> {
    nom::combinator::map(preceded(pair(char('v'), nom_junk), nom_dynamics), |level| {
        Wrappers::Volume(level, vec![])
    })(i)
}

fn nom_volume_fader(i: &str) -> IResult<&str, Wrappers> {
    nom::combinator::map(
        preceded(
            pair(char('F'), nom_junk),
            separated_pair(
                separated_pair(nom_dynamics, nom_junk, nom_dynamics),
                nom_junk,
                nom_bool_digit,
            ),
        ),
        |((from, to), inside)| {
            Wrappers::VolumeFader(VolumeFadeConfig::new(from, to, inside), vec![])
        },
    )(i)
}

const TOKENS: [&str; 40] = [
    "",
    " ",
    "x",
    "  \t\r\n x",
    "0",
    "1",
    "01",
    "2",
    "7 rest",
    "12",
    "255",
    "256",
    "0255",
    "ff",
    "fff",
    "ffff",
    "fg",
    "1F",
    "a0 b",
    "'0",
    "'12",
    "'255 x",
    "'256",
    "'",
    "'x",
    "'1f",
    "f",
    "p",
    "pp",
    "ppp",
    "pppp",
    "mf",
    "mp",
    "mff",
    "mpp",
    "m",
    "fp",
    "pf 1",
    "mfp",
    "caf\u{e9} \u{266b}",
];

#[test]
fn space_agrees_with_the_combinators() {
    for text in TOKENS {
        assert_eq!(nom_space(text).ok(), space(text).ok(), "on {text:?}");
    }
}

#[test]
fn bool_digit_agrees_with_the_combinators() {
    for text in TOKENS {
        assert_eq!(nom_bool_digit(text).ok(), bool_digit(text).ok(), "on {text:?}");
    }
}

#[test]
fn hex_agrees_with_the_combinators() {
    for text in TOKENS {
        assert_eq!(nom_hex(text).ok(), hex(text).ok(), "on {text:?}");
    }
}

#[test]
fn hex_or_dec_agrees_with_the_combinators() {
    for text in TOKENS {
        assert_eq!(nom_hex_or_dec(text).ok(), hex_or_dec(text).ok(), "on {text:?}");
    }
}

#[test]
fn dynamics_agrees_with_the_combinators() {
    for text in TOKENS {
        assert_eq!(nom_dynamics(text).ok(), dynamics(text).ok(), "on {text:?}");
    }
}

#[test]
fn comment_agrees_with_the_combinators() {
    let texts = [
        "",
        "x",
        "; a comment\nrest",
        "; a comment\n",
        ";x\n;y\n",
        "; caf\u{e9}\n\u{266b}",
        "; ; ;\n\n",
        " ; not at the start\n",
    ];
    for text in texts {
        assert_eq!(nom_comment(text).ok(), comment(text).ok(), "on {text:?}");
    }
}

#[test]
fn junk_agrees_with_the_combinators() {
    let texts = [
        "",
        "x",
        "   x",
        "; one\nx",
        " \n ; one\n\t; two\n\n x ; three\n",
        "; one\n; two\n; three\n",
        "\r\n\r\n; dos\n\r\nx",
        "; caf\u{e9}\n \u{266b} ",
        "l 1",
    ];
    for text in texts {
        assert_eq!(nom_junk(text).ok(), junk(text).ok(), "on {text:?}");
    }
}

#[test]
fn arg_string_agrees_with_the_combinators() {
    let texts = [
        "",
        " x",
        "Song",
        "Song rest",
        "'My Song'",
        "'My Song' rest",
        "\"My Song\"rest",
        "'it is \"quoted\"' x",
        "\"it's\" x",
        "a'b c",
        "a\"b\" c",
        "caf\u{e9} \u{266b}",
        "'caf\u{e9} \u{266b}'\u{e9}",
        "tab\tand\nline end",
    ];
    for text in texts {
        assert_eq!(nom_arg_string(text).ok(), arg_string(text).ok(), "on {text:?}");
    }
}

#[test]
fn tags_agree_with_the_combinators() {
    let texts = [
        "",
        "S Song",
        "S 'My Song' l 1",
        "SSong",
        "S ; the title\n \"Song\"",
        "S",
        "S ",
        "l 1",
        "l1",
        "l 255 x",
        "l 256",
        "l x",
        "t 12 16",
        "t 12 ; to\n 16)",
        "t 1216",
        "t 12 70000",
        "t 12",
        "G '10 0",
        "G 0 '10",
        "G ff ff x",
        "G '10",
        "G '10 g",
        "V 1 1 '10 1",
        "V a f 32 '200 x",
        "V 1 1 '10",
        "V 100 1 0 0",
        "V 1 '1 0 0",
        "v fff",
        "v mp ",
        "v mff",
        "v ffff",
        "v",
        "F f p 0",
        "F mf ppp 1 x",
        "F f p",
        "F f p 2",
        "F fp 0",
        "F f 0",
        "x 1",
    ];
    for text in texts {
        assert_eq!(nom_song(text).ok(), song(text).ok(), "on {text:?}");
        assert_eq!(nom_length(text).ok(), length(text).ok(), "on {text:?}");
        assert_eq!(nom_accel(text).ok(), accel(text).ok(), "on {text:?}");
        assert_eq!(nom_glissando(text).ok(), glissando(text).ok(), "on {text:?}");
        assert_eq!(nom_vibrato(text).ok(), vibrato(text).ok(), "on {text:?}");
        assert_eq!(nom_volume(text).ok(), volume(text).ok(), "on {text:?}");
        assert_eq!(nom_volume_fader(text).ok(), volume_fader(text).ok(), "on {text:?}");
    }
}

use chromalisp::error::{ErrorKind, Expected, ParseError};
use chromalisp::grammar::DEPTH_LIMIT;
use chromalisp::parsers::{
    album, artist, channel, close, kind_for, loop_, node, nodes, octave, parse, song, tempo,
    vibrato, volume_fader, wrapper, year,
};
use chromalisp::structure::{
    AccelConfig, Dynamics, Repartition, Tagging, Time, VibratoConfig, VolumeFadeConfig, Wrappers,
    W,
};

fn error(kind: ErrorKind, expected: Expected, remaining: usize) -> ParseError {
    ParseError::new(kind, expected, remaining)
}

#[test]
fn scenario_length() {
    assert_eq!(Ok(("", vec![Wrappers::Length(1, vec![])])), parse("l 1"));
}

#[test]
fn scenario_song() {
    assert_eq!(
        Ok(("", Wrappers::Song("My Song".to_string(), vec![]))),
        song("S 'My Song'")
    );
    assert_eq!(
        Ok(("", vec![Wrappers::Song("My Song".to_string(), vec![])])),
        parse("S 'My Song'")
    );
}

#[test]
fn scenario_accel() {
    assert_eq!(
        Ok(("", Wrappers::Accel(AccelConfig { from: 12, to: 16 }, vec![]))),
        wrapper("t 12 16")
    );
}

#[test]
fn scenario_glissando() {
    assert_eq!(
        Ok((
            "",
            Wrappers::Glissando(
                Repartition::BothSides { start: Time::Static(10), end: Time::Dynamic(0) },
                vec![]
            )
        )),
        wrapper("G '10 0")
    );
}

#[test]
fn scenario_vibrato() {
    assert_eq!(
        Ok((
            "",
            Wrappers::Vibrato(
                Repartition::BothSides { start: Time::Static(10), end: Time::Dynamic(1) },
                VibratoConfig { amplitude: 1, frequency: 1 },
                vec![]
            )
        )),
        wrapper("V 1 1 '10 1")
    );
}

#[test]
fn scenario_volume_fader() {
    assert_eq!(
        Ok((
            "",
            Wrappers::VolumeFader(
                VolumeFadeConfig { from: Dynamics::Forte, to: Dynamics::Piano, inside: false },
                vec![]
            )
        )),
        wrapper("F f p 0")
    );
}

#[test]
fn scenario_volume() {
    assert_eq!(
        Ok(("", Wrappers::Volume(Dynamics::Fortississimo, vec![]))),
        wrapper("v fff")
    );
}

#[test]
fn scenario_mezzo_fortissimo_is_malformed() {
    assert_eq!(
        Err(error(ErrorKind::MalformedArgument, Expected::Dynamics, 3)),
        wrapper("v mff")
    );
}

#[test]
fn each_tag_of_the_table_reads_its_kind() {
    let cases = [
        ("S x", W::Song),
        ("A x", W::Album),
        ("a x", W::Artist),
        ("C x", W::Channel),
        ("Y 1999", W::Year),
        ("T 120", W::Tempo),
        ("l 4", W::Length),
        ("o 3", W::Octave),
        ("x 2", W::Loop),
        ("t 90 120", W::Accel),
        ("G 0 '5", W::Glissando),
        ("V a 5 0 0", W::Vibrato),
        ("v mp", W::Volume),
        ("F pp ff 1", W::VolumeFader),
    ];
    for (text, kind) in cases {
        let (rest, node) = wrapper(text).unwrap();
        assert_eq!("", rest);
        assert_eq!(kind, node.kind());
        assert_eq!(text.chars().next(), Some(node.tag()));
        assert_eq!(Some(kind), kind_for(text.as_bytes()[0]));
    }
}

#[test]
fn tags_need_no_space_after_them() {
    assert_eq!(Ok(("", Wrappers::Length(16, vec![]))), wrapper("l16"));
    assert_eq!(Ok(("", Wrappers::Song("Song".to_string(), vec![]))), song("SSong"));
    assert_eq!(
        Ok(("", Wrappers::Octave(4, vec![]))),
        octave("o ; the octave\n   4")
    );
}

#[test]
fn text_tags_carry_their_string() {
    assert_eq!(
        Ok((" x", Wrappers::Album("Blue".to_string(), vec![]))),
        album("A Blue x")
    );
    assert_eq!(
        Ok(("", Wrappers::Artist("Nina Simone".to_string(), vec![]))),
        artist("a \"Nina Simone\"")
    );
    assert_eq!(
        Ok(("", Wrappers::Channel("left".to_string(), vec![]))),
        channel("C 'left'")
    );
    assert_eq!(
        Ok(("", Wrappers::Song("Caf\u{e9} \u{266b}".to_string(), vec![]))),
        song("S 'Caf\u{e9} \u{266b}'")
    );
}

#[test]
fn number_tags_carry_their_number() {
    assert_eq!(Ok(("", Wrappers::Year(1999, vec![]))), year("Y 1999"));
    assert_eq!(Ok(("", Wrappers::Tempo(65535, vec![]))), tempo("T 65535"));
    assert_eq!(Ok((" l 1", Wrappers::Loop(255, vec![]))), loop_("x 255 l 1"));
}

#[test]
fn number_tags_fail_on_overflow() {
    assert_eq!(
        Err(error(ErrorKind::MalformedArgument, Expected::Integer, 5)),
        year("Y 70000")
    );
    assert_eq!(
        Err(error(ErrorKind::MalformedArgument, Expected::Integer, 3)),
        loop_("x 256")
    );
    assert_eq!(
        Err(error(ErrorKind::MalformedArgument, Expected::Integer, 4)),
        year("Y year")
    );
}

#[test]
fn vibrato_reads_hexadecimal_settings() {
    assert_eq!(
        Ok((
            "",
            Wrappers::Vibrato(
                Repartition::new((Time::Dynamic(0x32), Time::Static(200))),
                VibratoConfig::new(0xa, 0x1f),
                vec![],
            )
        )),
        vibrato("V a 1f 32 '200")
    );
    assert_eq!(
        Err(error(ErrorKind::MalformedArgument, Expected::Hex, 6)),
        vibrato("V 1 '5 0 0")
    );
}

#[test]
fn volume_fader_needs_its_flag() {
    assert_eq!(
        Err(error(ErrorKind::MalformedArgument, Expected::Flag, 0)),
        volume_fader("F f p")
    );
    assert_eq!(
        Err(error(ErrorKind::MalformedArgument, Expected::Flag, 1)),
        volume_fader("F f p 2")
    );
    assert_eq!(
        Err(error(ErrorKind::MalformedArgument, Expected::Dynamics, 1)),
        volume_fader("F f 0")
    );
}

#[test]
fn a_tag_that_is_not_the_one_asked_for_is_unknown() {
    assert_eq!(Err(error(ErrorKind::UnknownTag, Expected::Tag, 3)), song("l 1"));
    assert_eq!(Err(error(ErrorKind::UnknownTag, Expected::Tag, 0)), song(""));
    assert_eq!(Err(error(ErrorKind::UnknownTag, Expected::Tag, 4)), song(" S x"));
}

#[test]
fn a_byte_outside_the_table_is_an_unknown_tag() {
    assert_eq!(Err(error(ErrorKind::UnknownTag, Expected::Tag, 3)), wrapper("? 1"));
    assert_eq!(Err(error(ErrorKind::UnknownTag, Expected::Tag, 0)), wrapper(""));
    assert_eq!(Err(error(ErrorKind::UnknownTag, Expected::Tag, 3)), wrapper("s x"));
    assert_eq!(Err(error(ErrorKind::UnknownTag, Expected::Tag, 2)), node("\u{e9}", 3));
}

#[test]
fn tags_set_aside_introduce_nothing() {
    for text in ["N x", "I x", "~ x", "M x", "m x"] {
        assert_eq!(None, kind_for(text.as_bytes()[0]));
        assert_eq!(Err(error(ErrorKind::UnknownTag, Expected::Tag, 3)), wrapper(text));
    }
}

#[test]
fn a_node_without_scope_ends_with_its_arguments() {
    assert_eq!(Ok(("  ", Wrappers::Length(1, vec![]))), node("l 1  ", 4));
    assert_eq!(Ok((" o 2", Wrappers::Length(1, vec![]))), node("l 1 o 2", 4));
}

#[test]
fn a_scope_holds_the_children_in_order() {
    assert_eq!(
        Ok((
            "",
            Wrappers::Song(
                "Tune".to_string(),
                vec![
                    Wrappers::Tempo(120, vec![]),
                    Wrappers::Length(4, vec![Wrappers::Octave(3, vec![])]),
                    Wrappers::Volume(Dynamics::MezzoPiano, vec![]),
                ]
            )
        )),
        node("S Tune ( T 120 l 4 (o 3) v mp )", 8)
    );
}

#[test]
fn a_scope_may_be_empty() {
    assert_eq!(Ok(("", Wrappers::Loop(2, vec![]))), node("x 2 ()", 1));
    assert_eq!(Ok((" ", Wrappers::Loop(2, vec![]))), node("x 2 ( ; nothing\n ) ", 1));
}

#[test]
fn a_scope_follows_after_trivia() {
    assert_eq!(
        Ok(("", Wrappers::Loop(2, vec![Wrappers::Length(8, vec![])]))),
        node("x 2 ; twice\n  (l 8)", 1)
    );
    assert_eq!(
        Ok(("", Wrappers::Loop(2, vec![Wrappers::Length(8, vec![])]))),
        node("x 2(l 8)", 1)
    );
}

#[test]
fn a_scope_that_is_not_closed_is_a_mismatch() {
    assert_eq!(
        Err(error(ErrorKind::StructuralMismatch, Expected::Close, 0)),
        node("x 2 ( l 8", 4)
    );
    assert_eq!(
        Err(error(ErrorKind::StructuralMismatch, Expected::Close, 0)),
        parse("S a ( T 1 ( l 8 ) ")
    );
}

#[test]
fn a_byte_that_is_no_tag_inside_a_scope_is_an_unknown_tag() {
    assert_eq!(
        Err(error(ErrorKind::UnknownTag, Expected::Tag, 5)),
        parse("x 2 ( l 8 ? 1 )")
    );
    assert_eq!(
        Err(error(ErrorKind::UnknownTag, Expected::Tag, 9)),
        parse("x 2 ( N do re )")
    );
}

#[test]
fn a_scope_needs_a_node_before_it() {
    assert_eq!(
        Err(error(ErrorKind::StructuralMismatch, Expected::Tag, 9)),
        parse("x 1 ( ( l 1 ) )")
    );
    assert_eq!(
        Err(error(ErrorKind::StructuralMismatch, Expected::Tag, 5)),
        parse("  (l 1)")
    );
    assert_eq!(
        Err(error(ErrorKind::StructuralMismatch, Expected::Tag, 2)),
        parse("l 1 () ()")
    );
}

#[test]
fn close_reads_the_end_of_a_scope() {
    assert_eq!(Ok((" l 1", ())), close(") l 1"));
    assert_eq!(Ok(("", ())), close(")"));
    assert_eq!(Err(error(ErrorKind::StructuralMismatch, Expected::Close, 0)), close(""));
    assert_eq!(Err(error(ErrorKind::StructuralMismatch, Expected::Tag, 2)), close("()"));
    assert_eq!(Err(error(ErrorKind::UnknownTag, Expected::Tag, 2)), close(" )"));
    assert_eq!(Err(error(ErrorKind::UnknownTag, Expected::Tag, 3)), close("\u{e9})"));
}

#[test]
fn a_scope_that_was_not_opened_is_a_mismatch() {
    assert_eq!(
        Err(error(ErrorKind::StructuralMismatch, Expected::Tag, 1)),
        parse("l 1 )")
    );
    assert_eq!(
        Err(error(ErrorKind::StructuralMismatch, Expected::Tag, 5)),
        parse("x 2 ( l 8 ) ) l 1")
    );
}

#[test]
fn scopes_nest_as_deep_as_allowed() {
    assert_eq!(
        Ok((
            "",
            Wrappers::Loop(1, vec![Wrappers::Loop(2, vec![Wrappers::Loop(3, vec![])])])
        )),
        node("x 1 ( x 2 ( x 3 ) )", 2)
    );
    assert_eq!(
        Err(error(ErrorKind::StructuralMismatch, Expected::Shallower, 9)),
        node("x 1 ( x 2 ( x 3 ) )", 1)
    );
    assert_eq!(
        Err(error(ErrorKind::StructuralMismatch, Expected::Shallower, 3)),
        node("x 1 ( )", 0)
    );
}

fn nested(levels: usize) -> String {
    let mut text = String::new();
    for _ in 0..levels {
        text.push_str("x 1 (");
    }
    text.push_str("l 1");
    for _ in 0..levels {
        text.push(')');
    }
    text
}

fn depth_of(node: &Wrappers) -> usize {
    match node {
        Wrappers::Loop(_, kids) => 1 + kids.iter().map(depth_of).max().unwrap_or(0),
        _ => 0,
    }
}

#[test]
fn parse_accepts_the_depth_limit_and_no_more() {
    let deepest = nested(DEPTH_LIMIT);
    let (rest, list) = parse(&deepest).unwrap();
    assert_eq!("", rest);
    assert_eq!(1, list.len());
    assert_eq!(DEPTH_LIMIT, depth_of(&list[0]));

    let too_deep = nested(DEPTH_LIMIT + 1);
    assert_eq!(
        Err(error(
            ErrorKind::StructuralMismatch,
            Expected::Shallower,
            too_deep.len() - 5 * DEPTH_LIMIT - 4
        )),
        parse(&too_deep)
    );
}

#[test]
fn parse_does_not_fall_over_on_very_deep_nesting() {
    let text = nested(100_000);
    assert!(matches!(
        parse(&text),
        Err(ParseError { kind: ErrorKind::StructuralMismatch, .. })
    ));
}

#[test]
fn nodes_reads_siblings_and_the_trivia_after_them() {
    assert_eq!(
        Ok(("", vec![Wrappers::Length(1, vec![]), Wrappers::Octave(2, vec![])])),
        nodes(" l 1 ; first\n o 2 \n", 0)
    );
    assert_eq!(Ok(("", vec![])), nodes("", 0));
    assert_eq!(Ok(("? x", vec![])), nodes("  ? x", 0));
}

#[test]
fn nodes_fails_where_a_node_fails() {
    assert_eq!(
        Err(error(ErrorKind::MalformedArgument, Expected::Integer, 1)),
        nodes("l 1 o x", 0)
    );
    assert_eq!(
        Err(error(ErrorKind::UnterminatedLiteral, Expected::Quote, 0)),
        nodes("l 1 S 'open", 0)
    );
    assert_eq!(
        Err(error(ErrorKind::UnterminatedLiteral, Expected::LineEnd, 0)),
        nodes("l 1 ; open", 0)
    );
}

#[test]
fn parse_reads_a_whole_document() {
    let text = "; a tune\nS 'Ode' (\n  a 'Ludwig'\n  Y 1824\n  C lead ( T 120 ( l 4 v mf ) )\n)\n";
    assert_eq!(
        Ok((
            "",
            vec![Wrappers::Song(
                "Ode".to_string(),
                vec![
                    Wrappers::Artist("Ludwig".to_string(), vec![]),
                    Wrappers::Year(1824, vec![]),
                    Wrappers::Channel(
                        "lead".to_string(),
                        vec![Wrappers::Tempo(
                            120,
                            vec![
                                Wrappers::Length(4, vec![]),
                                Wrappers::Volume(Dynamics::MezzoForte, vec![]),
                            ]
                        )]
                    ),
                ]
            )]
        )),
        parse(text)
    );
}

#[test]
fn parse_returns_what_it_did_not_read() {
    assert_eq!(
        Ok(("N do re mi", vec![Wrappers::Length(1, vec![])])),
        parse("l 1\nN do re mi")
    );
    assert_eq!(Ok(("? l 1", vec![])), parse("  ? l 1"));
    assert_eq!(Ok(("", vec![])), parse(""));
}

#[test]
fn parse_gives_the_same_for_the_same_text() {
    for text in ["S a ( l 1 )", "l 256", "v mff", "x 1 (", "", "; c"] {
        let copy = text.to_string();
        assert_eq!(parse(text), parse(&copy));
    }
}

#[test]
fn parse_yields_no_tree_on_failure() {
    assert_eq!(
        Err(error(ErrorKind::MalformedArgument, Expected::Dynamics, 2)),
        parse("S a ( l 1 ) v x ")
    );
}

#[test]
fn failure_offsets_count_from_the_start() {
    let text = "S a ( l 1 ) v x ";
    let failure = parse(text).unwrap_err();
    assert_eq!(14, failure.offset_in(text));
    assert_eq!(0, failure.offset_in("x"));
}

#[test]
fn parse_reads_long_texts() {
    let many = "l 1 ; a note length\n".repeat(50_000);
    let (rest, list) = parse(&many).unwrap();
    assert_eq!("", rest);
    assert_eq!(50_000, list.len());
    assert!(list.iter().all(|node| *node == Wrappers::Length(1, vec![])));

    let blank = " ".repeat(1_000_000);
    assert_eq!(Ok(("", vec![])), parse(&blank));

    let digits = format!("T {}", "0".repeat(1_000_000));
    assert_eq!(Ok(("", vec![Wrappers::Tempo(0, vec![])])), parse(&digits));
}

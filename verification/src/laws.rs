//! What holds of the notation as a whole.
//!
//! * Reading goes from the start of a text, and a node reads at least its
//!   tag: [`lemma_parse_within`], [`lemma_nodes_within`],
//!   [`lemma_node_advances`], [`lemma_wrapper_advances`].
//! * The tag decides the kind, and well-formed arguments make the node:
//!   [`lemma_tag_picks_entry`], [`lemma_wrapper_matches_tag`],
//!   [`lemma_node_matches_tag`].
//! * The children of a node are the nodes of its scope, and a tree is well
//!   built down to its leaves: [`lemma_node_owns_its_scope`],
//!   [`lemma_node_is_well_built`], [`lemma_nodes_are_well_built`].
//! * Tags are unique, but for the placeholders: [`lemma_tags_are_unique`],
//!   [`lemma_table_holds_tags`].
//! * Parsing is a function of the text: [`lemma_parse_is_deterministic`].
//! * Skipping trivia twice is skipping it once:
//!   [`lemma_junk_is_idempotent`].
//! * A dynamics marking is read back from its token, and mezzo goes with a
//!   single letter: [`lemma_dynamics_round_trip`],
//!   [`lemma_dynamics_round_trip_before`], [`lemma_mezzo_is_written_with_m`],
//!   [`lemma_mezzo_takes_one_letter`].
//! * The radix of a duration decides what it measures:
//!   [`lemma_radix_decides_time`].

use vstd::prelude::*;
use vstd::string::*;
use crate::error::{ErrorKind, Expected, Failure, ParseError};
use crate::parsers::agrees_nodes;
use crate::grammar::{
    at_tag, failure, in_table, kind_of_tag, spec_arg_string, spec_arguments, spec_bool_digit,
    spec_close, spec_comment, spec_decimal_u16, spec_dynamics, spec_entry, spec_fade, spec_hex,
    spec_hex_or_dec, spec_junk, spec_node, spec_nodes, spec_numeral, spec_parse, spec_ramp,
    spec_rephelp, spec_sides, spec_swing, spec_tag_prefix, spec_text, spec_wrapper, starts_with,
    tag_byte, terminated, Parsed, DEPTH_LIMIT,
};
use crate::structure::{trees, Dynamics, Payload, Tagging, Time, Tree, Wrappers, W};
use crate::text::{
    lemma_run_is_prefix, lemma_run_len, number, run_len, Class, APOSTROPHE, CLOSE, DOUBLE_QUOTE,
    LETTER_F, LETTER_M, LETTER_P, OPEN, SEMICOLON, SPACE,
};

verus! {

/// `rest` is the end of `s`: `s` without some bytes at its start.
pub open spec fn is_suffix(rest: Seq<u8>, s: Seq<u8>) -> bool {
    rest.len() <= s.len() && rest == s.skip(s.len() - rest.len())
}

/// What was read from `s` was read from its start and within it: what is
/// left is the end of `s`, and a failure lies at a place of `s`.
pub open spec fn within<T>(p: Parsed<T>, s: Seq<u8>) -> bool {
    match p {
        Ok((rest, _)) => is_suffix(rest, s),
        Err(e) => e.remaining <= s.len(),
    }
}

/// As [`within`], and at least one byte was read.
pub open spec fn advances<T>(p: Parsed<T>, s: Seq<u8>) -> bool {
    match p {
        Ok((rest, _)) => is_suffix(rest, s) && rest.len() < s.len(),
        Err(e) => e.remaining <= s.len(),
    }
}

proof fn lemma_skip_is_suffix(s: Seq<u8>, n: int)
    requires
        0 <= n <= s.len(),
    ensures
        is_suffix(s.skip(n), s),
        s.skip(n).len() == s.len() - n,
        is_suffix(s, s),
{
    assert(s.skip(0) =~= s);
}

proof fn lemma_suffix_of_suffix(a: Seq<u8>, b: Seq<u8>, c: Seq<u8>)
    requires
        is_suffix(a, b),
        is_suffix(b, c),
    ensures
        is_suffix(a, c),
{
    assert(a =~= c.skip(c.len() - a.len()));
}

/// What is read after `first` from what `first` left is read within the
/// text that `first` was read from.
proof fn lemma_continue<T>(rest: Seq<u8>, s: Seq<u8>, p: Parsed<T>)
    requires
        is_suffix(rest, s),
        within(p, rest),
    ensures
        within(p, s),
        advances(p, rest) || rest.len() < s.len() ==> advances(p, s),
{
    match p {
        Ok((last, _)) => lemma_suffix_of_suffix(last, rest, s),
        Err(_) => {},
    }
}

/// Trivia is read from the start of the text and within it.
pub proof fn lemma_junk_within(s: Seq<u8>)
    ensures
        within(spec_junk(s), s),
    decreases s.len(),
{
    if s.len() > 0 && Class::Space.has(s[0]) {
        lemma_skip_is_suffix(s, 1);
        lemma_junk_within(s.skip(1));
        lemma_continue(s.skip(1), s, spec_junk(s.skip(1)));
    } else if starts_with(s, SEMICOLON) {
        match spec_comment(s) {
            Ok((rest, _)) => {
                lemma_skip_is_suffix(s, s.len() - rest.len());
                lemma_junk_within(rest);
                lemma_continue(rest, s, spec_junk(rest));
            },
            Err(_) => {},
        }
    } else {
        lemma_skip_is_suffix(s, 0);
    }
}

proof fn lemma_terminated<T>(p: Parsed<T>, s: Seq<u8>)
    requires
        within(p, s),
    ensures
        within(terminated(p), s),
        advances(p, s) ==> advances(terminated(p), s),
{
    match p {
        Ok((rest, _)) => {
            lemma_junk_within(rest);
            lemma_continue(rest, s, spec_junk(rest));
        },
        Err(_) => {},
    }
}

proof fn lemma_numeral_advances(s: Seq<u8>, class: Class, radix: nat, max: nat, expected: Expected)
    ensures
        advances(spec_numeral(s, class, radix, max, expected), s),
{
    lemma_run_is_prefix(s, class);
}

proof fn lemma_hex_or_dec_advances(s: Seq<u8>)
    ensures
        advances(spec_hex_or_dec(s), s),
{
    if starts_with(s, APOSTROPHE) {
        lemma_numeral_advances(s.skip(1), Class::Digit, 10, 0xff, Expected::Duration);
        lemma_continue(
            s.skip(1),
            s,
            spec_numeral(s.skip(1), Class::Digit, 10, 0xff, Expected::Duration),
        );
    } else {
        lemma_numeral_advances(s, Class::Hex, 16, 0xff, Expected::Duration);
    }
}

proof fn lemma_dynamics_advances(s: Seq<u8>)
    ensures
        advances(spec_dynamics(s), s),
{
    let mezzo = starts_with(s, LETTER_M);
    let letters = if mezzo { s.skip(1) } else { s };
    let forte = starts_with(letters, LETTER_F);
    let class = Class::Is(if forte { LETTER_F } else { LETTER_P });
    lemma_run_is_prefix(letters, class);
    if spec_dynamics(s) is Ok {
        let count = run_len(letters, class);
        lemma_skip_is_suffix(s, if mezzo { 1 } else { 0 });
        lemma_skip_is_suffix(letters, count as int);
        lemma_suffix_of_suffix(letters.skip(count as int), letters, s);
    }
}

proof fn lemma_arg_string_advances(s: Seq<u8>)
    ensures
        advances(spec_arg_string(s), s),
{
    if starts_with(s, APOSTROPHE) || starts_with(s, DOUBLE_QUOTE) {
        let inside = s.skip(1);
        lemma_run_is_prefix(inside, Class::Not(s[0]));
        let n = run_len(inside, Class::Not(s[0]));
        if n < inside.len() {
            lemma_skip_is_suffix(inside, n as int + 1);
            lemma_suffix_of_suffix(inside.skip(n as int + 1), inside, s);
        }
    } else {
        lemma_run_is_prefix(s, Class::Not(SPACE));
    }
}

proof fn lemma_tag_prefix_advances(s: Seq<u8>, tag: u8)
    ensures
        advances(spec_tag_prefix(s, tag), s),
{
    if starts_with(s, tag) {
        lemma_junk_within(s.skip(1));
        lemma_continue(s.skip(1), s, spec_junk(s.skip(1)));
    }
}

proof fn lemma_text_advances(s: Seq<u8>)
    ensures
        advances(spec_text(s), s),
{
    lemma_arg_string_advances(s);
}

proof fn lemma_ramp_advances(s: Seq<u8>)
    ensures
        advances(spec_ramp(s), s),
{
    lemma_numeral_advances(s, Class::Digit, 10, 0xffff, Expected::Integer);
    lemma_terminated(spec_decimal_u16(s), s);
    match terminated(spec_decimal_u16(s)) {
        Ok((rest, _)) => {
            lemma_numeral_advances(rest, Class::Digit, 10, 0xffff, Expected::Integer);
            lemma_continue(rest, s, spec_decimal_u16(rest));
        },
        Err(_) => {},
    }
}

proof fn lemma_sides_advances(s: Seq<u8>)
    ensures
        advances(spec_sides(s), s),
{
    lemma_hex_or_dec_advances(s);
    lemma_terminated(spec_hex_or_dec(s), s);
    match terminated(spec_hex_or_dec(s)) {
        Ok((rest, _)) => {
            lemma_hex_or_dec_advances(rest);
            lemma_continue(rest, s, spec_hex_or_dec(rest));
        },
        Err(_) => {},
    }
}

proof fn lemma_swing_advances(s: Seq<u8>)
    ensures
        advances(spec_swing(s), s),
{
    lemma_numeral_advances(s, Class::Hex, 16, 0xff, Expected::Hex);
    lemma_terminated(spec_hex(s), s);
    match terminated(spec_hex(s)) {
        Ok((second, _)) => {
            lemma_numeral_advances(second, Class::Hex, 16, 0xff, Expected::Hex);
            lemma_terminated(spec_hex(second), second);
            lemma_continue(second, s, terminated(spec_hex(second)));
            match terminated(spec_hex(second)) {
                Ok((third, _)) => {
                    lemma_sides_advances(third);
                    lemma_continue(third, s, spec_sides(third));
                },
                Err(_) => {},
            }
        },
        Err(_) => {},
    }
}

proof fn lemma_fade_advances(s: Seq<u8>)
    ensures
        advances(spec_fade(s), s),
{
    lemma_dynamics_advances(s);
    lemma_terminated(spec_dynamics(s), s);
    match terminated(spec_dynamics(s)) {
        Ok((second, _)) => {
            lemma_dynamics_advances(second);
            lemma_terminated(spec_dynamics(second), second);
            lemma_continue(second, s, terminated(spec_dynamics(second)));
            match terminated(spec_dynamics(second)) {
                Ok((third, _)) => {
                    lemma_skip_is_suffix(third, 0);
                    if spec_bool_digit(third) is Ok {
                        lemma_skip_is_suffix(third, 1);
                    }
                    lemma_continue(third, s, spec_bool_digit(third));
                },
                Err(_) => {},
            }
        },
        Err(_) => {},
    }
}

/// The arguments of a node are read from the start of the text, and they
/// are a byte at least.
pub proof fn lemma_arguments_advance(kind: W, s: Seq<u8>)
    ensures
        advances(spec_arguments(kind, s), s),
        spec_arguments(kind, s) matches Ok((_, payload)) ==> payload.kind() == kind && in_table(
            kind,
        ),
{
    match kind {
        W::Song | W::Album | W::Artist | W::Channel => lemma_text_advances(s),
        W::Year | W::Tempo => lemma_numeral_advances(
            s,
            Class::Digit,
            10,
            0xffff,
            Expected::Integer,
        ),
        W::Length | W::Octave | W::Loop => lemma_numeral_advances(
            s,
            Class::Digit,
            10,
            0xff,
            Expected::Integer,
        ),
        W::Accel => lemma_ramp_advances(s),
        W::Glissando => lemma_sides_advances(s),
        W::Vibrato => lemma_swing_advances(s),
        W::Volume => lemma_dynamics_advances(s),
        W::VolumeFader => lemma_fade_advances(s),
        W::NoteDef
        | W::Instrument
        | W::ADSR
        | W::Singleton
        | W::Mask
        | W::Masked
        | W::Test
        | W::Test2 => {},
    }
}

/// A node of a given kind, without its children, is read from the start of
/// the text, and at least its tag is read.
pub proof fn lemma_entry_advances(kind: W, s: Seq<u8>)
    ensures
        advances(spec_entry(kind, s), s),
{
    lemma_tag_prefix_advances(s, tag_byte(kind));
    match spec_tag_prefix(s, tag_byte(kind)) {
        Ok((rest, _)) => {
            lemma_arguments_advance(kind, rest);
            lemma_continue(rest, s, spec_arguments(kind, rest));
        },
        Err(_) => {},
    }
}

/// A node without its children is read from the start of the text, and at
/// least its tag is read.
pub proof fn lemma_wrapper_advances(s: Seq<u8>)
    ensures
        advances(spec_wrapper(s), s),
{
    if at_tag(s) {
        lemma_entry_advances(kind_of_tag(s[0])->0, s);
    }
}

/// A node with its children is read from the start of the text, and at
/// least its tag is read.
pub proof fn lemma_node_advances(s: Seq<u8>, depth: nat)
    ensures
        advances(spec_node(s, depth), s),
    decreases depth, s.len(), 0nat,
{
    lemma_wrapper_advances(s);
    match spec_wrapper(s) {
        Err(_) => {},
        Ok((rest, head)) => {
            lemma_junk_within(rest);
            lemma_continue(rest, s, spec_junk(rest));
            match spec_junk(rest) {
                Err(_) => {},
                Ok((scope, _)) => {
                    if starts_with(scope, OPEN) && depth > 0 {
                        let inner = scope.skip(1);
                        lemma_skip_is_suffix(scope, 1);
                        lemma_suffix_of_suffix(inner, scope, s);
                        lemma_nodes_within(inner, (depth - 1) as nat);
                        lemma_continue(inner, s, spec_nodes(inner, (depth - 1) as nat));
                        match spec_nodes(inner, (depth - 1) as nat) {
                            Err(_) => {},
                            Ok((after, _)) => {
                                if starts_with(after, CLOSE) {
                                    lemma_skip_is_suffix(after, 1);
                                }
                                lemma_continue(after, s, spec_close(after));
                            },
                        }
                    }
                },
            }
        },
    }
}

/// A list of nodes is read from the start of the text and within it.
pub proof fn lemma_nodes_within(s: Seq<u8>, depth: nat)
    ensures
        within(spec_nodes(s, depth), s),
    decreases depth, s.len(), 1nat,
{
    lemma_junk_within(s);
    match spec_junk(s) {
        Err(_) => {},
        Ok((start, _)) => {
            if at_tag(start) {
                lemma_node_advances(start, depth);
                lemma_continue(start, s, spec_node(start, depth));
                match spec_node(start, depth) {
                    Err(_) => {},
                    Ok((rest, _)) => {
                        if rest.len() < s.len() {
                            lemma_nodes_within(rest, depth);
                            lemma_continue(rest, s, spec_nodes(rest, depth));
                        }
                    },
                }
            }
        },
    }
}

/// Parsing reads a text from its start: what it leaves unread is the end of
/// the text, and a failure lies at a place of the text.
pub proof fn lemma_parse_within(s: Seq<u8>)
    ensures
        within(spec_parse(s), s),
{
    lemma_nodes_within(s, DEPTH_LIMIT as nat);
}

// ---------------------------------------------------------------------------
// Tags
// ---------------------------------------------------------------------------

/// Two kinds have the same tag only where one of them is a placeholder:
/// `Test` stands on the tag of `Year`, and `Test2` on that of `Album`.
pub proof fn lemma_tags_are_unique(a: W, b: W)
    requires
        a.has_tag(),
        b.has_tag(),
        a != b,
        a.spec_tag() == b.spec_tag(),
    ensures
        (a == W::Year && b == W::Test) || (a == W::Test && b == W::Year) || (a == W::Album && b
            == W::Test2) || (a == W::Test2 && b == W::Album),
{
}

/// The table of tags is the tags of the kinds: a byte introduces a kind
/// only if it is the tag of that kind, and no placeholder is introduced.
pub proof fn lemma_table_holds_tags(b: u8)
    ensures
        kind_of_tag(b) matches Some(kind) ==> kind.has_tag() && tag_byte(kind) == b && kind
            != W::Test && kind != W::Test2,
{
}

/// The tag picks the entry: a text that starts with the tag of a kind of
/// the table is read as a node of that kind. Where trivia and well-formed
/// arguments of the kind follow the tag, the node is read, it carries the
/// payload that the arguments make, it has no children, and what is left
/// is what the arguments left.
pub proof fn lemma_tag_picks_entry(kind: W, s: Seq<u8>)
    requires
        in_table(kind),
        starts_with(s, tag_byte(kind)),
    ensures
        spec_wrapper(s) == spec_entry(kind, s),
        spec_junk(s.skip(1)) matches Ok((arguments, _)) ==> match spec_arguments(kind, arguments) {
            Ok((rest, payload)) => payload.kind() == kind && spec_wrapper(s) == Ok::<
                (Seq<u8>, Tree),
                Failure,
            >((rest, Tree::bare(payload))),
            Err(e) => spec_wrapper(s) == Err::<(Seq<u8>, Tree), Failure>(e),
        },
{
    match spec_junk(s.skip(1)) {
        Ok((arguments, _)) => lemma_arguments_advance(kind, arguments),
        Err(_) => {},
    }
}

/// A node that was read is of the kind that its tag introduces; read
/// without its children, it has none. What was read is the start of the
/// text, tag included.
pub proof fn lemma_wrapper_matches_tag(s: Seq<u8>)
    ensures
        spec_wrapper(s) matches Ok((rest, tree)) ==> {
            &&& at_tag(s)
            &&& kind_of_tag(s[0]) == Some(tree.payload.kind())
            &&& tag_byte(tree.payload.kind()) == s[0]
            &&& tree.children.len() == 0
            &&& is_suffix(rest, s)
            &&& rest.len() < s.len()
        },
{
    lemma_wrapper_advances(s);
    if at_tag(s) {
        let kind = kind_of_tag(s[0])->0;
        match spec_tag_prefix(s, tag_byte(kind)) {
            Ok((rest, _)) => lemma_arguments_advance(kind, rest),
            Err(_) => {},
        }
    }
}

/// A node that was read with its children carries what its tag and
/// arguments say, and is of the kind that its tag introduces. What was read
/// is the start of the text, tag included.
pub proof fn lemma_node_matches_tag(s: Seq<u8>, depth: nat)
    ensures
        spec_node(s, depth) matches Ok((rest, tree)) ==> {
            &&& spec_wrapper(s) matches Ok((_, head)) && tree.payload == head.payload
            &&& kind_of_tag(s[0]) == Some(tree.payload.kind())
            &&& tag_byte(tree.payload.kind()) == s[0]
            &&& is_suffix(rest, s)
            &&& rest.len() < s.len()
        },
{
    lemma_wrapper_matches_tag(s);
    lemma_node_advances(s, depth);
}

/// The children of a node that was read are those of its scope. Where no
/// scope follows the arguments, the node has no children and ends with its
/// arguments. Where one follows, the children are the list of nodes that
/// the scope holds, each read in the same way one scope deeper, and the
/// node ends with the `)` of the scope.
pub proof fn lemma_node_owns_its_scope(s: Seq<u8>, depth: nat)
    ensures
        spec_node(s, depth) matches Ok((rest, tree)) ==> {
            &&& spec_wrapper(s) matches Ok((arguments_end, head))
            &&& spec_junk(arguments_end) matches Ok((scope, _))
            &&& tree.payload == head.payload
            &&& if starts_with(scope, OPEN) {
                &&& depth > 0
                &&& spec_nodes(scope.skip(1), (depth - 1) as nat) matches Ok((end, children))
                &&& tree.children == children
                &&& spec_close(end) == Ok::<(Seq<u8>, ()), Failure>((rest, ()))
            } else {
                &&& tree.children.len() == 0
                &&& rest == arguments_end
            }
        },
{
    lemma_wrapper_matches_tag(s);
}

/// The tree is as the grammar builds it, from its root to its last leaf:
/// every node is of a kind that the table of tags introduces, and scopes
/// nest at most `depth` deep.
pub open spec fn well_built(tree: Tree, depth: nat) -> bool
    decreases tree,
{
    &&& in_table(tree.payload.kind())
    &&& tree.children.len() > 0 ==> depth > 0
    &&& forall|k: int|
        0 <= k < tree.children.len() ==> well_built(
            #[trigger] tree.children[k],
            (depth - 1) as nat,
        )
}

/// Every tree of the list is [`well_built`].
pub open spec fn all_well_built(list: Seq<Tree>, depth: nat) -> bool {
    forall|k: int| 0 <= k < list.len() ==> well_built(#[trigger] list[k], depth)
}

/// A node that was read is well built, children and all.
pub proof fn lemma_node_is_well_built(s: Seq<u8>, depth: nat)
    ensures
        spec_node(s, depth) matches Ok((_, tree)) ==> well_built(tree, depth),
    decreases depth, s.len(), 0nat,
{
    lemma_wrapper_matches_tag(s);
    match spec_wrapper(s) {
        Err(_) => {},
        Ok((rest, head)) => {
            match spec_junk(rest) {
                Err(_) => {},
                Ok((scope, _)) => {
                    if starts_with(scope, OPEN) && depth > 0 {
                        lemma_nodes_are_well_built(scope.skip(1), (depth - 1) as nat);
                    }
                },
            }
        },
    }
}

/// Every node of a list that was read is well built, children and all.
pub proof fn lemma_nodes_are_well_built(s: Seq<u8>, depth: nat)
    ensures
        spec_nodes(s, depth) matches Ok((_, list)) ==> all_well_built(list, depth),
    decreases depth, s.len(), 1nat,
{
    lemma_junk_within(s);
    match spec_junk(s) {
        Err(_) => {},
        Ok((start, _)) => {
            if at_tag(start) {
                lemma_node_is_well_built(start, depth);
                match spec_node(start, depth) {
                    Err(_) => {},
                    Ok((rest, first)) => {
                        if rest.len() < s.len() {
                            lemma_nodes_are_well_built(rest, depth);
                            match spec_nodes(rest, depth) {
                                Err(_) => {},
                                Ok((_, others)) => {
                                    let list = seq![first] + others;
                                    assert forall|k: int| 0 <= k < list.len() implies well_built(
                                        #[trigger] list[k],
                                        depth,
                                    ) by {
                                        if k > 0 {
                                            assert(list[k] == others[k - 1]);
                                        }
                                    }
                                },
                            }
                        }
                    },
                }
            }
        },
    }
}

// ---------------------------------------------------------------------------
// Determinism
// ---------------------------------------------------------------------------

/// Parsing is a function of the text: two results of parsing the same text
/// are the same list of trees with the same rest, or the same error.
pub proof fn lemma_parse_is_deterministic(
    a: &str,
    b: &str,
    ra: Result<(&str, Vec<Wrappers>), ParseError>,
    rb: Result<(&str, Vec<Wrappers>), ParseError>,
)
    requires
        a@ == b@,
        agrees_nodes(ra, spec_parse(a.spec_bytes())),
        agrees_nodes(rb, spec_parse(b.spec_bytes())),
    ensures
        match (ra, rb) {
            (Ok((rest_a, list_a)), Ok((rest_b, list_b))) => rest_a.spec_bytes()
                == rest_b.spec_bytes() && trees(list_a@) == trees(list_b@),
            (Err(ea), Err(eb)) => ea == eb,
            _ => false,
        },
{
}

// ---------------------------------------------------------------------------
// Trivia
// ---------------------------------------------------------------------------

/// After trivia was skipped there is none left to skip: skipping again
/// leaves the text as it is.
pub proof fn lemma_junk_is_idempotent(s: Seq<u8>)
    ensures
        spec_junk(s) matches Ok((rest, _)) ==> spec_junk(rest) == Ok::<(Seq<u8>, ()), Failure>(
            (rest, ()),
        ),
    decreases s.len(),
{
    if s.len() > 0 && Class::Space.has(s[0]) {
        lemma_junk_is_idempotent(s.skip(1));
    } else if starts_with(s, SEMICOLON) {
        match spec_comment(s) {
            Ok((rest, _)) => lemma_junk_is_idempotent(rest),
            Err(_) => {},
        }
    }
}

// ---------------------------------------------------------------------------
// Dynamics
// ---------------------------------------------------------------------------

/// The letter that a marking is written with: `f` from mezzo-forte up, `p`
/// below.
pub open spec fn letter(level: Dynamics) -> u8 {
    if level.spec_rank() >= 4 {
        LETTER_F
    } else {
        LETTER_P
    }
}

/// Writing a marking and reading it back gives the marking: each of the
/// eight is read from its token, and the token is read to its end.
pub proof fn lemma_dynamics_round_trip(level: Dynamics)
    ensures
        spec_dynamics(level.spec_token()) == Ok::<(Seq<u8>, Dynamics), Failure>(
            (Seq::empty(), level),
        ),
{
    lemma_dynamics_round_trip_before(level, Seq::empty());
    assert(level.spec_token() + Seq::<u8>::empty() =~= level.spec_token());
}

/// A marking is read from its token whatever follows the token, as long as
/// what follows does not go on with the letter of the token.
pub proof fn lemma_dynamics_round_trip_before(level: Dynamics, rest: Seq<u8>)
    requires
        !starts_with(rest, letter(level)),
    ensures
        spec_dynamics(level.spec_token() + rest) == Ok::<(Seq<u8>, Dynamics), Failure>(
            (rest, level),
        ),
{
    let token = level.spec_token();
    let s = token + rest;
    let mezzo = level == Dynamics::MezzoPiano || level == Dynamics::MezzoForte;
    let count: nat = if mezzo { 1 } else { token.len() };
    let letters = if mezzo { s.skip(1) } else { s };
    assert(s[0] == token[0]);
    assert(starts_with(s, LETTER_M) == mezzo);
    assert forall|k: int| 0 <= k < count implies #[trigger] letters[k] == letter(level) by {
        assert(letters[k] == token[k + token.len() - count]);
    }
    if rest.len() > 0 {
        assert(letters[count as int] == rest[0]);
    }
    assert(starts_with(letters, LETTER_F) == (letter(level) == LETTER_F));
    lemma_run_len(letters, Class::Is(letter(level)), count);
    assert(letters.skip(count as int) =~= rest);
}

/// A mezzo marking is read from a token that starts with `m`, and from no
/// other; and a token that starts with `m` gives a mezzo marking or none.
pub proof fn lemma_mezzo_is_written_with_m(s: Seq<u8>)
    ensures
        spec_dynamics(s) matches Ok((_, level)) ==> ((level == Dynamics::MezzoPiano || level
            == Dynamics::MezzoForte) <==> starts_with(s, LETTER_M)),
{
}

/// An `m` makes a marking only before a single letter: before two letters
/// or more, and before none, the token is malformed.
pub proof fn lemma_mezzo_takes_one_letter(s: Seq<u8>)
    requires
        starts_with(s, LETTER_M),
        run_len(s.skip(1), Class::Is(LETTER_F)) != 1,
        run_len(s.skip(1), Class::Is(LETTER_P)) != 1,
    ensures
        spec_dynamics(s) == Err::<(Seq<u8>, Dynamics), Failure>(
            failure(ErrorKind::MalformedArgument, Expected::Dynamics, s),
        ),
{
}

// ---------------------------------------------------------------------------
// Durations
// ---------------------------------------------------------------------------

/// The radix of a duration token decides what it measures. A token that
/// starts with an apostrophe is a fixed time: the milliseconds that its
/// decimal digits denote. Any other token is a percentage: the number that
/// its hexadecimal digits denote.
pub proof fn lemma_radix_decides_time(s: Seq<u8>)
    ensures
        spec_hex_or_dec(s) matches Ok((_, token)) ==> if starts_with(s, APOSTROPHE) {
            let digits = s.skip(1).take(run_len(s.skip(1), Class::Digit) as int);
            spec_rephelp(token) == Time::Static(number(digits, 10) as u64)
        } else {
            let digits = s.take(run_len(s, Class::Hex) as int);
            spec_rephelp(token) == Time::Dynamic(number(digits, 16) as u8)
        },
{
}

} // verus!

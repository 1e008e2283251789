//! The value model: the frozen data that a parsed tree is made of.
//!
//! Every type here is a plain value. The tree node, [`Wrappers`], owns its
//! children; its mathematical model is [`Tree`], a payload and a sequence of
//! child trees.

use vstd::prelude::*;
use vstd::string::*;
use vstd::utf8::{is_ascii_chars, is_ascii_chars_encode_utf8};
use crate::text::{LETTER_F, LETTER_M, LETTER_P};

verus! {

/// Atomic leaf of the tree. A note is an index into a note-name table kept
/// elsewhere; neither leaf carries a length, which comes from the enclosing
/// scopes.
#[derive(PartialEq, Eq, Structural, Debug, Clone, Copy)]
pub enum Items {
    /// A single note, by its index in the note list.
    Note(u8),
    /// A single rest.
    Rest,
}

/// One step of a mask layer: a relative pitch offset, or a rest.
#[derive(PartialEq, Eq, Structural, Debug, Clone, Copy)]
pub enum MaskItems {
    Note(i8),
    Rest,
}

impl MaskItems {
    /// The pitch that this step makes of `pitch`. A note transposes by
    /// addition: its offset is added to the pitch, so that 3 on 1 gives 4.
    /// There is no pitch where the sum is not the index of a note, and none
    /// for a rest.
    pub open spec fn spec_transpose(self, pitch: u8) -> Option<u8> {
        match self {
            MaskItems::Note(offset) => if 0 <= pitch + offset <= u8::MAX {
                Some((pitch + offset) as u8)
            } else {
                None
            },
            MaskItems::Rest => None,
        }
    }

    /// The pitch that this step makes of `pitch`, if it makes one.
    pub fn transpose(&self, pitch: u8) -> (moved: Option<u8>)
        ensures
            moved == self.spec_transpose(pitch),
    {
        match self {
            MaskItems::Note(offset) => {
                let sum: i16 = pitch as i16 + *offset as i16;
                if 0 <= sum && sum <= 255 {
                    Some(sum as u8)
                } else {
                    None
                }
            },
            MaskItems::Rest => None,
        }
    }
}

/// A duration, either fixed or relative to the length of a note.
#[derive(PartialEq, Eq, Structural, Debug, Clone, Copy)]
pub enum Time {
    /// Fixed duration in milliseconds.
    Static(u64),
    /// Percentage of the note's length. Values above 100 overshoot on purpose.
    Dynamic(u8),
}

/// Which portion of a note's span an effect covers.
///
/// `Whole` is a case of its own and never stands for a full-length `Start` or
/// `End`: some effects act differently on a whole note.
#[derive(PartialEq, Eq, Structural, Debug, Clone, Copy)]
pub enum Repartition {
    /// The whole note.
    Whole,
    /// Only the start of the note.
    Start(Time),
    /// Only the end of the note.
    End(Time),
    /// Both sides of the note.
    BothSides { start: Time, end: Time },
}

impl Repartition {
    /// The repartition that covers both sides of a note: `sides.0` at its
    /// start and `sides.1` at its end.
    pub fn new(sides: (Time, Time)) -> (r: Repartition)
        ensures
            r == (Repartition::BothSides { start: sides.0, end: sides.1 }),
    {
        Repartition::BothSides { start: sides.0, end: sides.1 }
    }
}

/// One stage of an envelope.
#[derive(PartialEq, Eq, Structural, Debug, Clone, Copy)]
pub struct AdsrComponent {
    /// Time taken to reach `until`.
    pub time: Time,
    /// Level reached, as a percentage out of 255.
    pub until: u8,
}

impl AdsrComponent {
    /// The stage that reaches `until` in `time`.
    pub fn new(time: Time, until: u8) -> (c: AdsrComponent)
        ensures
            c == (AdsrComponent { time, until }),
    {
        AdsrComponent { time, until }
    }
}

impl Default for AdsrComponent {
    /// An immediate stage at full level.
    fn default() -> (c: AdsrComponent)
        ensures
            c == (AdsrComponent { time: Time::Static(0), until: 255 }),
    {
        AdsrComponent::new(Time::Static(0), 255)
    }
}

/// Volume envelope of a note: attack, decay, sustain, and a release measured
/// in milliseconds.
#[derive(PartialEq, Eq, Structural, Debug, Clone, Copy)]
pub struct ADSR {
    pub attack: AdsrComponent,
    pub decay: AdsrComponent,
    pub sustain: AdsrComponent,
    pub release: u64,
}

impl ADSR {
    /// The envelope of the given stages, with a release in milliseconds.
    pub fn new(
        attack: AdsrComponent,
        decay: AdsrComponent,
        sustain: AdsrComponent,
        release: u64,
    ) -> (e: ADSR)
        ensures
            e == (ADSR { attack, decay, sustain, release }),
    {
        ADSR { attack, decay, sustain, release }
    }
}

/// Loudness marking, from softest to loudest.
#[derive(PartialEq, Eq, Structural, PartialOrd, Ord, Debug, Clone, Copy)]
pub enum Dynamics {
    Pianississimo,
    Pianissimo,
    Piano,
    MezzoPiano,
    MezzoForte,
    Forte,
    Fortissimo,
    Fortississimo,
}

impl Dynamics {
    /// Position on the scale: 0 for the softest marking, 7 for the loudest.
    pub open spec fn spec_rank(self) -> nat {
        match self {
            Dynamics::Pianississimo => 0,
            Dynamics::Pianissimo => 1,
            Dynamics::Piano => 2,
            Dynamics::MezzoPiano => 3,
            Dynamics::MezzoForte => 4,
            Dynamics::Forte => 5,
            Dynamics::Fortissimo => 6,
            Dynamics::Fortississimo => 7,
        }
    }

    /// The marking that `count` letters stand for: `f` if `forte`, else
    /// `p`; after an `m` if `mezzo`. One to three letters make a marking,
    /// and after an `m` one letter only: mezzo goes with the single
    /// intensity and with nothing else.
    pub open spec fn spec_marking(mezzo: bool, forte: bool, count: nat) -> Option<Dynamics> {
        if mezzo {
            if count == 1 {
                Some(if forte { Dynamics::MezzoForte } else { Dynamics::MezzoPiano })
            } else {
                None
            }
        } else if count == 1 {
            Some(if forte { Dynamics::Forte } else { Dynamics::Piano })
        } else if count == 2 {
            Some(if forte { Dynamics::Fortissimo } else { Dynamics::Pianissimo })
        } else if count == 3 {
            Some(if forte { Dynamics::Fortississimo } else { Dynamics::Pianississimo })
        } else {
            None
        }
    }

    /// The marking that `count` letters stand for, if they stand for one.
    pub fn marking(mezzo: bool, forte: bool, count: usize) -> (level: Option<Dynamics>)
        ensures
            level == Dynamics::spec_marking(mezzo, forte, count as nat),
    {
        if mezzo {
            if count == 1 {
                Some(if forte { Dynamics::MezzoForte } else { Dynamics::MezzoPiano })
            } else {
                None
            }
        } else if count == 1 {
            Some(if forte { Dynamics::Forte } else { Dynamics::Piano })
        } else if count == 2 {
            Some(if forte { Dynamics::Fortissimo } else { Dynamics::Pianissimo })
        } else if count == 3 {
            Some(if forte { Dynamics::Fortississimo } else { Dynamics::Pianississimo })
        } else {
            None
        }
    }

    /// The marking as it is written in the notation: `ppp`, `pp`, `p`, `mp`,
    /// `mf`, `f`, `ff` or `fff`, in bytes.
    pub open spec fn spec_token(self) -> Seq<u8> {
        match self {
            Dynamics::Pianississimo => seq![LETTER_P, LETTER_P, LETTER_P],
            Dynamics::Pianissimo => seq![LETTER_P, LETTER_P],
            Dynamics::Piano => seq![LETTER_P],
            Dynamics::MezzoPiano => seq![LETTER_M, LETTER_P],
            Dynamics::MezzoForte => seq![LETTER_M, LETTER_F],
            Dynamics::Forte => seq![LETTER_F],
            Dynamics::Fortissimo => seq![LETTER_F, LETTER_F],
            Dynamics::Fortississimo => seq![LETTER_F, LETTER_F, LETTER_F],
        }
    }

    /// The marking as it is written in the notation.
    pub fn token(&self) -> (text: &'static str)
        ensures
            text.spec_bytes() == self.spec_token(),
    {
        let text = match self {
            Dynamics::Pianississimo => "ppp",
            Dynamics::Pianissimo => "pp",
            Dynamics::Piano => "p",
            Dynamics::MezzoPiano => "mp",
            Dynamics::MezzoForte => "mf",
            Dynamics::Forte => "f",
            Dynamics::Fortissimo => "ff",
            Dynamics::Fortississimo => "fff",
        };
        proof {
            reveal_strlit("ppp");
            reveal_strlit("pp");
            reveal_strlit("p");
            reveal_strlit("mp");
            reveal_strlit("mf");
            reveal_strlit("f");
            reveal_strlit("ff");
            reveal_strlit("fff");
            assert(is_ascii_chars(text@));
            is_ascii_chars_encode_utf8(text@);
            assert(text.spec_bytes() =~= self.spec_token());
        }
        text
    }

    /// Position on the scale: 0 for the softest marking, 7 for the loudest.
    pub fn rank(&self) -> (n: u8)
        ensures
            n == self.spec_rank(),
    {
        match self {
            Dynamics::Pianississimo => 0,
            Dynamics::Pianissimo => 1,
            Dynamics::Piano => 2,
            Dynamics::MezzoPiano => 3,
            Dynamics::MezzoForte => 4,
            Dynamics::Forte => 5,
            Dynamics::Fortissimo => 6,
            Dynamics::Fortississimo => 7,
        }
    }
}

/// How a relative tuning is derived from the previous instrument's tuning.
#[derive(PartialEq, Eq, Structural, Debug, Clone, Copy)]
pub enum Operations {
    /// Multiply the frequency.
    Multiply(u8),
    /// Divide the frequency.
    Divide(u8),
    /// Offset the frequency; a negative offset lowers it.
    Add(i16),
}

/// Tuning of an instrument.
#[derive(PartialEq, Eq, Structural, Debug, Clone, Copy)]
pub enum Tuning {
    /// A frequency of its own.
    Static { tuning: u16 },
    /// Derived from the tuning of the previous instrument.
    Relative { relation: Operations },
}

impl Tuning {
    /// The tuning of the given frequency.
    pub fn new_static(tuning: u16) -> (t: Tuning)
        ensures
            t == (Tuning::Static { tuning }),
    {
        Tuning::Static { tuning }
    }

    /// The tuning that is derived from the one before it.
    pub fn new_relative(relation: Operations) -> (t: Tuning)
        ensures
            t == (Tuning::Relative { relation }),
    {
        Tuning::Relative { relation }
    }
}

impl Default for Tuning {
    /// A tuning of its own, at 255.
    fn default() -> (t: Tuning)
        ensures
            t == (Tuning::Static { tuning: 255 }),
    {
        Tuning::new_static(255)
    }
}

/// Waveform algebra: an expression tree that this library builds and never
/// evaluates.
#[derive(Eq, Debug)]
pub enum Instruments {
    /// Sine wave.
    Sine(Tuning),
    /// Square wave.
    Square(Tuning),
    /// Triangle wave.
    Triangle(Tuning),
    /// White noise within a window of the spectrum; `low` and `high` are
    /// percentages out of 255.
    Noise { tuning: Tuning, low: u8, high: u8 },
    /// Product of two waveforms.
    Product(Box<(Instruments, Instruments)>),
    /// Sum of two waveforms.
    Sum(Box<(Instruments, Instruments)>),
}

/// Vibrato settings.
#[derive(PartialEq, Eq, Structural, Debug, Clone, Copy)]
pub struct VibratoConfig {
    /// Swing in tenths of a whole tone.
    pub amplitude: u8,
    /// Rate in hertz.
    pub frequency: u8,
}

impl VibratoConfig {
    /// The vibrato of the given swing and rate.
    pub fn new(amplitude: u8, frequency: u8) -> (c: VibratoConfig)
        ensures
            c == (VibratoConfig { amplitude, frequency }),
    {
        VibratoConfig { amplitude, frequency }
    }
}

/// Volume fade settings.
#[derive(PartialEq, Eq, Structural, Debug, Clone, Copy)]
pub struct VolumeFadeConfig {
    /// Volume at the start.
    pub from: Dynamics,
    /// Volume at the end.
    pub to: Dynamics,
    /// Whether the fade happens within each note rather than across the
    /// notes of the scope.
    pub inside: bool,
}

impl VolumeFadeConfig {
    /// The fade from one volume to another.
    pub fn new(from: Dynamics, to: Dynamics, inside: bool) -> (c: VolumeFadeConfig)
        ensures
            c == (VolumeFadeConfig { from, to, inside }),
    {
        VolumeFadeConfig { from, to, inside }
    }
}

/// Linear tempo ramp, in beats per minute.
#[derive(PartialEq, Eq, Structural, Debug, Clone, Copy)]
pub struct AccelConfig {
    /// Tempo at the start.
    pub from: u16,
    /// Tempo at the end.
    pub to: u16,
}

impl AccelConfig {
    /// The ramp from one tempo to another.
    pub fn new(from: u16, to: u16) -> (c: AccelConfig)
        ensures
            c == (AccelConfig { from, to }),
    {
        AccelConfig { from, to }
    }
}

/// What a mask layer supplies.
#[derive(PartialEq, Eq, Structural, Debug, Clone, Copy)]
pub enum MaskType {
    /// Timing.
    Rhythm,
    /// Pitch transposition.
    Note,
}

/// A named layer to lay over a region of notes. A region refers to it by
/// `id`.
#[derive(Eq, Debug)]
pub struct Mask {
    pub id: u8,
    pub layer: Vec<MaskItems>,
}

impl Mask {
    /// The mask of the given id and layer.
    pub fn new(id: u8, layer: Vec<MaskItems>) -> (mask: Mask)
        ensures
            mask.id == id,
            mask.layer@ == layer@,
    {
        Mask { id, layer }
    }
}

/// The kinds of tree node, without their payloads.
#[derive(PartialEq, Eq, Structural, Debug, Clone, Copy)]
pub enum W {
    Song,
    Album,
    Artist,
    Year,
    Tempo,
    Accel,
    NoteDef,
    Channel,
    Instrument,
    Length,
    Octave,
    Loop,
    Glissando,
    Vibrato,
    Volume,
    VolumeFader,
    ADSR,
    Singleton,
    Mask,
    Masked,
    Test,
    Test2,
}

/// The character that introduces a node in the notation.
pub trait Tagging {
    /// Whether a tag character is assigned at all.
    spec fn has_tag(&self) -> bool;

    /// The assigned tag character; without meaning where none is assigned.
    spec fn spec_tag(&self) -> char;

    /// The assigned tag character.
    fn tag(&self) -> (c: char)
        requires
            self.has_tag(),
        ensures
            c == self.spec_tag(),
    ;
}

impl Tagging for W {
    /// Every kind but the leaf has a tag.
    open spec fn has_tag(&self) -> bool {
        !(self is Singleton)
    }

    /// Tags are case-sensitive. The two placeholder kinds `Test` and `Test2`
    /// share theirs with `Year` and `Album`.
    open spec fn spec_tag(&self) -> char {
        match self {
            W::Song => 'S',
            W::Album => 'A',
            W::Artist => 'a',
            W::Year => 'Y',
            W::Tempo => 'T',
            W::Accel => 't',
            W::NoteDef => 'N',
            W::Channel => 'C',
            W::Instrument => 'I',
            W::Length => 'l',
            W::Octave => 'o',
            W::Loop => 'x',
            W::Glissando => 'G',
            W::Vibrato => 'V',
            W::Volume => 'v',
            W::VolumeFader => 'F',
            W::ADSR => '~',
            W::Singleton => ' ',
            W::Mask => 'M',
            W::Masked => 'm',
            W::Test => 'Y',
            W::Test2 => 'A',
        }
    }

    fn tag(&self) -> (c: char) {
        match self {
            W::Song => 'S',
            W::Album => 'A',
            W::Artist => 'a',
            W::Year => 'Y',
            W::Tempo => 'T',
            W::Accel => 't',
            W::NoteDef => 'N',
            W::Channel => 'C',
            W::Instrument => 'I',
            W::Length => 'l',
            W::Octave => 'o',
            W::Loop => 'x',
            W::Glissando => 'G',
            W::Vibrato => 'V',
            W::Volume => 'v',
            W::VolumeFader => 'F',
            W::ADSR => '~',
            W::Singleton => vstd::pervasive::unreached(),
            W::Mask => 'M',
            W::Masked => 'm',
            W::Test => 'Y',
            W::Test2 => 'A',
        }
    }
}

/// A node of the tree: an atomic note or rest, a mask definition, or a scope
/// that modifies the nodes it owns. Children stand in source order.
#[derive(Eq, Debug)]
pub enum Wrappers {
    /// Title of the song.
    Song(String, Vec<Wrappers>),
    /// Title of the album.
    Album(String, Vec<Wrappers>),
    /// Name of the artist.
    Artist(String, Vec<Wrappers>),
    /// Year of the song or album.
    Year(u16, Vec<Wrappers>),
    /// Tempo in beats per minute.
    Tempo(u16, Vec<Wrappers>),
    /// Tempo ramp across the scope.
    Accel(AccelConfig, Vec<Wrappers>),
    /// Names of the notes that leaves refer to by index.
    NoteDef(Vec<String>, Vec<Wrappers>),
    /// Name of the channel.
    Channel(String, Vec<Wrappers>),
    /// Instrument that plays the scope.
    Instrument(Instruments, Vec<Wrappers>),
    /// Note length, as the number of notes in a beat.
    Length(u8, Vec<Wrappers>),
    /// Octave of the notes.
    Octave(u8, Vec<Wrappers>),
    /// Number of times the scope is played.
    Loop(u8, Vec<Wrappers>),
    /// Glissando over part of each note.
    Glissando(Repartition, Vec<Wrappers>),
    /// Vibrato over part of each note.
    Vibrato(Repartition, VibratoConfig, Vec<Wrappers>),
    /// Volume of the notes.
    Volume(Dynamics, Vec<Wrappers>),
    /// Volume fade.
    VolumeFader(VolumeFadeConfig, Vec<Wrappers>),
    /// Volume envelope of each note.
    ADSR(ADSR, Vec<Wrappers>),
    /// A single note or rest.
    Singleton(Items),
    /// Definition of a mask. It owns no children.
    Mask(MaskType, Mask),
    /// Lays the mask with the given id over the children. The mask is looked
    /// up by id; it is not owned.
    Masked(u8, Vec<Wrappers>),
    /// Placeholder kind.
    Test(String, Vec<Wrappers>),
    /// Placeholder kind.
    Test2(String, Vec<Wrappers>),
}

/// What a node carries besides its children, as a mathematical value.
pub enum Payload {
    Song(Seq<char>),
    Album(Seq<char>),
    Artist(Seq<char>),
    Year(u16),
    Tempo(u16),
    Accel(AccelConfig),
    NoteDef(Seq<Seq<char>>),
    Channel(Seq<char>),
    Instrument(Instruments),
    Length(u8),
    Octave(u8),
    Loop(u8),
    Glissando(Repartition),
    Vibrato(Repartition, VibratoConfig),
    Volume(Dynamics),
    VolumeFader(VolumeFadeConfig),
    ADSR(ADSR),
    Singleton(Items),
    Mask(MaskType, u8, Seq<MaskItems>),
    Masked(u8),
    Test(Seq<char>),
    Test2(Seq<char>),
}

impl Payload {
    /// The kind of node that carries this payload.
    pub open spec fn kind(self) -> W {
        match self {
            Payload::Song(_) => W::Song,
            Payload::Album(_) => W::Album,
            Payload::Artist(_) => W::Artist,
            Payload::Year(_) => W::Year,
            Payload::Tempo(_) => W::Tempo,
            Payload::Accel(_) => W::Accel,
            Payload::NoteDef(_) => W::NoteDef,
            Payload::Channel(_) => W::Channel,
            Payload::Instrument(_) => W::Instrument,
            Payload::Length(_) => W::Length,
            Payload::Octave(_) => W::Octave,
            Payload::Loop(_) => W::Loop,
            Payload::Glissando(_) => W::Glissando,
            Payload::Vibrato(_, _) => W::Vibrato,
            Payload::Volume(_) => W::Volume,
            Payload::VolumeFader(_) => W::VolumeFader,
            Payload::ADSR(_) => W::ADSR,
            Payload::Singleton(_) => W::Singleton,
            Payload::Mask(_, _, _) => W::Mask,
            Payload::Masked(_) => W::Masked,
            Payload::Test(_) => W::Test,
            Payload::Test2(_) => W::Test2,
        }
    }

    /// A leaf owns no children: a single note or rest, and a mask definition.
    pub open spec fn is_leaf(self) -> bool {
        self is Singleton || self is Mask
    }
}

/// The mathematical model of a node: its payload and the trees of its
/// children, in source order.
pub struct Tree {
    pub payload: Payload,
    pub children: Seq<Tree>,
}

impl Tree {
    /// The tree of a node that has no children.
    pub open spec fn bare(payload: Payload) -> Tree {
        Tree { payload, children: Seq::empty() }
    }
}

/// The names of a note list.
pub open spec fn names(list: Seq<String>) -> Seq<Seq<char>> {
    Seq::new(list.len(), |k: int| list[k]@)
}

/// The trees of a list of nodes.
pub open spec fn trees(nodes: Seq<Wrappers>) -> Seq<Tree> {
    Seq::new(nodes.len(), |k: int| nodes[k]@)
}

impl Wrappers {
    /// What this node carries besides its children.
    pub open spec fn payload(&self) -> Payload {
        match self {
            Wrappers::Song(name, _) => Payload::Song(name@),
            Wrappers::Album(name, _) => Payload::Album(name@),
            Wrappers::Artist(name, _) => Payload::Artist(name@),
            Wrappers::Year(year, _) => Payload::Year(*year),
            Wrappers::Tempo(bpm, _) => Payload::Tempo(*bpm),
            Wrappers::Accel(ramp, _) => Payload::Accel(*ramp),
            Wrappers::NoteDef(list, _) => Payload::NoteDef(names(list@)),
            Wrappers::Channel(name, _) => Payload::Channel(name@),
            Wrappers::Instrument(instrument, _) => Payload::Instrument(*instrument),
            Wrappers::Length(n, _) => Payload::Length(*n),
            Wrappers::Octave(n, _) => Payload::Octave(*n),
            Wrappers::Loop(n, _) => Payload::Loop(*n),
            Wrappers::Glissando(span, _) => Payload::Glissando(*span),
            Wrappers::Vibrato(span, config, _) => Payload::Vibrato(*span, *config),
            Wrappers::Volume(level, _) => Payload::Volume(*level),
            Wrappers::VolumeFader(config, _) => Payload::VolumeFader(*config),
            Wrappers::ADSR(envelope, _) => Payload::ADSR(*envelope),
            Wrappers::Singleton(item) => Payload::Singleton(*item),
            Wrappers::Mask(what, mask) => Payload::Mask(*what, mask.id, mask.layer@),
            Wrappers::Masked(id, _) => Payload::Masked(*id),
            Wrappers::Test(name, _) => Payload::Test(name@),
            Wrappers::Test2(name, _) => Payload::Test2(name@),
        }
    }

    /// The nodes that this node owns; none for a leaf.
    pub open spec fn children(&self) -> Seq<Wrappers> {
        match self {
            Wrappers::Song(_, kids) => kids@,
            Wrappers::Album(_, kids) => kids@,
            Wrappers::Artist(_, kids) => kids@,
            Wrappers::Year(_, kids) => kids@,
            Wrappers::Tempo(_, kids) => kids@,
            Wrappers::Accel(_, kids) => kids@,
            Wrappers::NoteDef(_, kids) => kids@,
            Wrappers::Channel(_, kids) => kids@,
            Wrappers::Instrument(_, kids) => kids@,
            Wrappers::Length(_, kids) => kids@,
            Wrappers::Octave(_, kids) => kids@,
            Wrappers::Loop(_, kids) => kids@,
            Wrappers::Glissando(_, kids) => kids@,
            Wrappers::Vibrato(_, _, kids) => kids@,
            Wrappers::Volume(_, kids) => kids@,
            Wrappers::VolumeFader(_, kids) => kids@,
            Wrappers::ADSR(_, kids) => kids@,
            Wrappers::Singleton(_) => Seq::empty(),
            Wrappers::Mask(_, _) => Seq::empty(),
            Wrappers::Masked(_, kids) => kids@,
            Wrappers::Test(_, kids) => kids@,
            Wrappers::Test2(_, kids) => kids@,
        }
    }
}

impl View for Wrappers {
    type V = Tree;

    /// The tree of this node: its payload over the trees of its children.
    open spec fn view(&self) -> Tree
        decreases self,
    {
        Tree {
            payload: self.payload(),
            children: Seq::new(
                self.children().len(),
                |k: int|
                    if 0 <= k < self.children().len() {
                        self.children()[k]@
                    } else {
                        Tree::bare(self.payload())
                    },
            ),
        }
    }
}

/// The tree of a node is its payload over the trees of its children.
pub proof fn lemma_view(node: Wrappers)
    ensures
        node@ == (Tree { payload: node.payload(), children: trees(node.children()) }),
{
    reveal_with_fuel(<Wrappers as View>::view, 2);
    assert(node@.children =~= trees(node.children()));
}

impl Wrappers {
    /// The kind of this node.
    pub fn kind(&self) -> (k: W)
        ensures
            k == self@.payload.kind(),
    {
        proof {
            lemma_view(*self);
        }
        match self {
            Wrappers::Song(_, _) => W::Song,
            Wrappers::Album(_, _) => W::Album,
            Wrappers::Artist(_, _) => W::Artist,
            Wrappers::Year(_, _) => W::Year,
            Wrappers::Tempo(_, _) => W::Tempo,
            Wrappers::Accel(_, _) => W::Accel,
            Wrappers::NoteDef(_, _) => W::NoteDef,
            Wrappers::Channel(_, _) => W::Channel,
            Wrappers::Instrument(_, _) => W::Instrument,
            Wrappers::Length(_, _) => W::Length,
            Wrappers::Octave(_, _) => W::Octave,
            Wrappers::Loop(_, _) => W::Loop,
            Wrappers::Glissando(_, _) => W::Glissando,
            Wrappers::Vibrato(_, _, _) => W::Vibrato,
            Wrappers::Volume(_, _) => W::Volume,
            Wrappers::VolumeFader(_, _) => W::VolumeFader,
            Wrappers::ADSR(_, _) => W::ADSR,
            Wrappers::Singleton(_) => W::Singleton,
            Wrappers::Mask(_, _) => W::Mask,
            Wrappers::Masked(_, _) => W::Masked,
            Wrappers::Test(_, _) => W::Test,
            Wrappers::Test2(_, _) => W::Test2,
        }
    }

    /// The list of the children of this node; a leaf has no list.
    pub fn kids(&self) -> (list: Option<&Vec<Wrappers>>)
        ensures
            match list {
                Some(kids) => !self@.payload.is_leaf() && trees(kids@) == self@.children,
                None => self@.payload.is_leaf() && self@.children.len() == 0,
            },
    {
        proof {
            lemma_view(*self);
        }
        match self {
            Wrappers::Song(_, kids) => Some(kids),
            Wrappers::Album(_, kids) => Some(kids),
            Wrappers::Artist(_, kids) => Some(kids),
            Wrappers::Year(_, kids) => Some(kids),
            Wrappers::Tempo(_, kids) => Some(kids),
            Wrappers::Accel(_, kids) => Some(kids),
            Wrappers::NoteDef(_, kids) => Some(kids),
            Wrappers::Channel(_, kids) => Some(kids),
            Wrappers::Instrument(_, kids) => Some(kids),
            Wrappers::Length(_, kids) => Some(kids),
            Wrappers::Octave(_, kids) => Some(kids),
            Wrappers::Loop(_, kids) => Some(kids),
            Wrappers::Glissando(_, kids) => Some(kids),
            Wrappers::Vibrato(_, _, kids) => Some(kids),
            Wrappers::Volume(_, kids) => Some(kids),
            Wrappers::VolumeFader(_, kids) => Some(kids),
            Wrappers::ADSR(_, kids) => Some(kids),
            Wrappers::Singleton(_) => None,
            Wrappers::Mask(_, _) => None,
            Wrappers::Masked(_, kids) => Some(kids),
            Wrappers::Test(_, kids) => Some(kids),
            Wrappers::Test2(_, kids) => Some(kids),
        }
    }

    /// This node with `kids` as its children, in place of those it had. A
    /// leaf owns no children and comes back as it was.
    pub fn with_children(self, kids: Vec<Wrappers>) -> (node: Wrappers)
        ensures
            node@.payload == self@.payload,
            node@.children == if self@.payload.is_leaf() {
                Seq::<Tree>::empty()
            } else {
                trees(kids@)
            },
    {
        proof {
            lemma_view(self);
        }
        let node = match self {
            Wrappers::Song(name, _) => Wrappers::Song(name, kids),
            Wrappers::Album(name, _) => Wrappers::Album(name, kids),
            Wrappers::Artist(name, _) => Wrappers::Artist(name, kids),
            Wrappers::Year(year, _) => Wrappers::Year(year, kids),
            Wrappers::Tempo(bpm, _) => Wrappers::Tempo(bpm, kids),
            Wrappers::Accel(ramp, _) => Wrappers::Accel(ramp, kids),
            Wrappers::NoteDef(list, _) => Wrappers::NoteDef(list, kids),
            Wrappers::Channel(name, _) => Wrappers::Channel(name, kids),
            Wrappers::Instrument(instrument, _) => Wrappers::Instrument(instrument, kids),
            Wrappers::Length(n, _) => Wrappers::Length(n, kids),
            Wrappers::Octave(n, _) => Wrappers::Octave(n, kids),
            Wrappers::Loop(n, _) => Wrappers::Loop(n, kids),
            Wrappers::Glissando(span, _) => Wrappers::Glissando(span, kids),
            Wrappers::Vibrato(span, config, _) => Wrappers::Vibrato(span, config, kids),
            Wrappers::Volume(level, _) => Wrappers::Volume(level, kids),
            Wrappers::VolumeFader(config, _) => Wrappers::VolumeFader(config, kids),
            Wrappers::ADSR(envelope, _) => Wrappers::ADSR(envelope, kids),
            Wrappers::Singleton(item) => Wrappers::Singleton(item),
            Wrappers::Mask(what, mask) => Wrappers::Mask(what, mask),
            Wrappers::Masked(id, _) => Wrappers::Masked(id, kids),
            Wrappers::Test(name, _) => Wrappers::Test(name, kids),
            Wrappers::Test2(name, _) => Wrappers::Test2(name, kids),
        };
        proof {
            lemma_view(node);
            assert(trees(Seq::<Wrappers>::empty()) =~= Seq::<Tree>::empty());
        }
        node
    }
}

impl Tagging for Wrappers {
    /// A node has the tag of its kind.
    open spec fn has_tag(&self) -> bool {
        self@.payload.kind().has_tag()
    }

    open spec fn spec_tag(&self) -> char {
        self@.payload.kind().spec_tag()
    }

    fn tag(&self) -> (c: char) {
        self.kind().tag()
    }
}

} // verus!

//! Notes, numbered as MIDI numbers them (middle C is 60), with their pitch class and octave.
use crate::text::{decimal, spec_decimal};
use vstd::prelude::*;
use vstd::string::*;

verus! {

#[derive(Debug, Clone, Copy, PartialEq, Eq, Hash, Structural)]
pub struct Note {
    index: u8,
}

impl View for Note {
    type V = u8;

    /// The MIDI note number.
    closed spec fn view(&self) -> u8 {
        self.index
    }
}

impl Note {
    /// The note with MIDI number `index`.
    pub closed spec fn spec_new(index: u8) -> Note {
        Note { index }
    }

    /// The MIDI number of `Note::spec_new(index)` is `index`.
    pub broadcast proof fn lemma_spec_new(index: u8)
        ensures
            (#[trigger] Note::spec_new(index))@ == index,
    {
    }

    /// A note is determined by its number.
    pub broadcast proof fn lemma_view_determines(note: Note)
        ensures
            #[trigger] Note::spec_new(note@) == note,
    {
    }

    pub fn new(index: u8) -> (res: Self)
        ensures
            res == Note::spec_new(index),
            res@ == index,
    {
        Self { index }
    }

    /// The note of a pitch class in an octave, where octave 4 holds middle C.
    pub fn from_parts(pitch_class: PitchClass, octave: u8) -> (res: Self)
        requires
            (octave + 1) * 12 + pitch_class.spec_index_offset() <= u8::MAX,
        ensures
            res@ == (octave + 1) * 12 + pitch_class.spec_index_offset(),
            res == Note::spec_new(((octave + 1) * 12 + pitch_class.spec_index_offset()) as u8),
    {
        let index = (octave + 1) * 12 + pitch_class.index_offset();

        Self { index }
    }

    pub fn index(&self) -> (res: u8)
        ensures
            res == self@,
    {
        self.index
    }

    /// The octave of the note, where octave 4 holds middle C; notes below octave 0 count as 0.
    pub open spec fn spec_octave(self) -> u8 {
        if self@ < 12 {
            0
        } else {
            (self@ / 12 - 1) as u8
        }
    }

    pub fn octave(&self) -> (res: u8)
        ensures
            res == self.spec_octave(),
    {
        (self.index / 12).saturating_sub(1)
    }

    pub fn pitch_class(&self) -> (res: PitchClass)
        ensures
            res.spec_index_offset() == self@ % 12,
            res == PitchClass::spec_from_offset(self@ % 12),
    {
        match self.index % 12 {
            0 => PitchClass::C,
            1 => PitchClass::CSharp,
            2 => PitchClass::D,
            3 => PitchClass::DSharp,
            4 => PitchClass::E,
            5 => PitchClass::F,
            6 => PitchClass::FSharp,
            7 => PitchClass::G,
            8 => PitchClass::GSharp,
            9 => PitchClass::A,
            10 => PitchClass::ASharp,
            _ => PitchClass::B,
        }
    }
}

pub open spec fn spec_note_from(value: u8) -> Note {
    Note::spec_new(value)
}

impl From<u8> for Note {
    fn from(value: u8) -> (res: Self) {
        Self::new(value)
    }
}

impl vstd::std_specs::convert::FromSpecImpl<u8> for Note {
    open spec fn obeys_from_spec() -> bool {
        true
    }

    open spec fn from_spec(value: u8) -> Note {
        spec_note_from(value)
    }
}

#[derive(Debug, Clone, Copy, PartialEq, Eq, Hash, Structural)]
pub enum PitchClass {
    C,
    CSharp,
    D,
    DSharp,
    E,
    F,
    FSharp,
    G,
    GSharp,
    A,
    ASharp,
    B,
}

impl PitchClass {
    /// Semitones of the pitch class above C.
    pub open spec fn spec_index_offset(self) -> u8 {
        match self {
            PitchClass::C => 0,
            PitchClass::CSharp => 1,
            PitchClass::D => 2,
            PitchClass::DSharp => 3,
            PitchClass::E => 4,
            PitchClass::F => 5,
            PitchClass::FSharp => 6,
            PitchClass::G => 7,
            PitchClass::GSharp => 8,
            PitchClass::A => 9,
            PitchClass::ASharp => 10,
            PitchClass::B => 11,
        }
    }

    /// The pitch class `offset` semitones above C, for an offset below 12.
    pub open spec fn spec_from_offset(offset: u8) -> PitchClass {
        if offset == 0 {
            PitchClass::C
        } else if offset == 1 {
            PitchClass::CSharp
        } else if offset == 2 {
            PitchClass::D
        } else if offset == 3 {
            PitchClass::DSharp
        } else if offset == 4 {
            PitchClass::E
        } else if offset == 5 {
            PitchClass::F
        } else if offset == 6 {
            PitchClass::FSharp
        } else if offset == 7 {
            PitchClass::G
        } else if offset == 8 {
            PitchClass::GSharp
        } else if offset == 9 {
            PitchClass::A
        } else if offset == 10 {
            PitchClass::ASharp
        } else {
            PitchClass::B
        }
    }

    pub fn index_offset(&self) -> (res: u8)
        ensures
            res == self.spec_index_offset(),
            res < 12,
    {
        match self {
            PitchClass::C => 0,
            PitchClass::CSharp => 1,
            PitchClass::D => 2,
            PitchClass::DSharp => 3,
            PitchClass::E => 4,
            PitchClass::F => 5,
            PitchClass::FSharp => 6,
            PitchClass::G => 7,
            PitchClass::GSharp => 8,
            PitchClass::A => 9,
            PitchClass::ASharp => 10,
            PitchClass::B => 11,
        }
    }
}

impl PitchClass {
    /// The name of the pitch class, with `♯` for sharps.
    pub open spec fn spec_to_string(self) -> Seq<char> {
        match self {
            PitchClass::C => "C"@,
            PitchClass::CSharp => "C♯"@,
            PitchClass::D => "D"@,
            PitchClass::DSharp => "D♯"@,
            PitchClass::E => "E"@,
            PitchClass::F => "F"@,
            PitchClass::FSharp => "F♯"@,
            PitchClass::G => "G"@,
            PitchClass::GSharp => "G♯"@,
            PitchClass::A => "A"@,
            PitchClass::ASharp => "A♯"@,
            PitchClass::B => "B"@,
        }
    }

    /// The name of the pitch class, with `♯` for sharps.
    pub fn to_string(&self) -> (res: String)
        ensures
            res@ == self.spec_to_string(),
    {
        String::from_str(
            match self {
                PitchClass::C => "C",
                PitchClass::CSharp => "C♯",
                PitchClass::D => "D",
                PitchClass::DSharp => "D♯",
                PitchClass::E => "E",
                PitchClass::F => "F",
                PitchClass::FSharp => "F♯",
                PitchClass::G => "G",
                PitchClass::GSharp => "G♯",
                PitchClass::A => "A",
                PitchClass::ASharp => "A♯",
                PitchClass::B => "B",
            },
        )
    }
}

impl Note {
    /// The pitch class and octave of the note, then its number in parentheses, as in `C4 (60)`.
    pub open spec fn spec_to_string(self) -> Seq<char> {
        PitchClass::spec_from_offset(self@ % 12).spec_to_string() + spec_decimal(
            self.spec_octave() as nat,
        ) + " ("@ + spec_decimal(self@ as nat) + ")"@
    }

    /// The pitch class and octave of the note, then its number in parentheses, as in `C4 (60)`.
    pub fn to_string(&self) -> (res: String)
        ensures
            res@ == self.spec_to_string(),
    {
        let octave = self.octave();
        let pitch_class = self.pitch_class();

        let mut res = pitch_class.to_string();
        res.append(decimal(octave as u64).as_str());
        res.append(" (");
        res.append(decimal(self.index as u64).as_str());
        res.append(")");
        res
    }
}

/// A note made from a pitch class and an octave has that pitch class and that octave.
pub proof fn law_from_parts_parts(pitch_class: PitchClass, octave: u8)
    requires
        (octave + 1) * 12 + pitch_class.spec_index_offset() <= u8::MAX,
    ensures
        ({
            let note = Note::spec_new(((octave + 1) * 12 + pitch_class.spec_index_offset()) as u8);
            &&& PitchClass::spec_from_offset(note@ % 12) == pitch_class
            &&& note.spec_octave() == octave
        }),
{
    let off = pitch_class.spec_index_offset();
    let i = ((octave + 1) * 12 + off) as u8;
    assert(i as int == (octave + 1) * 12 + off);
    assert(i % 12 == off) by (nonlinear_arith)
        requires
            i as int == (octave + 1) * 12 + off,
            0 <= off < 12,
    ;
    assert(i / 12 == octave + 1) by (nonlinear_arith)
        requires
            i as int == (octave + 1) * 12 + off,
            0 <= off < 12,
    ;
}

/// A note from octave 0 up is the note made from its own pitch class and octave.
pub proof fn law_parts_from_note(note: Note)
    requires
        note@ >= 12,
    ensures
        (note.spec_octave() + 1) * 12 + PitchClass::spec_from_offset(note@ % 12).spec_index_offset()
            == note@,
        Note::spec_new(
            ((note.spec_octave() + 1) * 12 + PitchClass::spec_from_offset(
                note@ % 12,
            ).spec_index_offset()) as u8,
        ) == note,
{
    broadcast use Note::lemma_spec_new, Note::lemma_view_determines;

    let i = note@;
    assert(i == (i / 12) * 12 + i % 12) by (nonlinear_arith);
}

/// Pitch classes and their offsets above C are in one-to-one correspondence.
pub proof fn law_pitch_class_offset(pitch_class: PitchClass, offset: u8)
    ensures
        PitchClass::spec_from_offset(pitch_class.spec_index_offset()) == pitch_class,
        pitch_class.spec_index_offset() < 12,
        offset < 12 ==> PitchClass::spec_from_offset(offset).spec_index_offset() == offset,
{
}

/// Whether the pitch class `offset` semitones above C is a sharp: C♯, D♯, F♯, G♯ and A♯.
pub open spec fn is_sharp_offset(offset: u8) -> bool {
    offset == 1 || offset == 3 || offset == 6 || offset == 8 || offset == 10
}

/// Pitch class names: a natural is named by its letter, and the letters C, D, E, F, G, A, B go up
/// with the naturals; a sharp is the name of the natural a semitone below it followed by `♯`. So
/// distinct pitch classes have distinct names.
pub proof fn law_pitch_class_names(pitch_class: PitchClass, other: PitchClass)
    ensures
        ({
            let offset = pitch_class.spec_index_offset();
            let name = pitch_class.spec_to_string();
            &&& !is_sharp_offset(offset) ==> name.len() == 1 && name[0] == "C?D?EF?G?A?B"@[
                offset as int]
            &&& is_sharp_offset(offset) ==> !is_sharp_offset((offset - 1) as u8) && name
                == PitchClass::spec_from_offset((offset - 1) as u8).spec_to_string() + "♯"@
            &&& pitch_class != other ==> name != other.spec_to_string()
        }),
{
    reveal_strlit("C?D?EF?G?A?B");
    reveal_strlit("♯");
    reveal_strlit("C");
    reveal_strlit("C♯");
    reveal_strlit("D");
    reveal_strlit("D♯");
    reveal_strlit("E");
    reveal_strlit("F");
    reveal_strlit("F♯");
    reveal_strlit("G");
    reveal_strlit("G♯");
    reveal_strlit("A");
    reveal_strlit("A♯");
    reveal_strlit("B");
    let name = pitch_class.spec_to_string();
    let other_name = other.spec_to_string();
    if pitch_class != other && name == other_name {
        assert(name.len() == other_name.len());
        assert(name[0] == other_name[0]);
        if name.len() == 2 {
            assert(name[1] == other_name[1]);
        }
    }
}

} // verus!

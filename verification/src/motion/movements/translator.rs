//! What a g-code command asks the machine to do.
//!
//! Translating a command has two halves: deciding what the command means
//! given the translator's modes (which units are in use, whether
//! coordinates are absolute or relative), and computing the geometry of the
//! resulting move. This file holds the first half: the modes and the
//! decision, over plain values.
use vstd::prelude::*;

verus! {

/// The general category of a g-code command (the letter it starts with).
#[derive(Debug, Copy, Clone, PartialEq, Eq, Structural)]
pub enum Mnemonic {
    /// `G`
    General,
    /// `M`
    Miscellaneous,
    /// `O`
    ProgramNumber,
    /// `T`
    ToolChange,
}

/// How the coordinates of a move are interpreted.
#[derive(Debug, Copy, Clone, PartialEq, Eq, Structural)]
pub enum CoordinateMode {
    /// Coordinates are positions.
    Absolute,
    /// Coordinates are offsets from the current position.
    Relative,
}

/// The unit lengths are given in.
#[derive(Debug, Copy, Clone, PartialEq, Eq, Structural)]
pub enum Units {
    Millimetres,
    Inches,
}

/// Which way a circular interpolation goes round its centre.
#[derive(Debug, Copy, Clone, PartialEq, Eq, Structural)]
pub enum Direction {
    Clockwise,
    Anticlockwise,
}

/// What a command asks for.
#[derive(Debug, Copy, Clone, PartialEq, Eq)]
pub enum Action {
    /// The command is not supported.
    Unsupported,
    /// An argument the command needs is missing.
    InvalidArgument { arg: char, reason: &'static str },
    /// `M30`: the program has ended.
    EndOfProgram,
    /// `G00`/`G01`: move in a straight line.
    LinearInterpolate,
    /// `G02`/`G03`: move along an arc.
    CircularInterpolate(Direction),
    /// `G04`: wait for the time given by the `P` argument.
    Dwell,
    /// `G20`, `G21`, `G90`, `G91`: only the translator's modes changed.
    ModesChanged,
}

/// The part of the translator's state that decides what commands mean.
#[derive(Debug, Copy, Clone, PartialEq, Eq, Structural)]
pub struct Modes {
    pub coordinate_mode: CoordinateMode,
    pub units: Units,
}

/// Does the command carry an argument with this letter (in either case)?
pub open spec fn has_argument(letters: Seq<char>, letter: char) -> bool {
    exists|i: int|
        0 <= i < letters.len() && (#[trigger] letters[i] == letter || letters[i]
            == lowercase(letter))
}

/// The lower-case form of an upper-case ASCII letter.
pub open spec fn lowercase(letter: char) -> char {
    if 'A' <= letter <= 'Z' {
        ((letter as u32) + 32) as char
    } else {
        letter
    }
}

/// The answer to a command that lacks the argument with this letter.
pub open spec fn missing_argument(arg: char) -> Action {
    if arg == 'P' {
        Action::InvalidArgument { arg, reason: "Dwell time not provided" }
    } else {
        Action::InvalidArgument { arg, reason: "Missing" }
    }
}

/// What a command with this mnemonic, major number and argument letters
/// asks for, and the modes after it.
pub open spec fn planned(modes: Modes, mnemonic: Mnemonic, major: u32, letters: Seq<char>) -> (
    Modes,
    Action,
) {
    match mnemonic {
        Mnemonic::Miscellaneous => if major == 30 {
            (modes, Action::EndOfProgram)
        } else {
            (modes, Action::Unsupported)
        },
        Mnemonic::General => if major == 0 || major == 1 {
            (modes, Action::LinearInterpolate)
        } else if major == 2 || major == 3 {
            if !has_argument(letters, 'I') {
                (modes, missing_argument('I'))
            } else if !has_argument(letters, 'J') {
                (modes, missing_argument('J'))
            } else if major == 2 {
                (modes, Action::CircularInterpolate(Direction::Clockwise))
            } else {
                (modes, Action::CircularInterpolate(Direction::Anticlockwise))
            }
        } else if major == 4 {
            if has_argument(letters, 'P') {
                (modes, Action::Dwell)
            } else {
                (modes, missing_argument('P'))
            }
        } else if major == 20 {
            (Modes { units: Units::Inches, ..modes }, Action::ModesChanged)
        } else if major == 21 {
            (Modes { units: Units::Millimetres, ..modes }, Action::ModesChanged)
        } else if major == 90 {
            (Modes { coordinate_mode: CoordinateMode::Absolute, ..modes }, Action::ModesChanged)
        } else if major == 91 {
            (Modes { coordinate_mode: CoordinateMode::Relative, ..modes }, Action::ModesChanged)
        } else {
            (modes, Action::Unsupported)
        },
        _ => (modes, Action::Unsupported),
    }
}

/// Only the four mode switches (`G20`, `G21`, `G90`, `G91`) change the
/// translator's modes; every other command leaves them as they were.
pub proof fn lemma_only_mode_switches_change_modes(
    modes: Modes,
    mnemonic: Mnemonic,
    major: u32,
    letters: Seq<char>,
)
    ensures
        planned(modes, mnemonic, major, letters).0 != modes ==> mnemonic == Mnemonic::General && (
        major == 20 || major == 21 || major == 90 || major == 91),
        planned(modes, mnemonic, major, letters).1 == Action::ModesChanged <==> (mnemonic
            == Mnemonic::General && (major == 20 || major == 21 || major == 90 || major == 91)),
{
}

/// `G20`/`G21` switch the units to inches/millimetres and leave the
/// coordinate mode as it was; `G90`/`G91` switch to absolute/relative
/// coordinates and leave the units as they were. Each answers that the
/// modes changed, whatever the arguments. So in the usual `G20 G90`
/// preamble the inches chosen first are kept.
pub proof fn lemma_mode_switches_change_one_mode(modes: Modes, letters: Seq<char>)
    ensures
        planned(modes, Mnemonic::General, 20, letters) == (
            Modes { coordinate_mode: modes.coordinate_mode, units: Units::Inches },
            Action::ModesChanged,
        ),
        planned(modes, Mnemonic::General, 21, letters) == (
            Modes { coordinate_mode: modes.coordinate_mode, units: Units::Millimetres },
            Action::ModesChanged,
        ),
        planned(modes, Mnemonic::General, 90, letters) == (
            Modes { coordinate_mode: CoordinateMode::Absolute, units: modes.units },
            Action::ModesChanged,
        ),
        planned(modes, Mnemonic::General, 91, letters) == (
            Modes { coordinate_mode: CoordinateMode::Relative, units: modes.units },
            Action::ModesChanged,
        ),
{
}

/// A unit switch and a coordinate switch can be given in either order: the
/// modes after both are the same.
pub proof fn lemma_unit_and_coordinate_switches_commute(
    modes: Modes,
    units_major: u32,
    coordinates_major: u32,
    letters: Seq<char>,
)
    requires
        units_major == 20 || units_major == 21,
        coordinates_major == 90 || coordinates_major == 91,
    ensures
        planned(
            planned(modes, Mnemonic::General, units_major, letters).0,
            Mnemonic::General,
            coordinates_major,
            letters,
        ).0 == planned(
            planned(modes, Mnemonic::General, coordinates_major, letters).0,
            Mnemonic::General,
            units_major,
            letters,
        ).0,
{
}

/// Does the list of argument letters hold this letter, in either case?
pub fn find_argument(letters: &[char], letter: char) -> (r: bool)
    requires
        'A' <= letter <= 'Z',
    ensures
        r <==> has_argument(letters@, letter),
{
    let lower = lower_ascii(letter);
    let mut i: usize = 0;
    while i < letters.len()
        invariant
            i <= letters@.len(),
            lower == lowercase(letter),
            forall|j: int| 0 <= j < i ==> letters@[j] != letter && letters@[j] != lowercase(letter),
        decreases letters@.len() - i,
    {
        if letters[i] == letter || letters[i] == lower {
            return true;
        }
        i = i + 1;
    }
    false
}

/// The lower-case form of an upper-case ASCII letter.
fn lower_ascii(letter: char) -> (r: char)
    requires
        'A' <= letter <= 'Z',
    ensures
        r == lowercase(letter),
{
    match letter {
        'A' => 'a',
        'B' => 'b',
        'C' => 'c',
        'D' => 'd',
        'E' => 'e',
        'F' => 'f',
        'G' => 'g',
        'H' => 'h',
        'I' => 'i',
        'J' => 'j',
        'K' => 'k',
        'L' => 'l',
        'M' => 'm',
        'N' => 'n',
        'O' => 'o',
        'P' => 'p',
        'Q' => 'q',
        'R' => 'r',
        'S' => 's',
        'T' => 't',
        'U' => 'u',
        'V' => 'v',
        'W' => 'w',
        'X' => 'x',
        'Y' => 'y',
        _ => 'z',
    }
}

impl Modes {
    /// Millimetres and absolute coordinates.
    pub fn new() -> (r: Modes)
        ensures
            r.coordinate_mode == CoordinateMode::Absolute,
            r.units == Units::Millimetres,
    {
        Modes { coordinate_mode: CoordinateMode::Absolute, units: Units::Millimetres }
    }

    /// Decide what a command asks for: `M30` ends the program; `G00` and
    /// `G01` are straight moves; `G02` (clockwise) and `G03` (anticlockwise)
    /// are arcs, which need the `I` and `J` arguments for their centre;
    /// `G04` dwells for the time in its `P` argument; `G20`/`G21` switch to
    /// inches/millimetres and `G90`/`G91` to absolute/relative coordinates.
    /// Anything else is unsupported. Only the four mode switches change the
    /// modes.
    pub fn plan(&mut self, mnemonic: Mnemonic, major_number: u32, letters: &[char]) -> (r: Action)
        ensures
            (*final(self), r) == planned(*old(self), mnemonic, major_number, letters@),
    {
        match mnemonic {
            Mnemonic::Miscellaneous => self.handle_miscellaneous(major_number),
            Mnemonic::General => self.handle_general(major_number, letters),
            _ => Action::Unsupported,
        }
    }

    fn handle_miscellaneous(&mut self, major_number: u32) -> (r: Action)
        ensures
            *final(self) == *old(self),
            major_number == 30 ==> r == Action::EndOfProgram,
            major_number != 30 ==> r == Action::Unsupported,
    {
        match major_number {
            30 => Action::EndOfProgram,
            _ => Action::Unsupported,
        }
    }

    fn handle_general(&mut self, major_number: u32, letters: &[char]) -> (r: Action)
        ensures
            (*final(self), r) == planned(*old(self), Mnemonic::General, major_number, letters@),
    {
        match major_number {
            0 | 1 => Action::LinearInterpolate,
            2 | 3 => self.handle_circular_interpolate(major_number, letters),
            4 => self.handle_dwell(letters),
            20 => {
                self.units = Units::Inches;
                Action::ModesChanged
            },
            21 => {
                self.units = Units::Millimetres;
                Action::ModesChanged
            },
            90 => {
                self.coordinate_mode = CoordinateMode::Absolute;
                Action::ModesChanged
            },
            91 => {
                self.coordinate_mode = CoordinateMode::Relative;
                Action::ModesChanged
            },
            _ => Action::Unsupported,
        }
    }

    fn handle_dwell(&self, letters: &[char]) -> (r: Action)
        ensures
            has_argument(letters@, 'P') ==> r == Action::Dwell,
            !has_argument(letters@, 'P') ==> r == missing_argument('P'),
    {
        if find_argument(letters, 'P') {
            Action::Dwell
        } else {
            Action::InvalidArgument { arg: 'P', reason: "Dwell time not provided" }
        }
    }

    /// The centre of an arc needs both the `I` and the `J` argument.
    fn handle_circular_interpolate(&self, major_number: u32, letters: &[char]) -> (r: Action)
        requires
            major_number == 2 || major_number == 3,
        ensures
            !has_argument(letters@, 'I') ==> r == missing_argument('I'),
            has_argument(letters@, 'I') && !has_argument(letters@, 'J') ==> r == missing_argument(
                'J',
            ),
            has_argument(letters@, 'I') && has_argument(letters@, 'J') && major_number == 2 ==> r
                == Action::CircularInterpolate(Direction::Clockwise),
            has_argument(letters@, 'I') && has_argument(letters@, 'J') && major_number == 3 ==> r
                == Action::CircularInterpolate(Direction::Anticlockwise),
    {
        let direction = if major_number == 2 {
            Direction::Clockwise
        } else {
            Direction::Anticlockwise
        };
        if !find_argument(letters, 'I') {
            return Action::InvalidArgument { arg: 'I', reason: "Missing" };
        }
        if !find_argument(letters, 'J') {
            return Action::InvalidArgument { arg: 'J', reason: "Missing" };
        }
        Action::CircularInterpolate(direction)
    }
}

impl Default for Modes {
    fn default() -> (r: Modes)
        ensures
            r.coordinate_mode == CoordinateMode::Absolute,
            r.units == Units::Millimetres,
    {
        Modes::new()
    }
}

} // verus!

use aimc::motion::movements::{Action, CoordinateMode, Direction, Mnemonic, Modes, Units};

/// What the translator sees of a parsed command: its mnemonic, its major
/// number and the letters of its arguments.
struct Command {
    mnemonic: Mnemonic,
    major: u32,
    letters: Vec<char>,
    dwell_time: Option<f32>,
}

fn parse(src: &str) -> Command {
    let lines: Vec<_> = gcode::parse(src).collect();
    assert_eq!(lines.len(), 1);
    let line = &lines[0];
    assert!(line.comments().is_empty());
    let commands = line.gcodes();
    assert_eq!(commands.len(), 1);
    let command = &commands[0];
    let mnemonic = match command.mnemonic() {
        gcode::Mnemonic::General => Mnemonic::General,
        gcode::Mnemonic::Miscellaneous => Mnemonic::Miscellaneous,
        gcode::Mnemonic::ProgramNumber => Mnemonic::ProgramNumber,
        gcode::Mnemonic::ToolChange => Mnemonic::ToolChange,
    };
    Command {
        mnemonic,
        major: command.major_number(),
        letters: command.arguments().iter().map(|w| w.letter).collect(),
        dwell_time: command.value_for('P'),
    }
}

fn translate(modes: &mut Modes, src: &str) -> Action {
    let command = parse(src);
    modes.plan(command.mnemonic, command.major, &command.letters)
}

#[test]
fn switch_to_inches() {
    let mut trans = Modes { units: Units::Millimetres, ..Modes::default() };
    translate(&mut trans, "G20");
    assert_eq!(trans.units, Units::Inches);
}

#[test]
fn switch_to_millimeters() {
    let mut trans = Modes { units: Units::Inches, ..Modes::default() };
    translate(&mut trans, "G21");
    assert_eq!(trans.units, Units::Millimetres);
}

#[test]
fn switch_to_absolute() {
    let mut trans = Modes { coordinate_mode: CoordinateMode::Relative, ..Modes::default() };
    translate(&mut trans, "G90");
    assert_eq!(trans.coordinate_mode, CoordinateMode::Absolute);
}

#[test]
fn switch_to_relative() {
    let mut trans = Modes { coordinate_mode: CoordinateMode::Absolute, ..Modes::default() };
    translate(&mut trans, "G91");
    assert_eq!(trans.coordinate_mode, CoordinateMode::Relative);
}

#[test]
fn dwell() {
    let mut trans = Modes::default();
    let command = parse("G04 P1.0");

    let action = trans.plan(command.mnemonic, command.major, &command.letters);

    assert_eq!(action, Action::Dwell);
    let period = std::time::Duration::from_secs_f32(command.dwell_time.unwrap());
    assert_eq!(period, std::time::Duration::from_secs(1));
}

#[test]
fn dwell_period_is_required() {
    let mut trans = Modes::default();
    let action = translate(&mut trans, "G04");
    match action {
        Action::InvalidArgument { arg, reason } => {
            assert_eq!('P', arg);
            assert_eq!(reason, "Dwell time not provided");
        },
        other => panic!("expected an invalid argument, got {:?}", other),
    }
}

#[test]
fn unsupported_g_command() {
    let mut trans = Modes::default();
    assert_eq!(translate(&mut trans, "G42"), Action::Unsupported);
}

#[test]
fn unsupported_m_command() {
    let mut trans = Modes::default();
    assert_eq!(translate(&mut trans, "M42"), Action::Unsupported);
}

#[test]
fn unsupported_mnemonic() {
    let mut trans = Modes::default();
    assert_eq!(translate(&mut trans, "T42"), Action::Unsupported);
}

#[test]
fn linear_moves() {
    let mut trans = Modes::default();
    assert_eq!(translate(&mut trans, "G01 X50 Y10 Z-5 F1000.0"), Action::LinearInterpolate);
    assert_eq!(translate(&mut trans, "G00 X1"), Action::LinearInterpolate);
    assert_eq!(trans, Modes::default());
}

#[test]
fn circular_moves_need_a_centre() {
    let mut trans = Modes::default();
    assert_eq!(
        translate(&mut trans, "G02 X10 Y-5 I5 J90 F1000.0"),
        Action::CircularInterpolate(Direction::Clockwise)
    );
    assert_eq!(
        translate(&mut trans, "G03 X10 Y-5 I5 J90"),
        Action::CircularInterpolate(Direction::Anticlockwise)
    );
    assert_eq!(
        translate(&mut trans, "G02 X10 J90"),
        Action::InvalidArgument { arg: 'I', reason: "Missing" }
    );
    assert_eq!(
        translate(&mut trans, "G03 X10 I5"),
        Action::InvalidArgument { arg: 'J', reason: "Missing" }
    );
}

#[test]
fn argument_letters_are_case_insensitive() {
    let mut trans = Modes::default();
    assert_eq!(
        trans.plan(Mnemonic::General, 2, &['i', 'j']),
        Action::CircularInterpolate(Direction::Clockwise)
    );
    assert_eq!(trans.plan(Mnemonic::General, 4, &['p']), Action::Dwell);
}

#[test]
fn end_of_program() {
    let mut trans = Modes::default();
    assert_eq!(translate(&mut trans, "M30"), Action::EndOfProgram);
    assert_eq!(trans.plan(Mnemonic::ProgramNumber, 30, &[]), Action::Unsupported);
}

#[test]
fn mode_switches_report_a_mode_change() {
    let mut trans = Modes::new();
    assert_eq!(translate(&mut trans, "G20"), Action::ModesChanged);
    assert_eq!(translate(&mut trans, "G91"), Action::ModesChanged);
    assert_eq!(trans, Modes { units: Units::Inches, coordinate_mode: CoordinateMode::Relative });
    // other commands leave the modes alone
    translate(&mut trans, "G01 X1");
    translate(&mut trans, "G42");
    assert_eq!(trans, Modes { units: Units::Inches, coordinate_mode: CoordinateMode::Relative });
}

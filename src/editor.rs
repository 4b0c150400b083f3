use vstd::prelude::*;

verus! {

/// What the editor is doing.
#[derive(Debug, Default, Clone, Copy, PartialEq, Eq, Structural)]
pub enum Mode {
    #[default]
    Normal,
    Edit,
    Insert,
    SelectFile,
}

impl Mode {
    /// Whether a save file is being edited.
    pub fn is_editing(&self) -> (r: bool)
        ensures
            r == (*self == Mode::Edit || *self == Mode::Insert),
    {
        match self {
            Mode::Edit | Mode::Insert => true,
            _ => false,
        }
    }
}

/// The parts of the editor's screen.
#[derive(Debug, Default, Clone, Copy, PartialEq, Eq, Structural)]
pub enum Section {
    #[default]
    General,
    Glyphs,
    Murals,
    Companions,
}

/// A direction of movement.
#[derive(Debug, Clone, Copy, PartialEq, Eq, Structural)]
pub enum Direction {
    Left,
    Right,
    Up,
    Down,
}

/// A request that a key press makes of the editor.
#[derive(Debug, Clone, Copy, PartialEq, Eq, Structural)]
pub enum Message {
    Exit,
    SetMode(Mode),
    LoadFile,
    SaveFile,
    ToggleFileWatch,
    StartEditEntry,
    CommitEditEntry,
    CancelEditEntry,
    NextEntryValue,
    PreviousEntryValue,
    ReloadFile,
    MoveSection(Direction),
    MoveCur(Direction),
}

/// The section reached from `section` by moving in `direction`: left and right switch between
/// the companions and the general section; up and down cycle through the general, glyph and
/// mural sections and leave the companions where they are.
pub open spec fn section_after(section: Section, direction: Direction) -> Section {
    match direction {
        Direction::Left | Direction::Right => if section == Section::Companions {
            Section::General
        } else {
            Section::Companions
        },
        Direction::Down => match section {
            Section::General => Section::Glyphs,
            Section::Glyphs => Section::Murals,
            Section::Murals => Section::General,
            Section::Companions => Section::Companions,
        },
        Direction::Up => match section {
            Section::General => Section::Murals,
            Section::Murals => Section::Glyphs,
            Section::Glyphs => Section::General,
            Section::Companions => Section::Companions,
        },
    }
}

/// The section reached from `section` by moving in `direction`.
pub fn move_section(section: Section, direction: Direction) -> (r: Section)
    ensures
        r == section_after(section, direction),
{
    match (direction, section) {
        (Direction::Left, Section::Companions) => Section::General,
        (Direction::Left, _) => Section::Companions,
        (Direction::Right, Section::Companions) => Section::General,
        (Direction::Right, _) => Section::Companions,
        (Direction::Down, Section::General) => Section::Glyphs,
        (Direction::Down, Section::Glyphs) => Section::Murals,
        (Direction::Down, Section::Murals) => Section::General,
        (Direction::Down, s) => s,
        (Direction::Up, Section::General) => Section::Murals,
        (Direction::Up, Section::Murals) => Section::Glyphs,
        (Direction::Up, Section::Glyphs) => Section::General,
        (Direction::Up, s) => s,
    }
}

/// The row selected after moving the selection `selected` of a table up or down within the rows
/// `min..=max`; the selection stays where it is at either end, for left and right, and when
/// nothing is selected.
pub fn select_row_in_range(selected: Option<usize>, direction: Direction, min: usize, max: usize) -> (r: Option<usize>)
    ensures
        r == match (direction, selected) {
            (Direction::Up, Some(i)) => if i <= min {
                Some(i)
            } else {
                Some((i - 1) as usize)
            },
            (Direction::Down, Some(i)) => if i >= max {
                Some(i)
            } else {
                Some((i + 1) as usize)
            },
            _ => selected,
        },
{
    match (direction, selected) {
        (Direction::Up, Some(i)) => {
            if i <= min {
                Some(i)
            } else {
                Some(i - 1)
            }
        },
        (Direction::Down, Some(i)) => {
            if i >= max {
                Some(i)
            } else {
                Some(i + 1)
            }
        },
        _ => selected,
    }
}

} // verus!

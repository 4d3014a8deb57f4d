//! The window and the keys that steer the camera through the scene.

use vstd::prelude::*;

verus! {

/// The size of the window in pixels.
pub struct Screen {
    pub width: u32,
    pub height: u32,
}

/// What the arrow keys do.
#[derive(Debug, PartialEq, Eq, Structural, Clone, Copy)]
pub enum ActionMode {
    GlobalMoveXY,
    GlobalMoveXZ,
    GlobalRotateXZ,
    GlobalRotateXY,
    GlobalMoveRot,
}

/// The keys that steer.
#[derive(Debug, PartialEq, Eq, Structural, Clone, Copy)]
pub enum SteerKey {
    Up,
    Down,
    Left,
    Right,
    /// Takes the next mode.
    P,
    Other,
}

/// What a key asks of the camera. Angles turn by `ANGLE_STEP` degrees and
/// positions move by a tenth; both come with the direction, which is true
/// for more and false for less.
#[derive(Debug, PartialEq, Eq, Structural, Clone, Copy)]
pub enum CameraAction {
    Nothing,
    TurnX(bool),
    TurnY(bool),
    TurnZ(bool),
    MoveX(bool),
    MoveY(bool),
    MoveZ(bool),
    /// Puts the eye at a distance of one and a half behind the scene, or
    /// before it.
    EyeZ(bool),
}

/// The degrees that a key turns the camera by.
pub const ANGLE_STEP: i16 = 5;

/// The mode that the key `P` takes after `mode`.
pub open spec fn next_mode(mode: ActionMode) -> ActionMode {
    match mode {
        ActionMode::GlobalRotateXZ => ActionMode::GlobalRotateXY,
        ActionMode::GlobalRotateXY => ActionMode::GlobalMoveXY,
        ActionMode::GlobalMoveXY => ActionMode::GlobalMoveXZ,
        ActionMode::GlobalMoveXZ => ActionMode::GlobalMoveRot,
        ActionMode::GlobalMoveRot => ActionMode::GlobalRotateXZ,
    }
}

/// What an arrow key asks of the camera in a mode.
pub open spec fn key_action(mode: ActionMode, key: SteerKey) -> CameraAction {
    match (mode, key) {
        (ActionMode::GlobalRotateXZ, SteerKey::Up) => CameraAction::TurnX(true),
        (ActionMode::GlobalRotateXZ, SteerKey::Down) => CameraAction::TurnX(false),
        (ActionMode::GlobalRotateXZ, SteerKey::Left) => CameraAction::TurnZ(true),
        (ActionMode::GlobalRotateXZ, SteerKey::Right) => CameraAction::TurnZ(false),
        (ActionMode::GlobalRotateXY, SteerKey::Up) => CameraAction::TurnX(true),
        (ActionMode::GlobalRotateXY, SteerKey::Down) => CameraAction::TurnX(false),
        (ActionMode::GlobalRotateXY, SteerKey::Left) => CameraAction::TurnY(true),
        (ActionMode::GlobalRotateXY, SteerKey::Right) => CameraAction::TurnY(false),
        (ActionMode::GlobalMoveXY, SteerKey::Up) => CameraAction::MoveX(true),
        (ActionMode::GlobalMoveXY, SteerKey::Down) => CameraAction::MoveX(false),
        (ActionMode::GlobalMoveXY, SteerKey::Left) => CameraAction::MoveY(true),
        (ActionMode::GlobalMoveXY, SteerKey::Right) => CameraAction::MoveY(false),
        (ActionMode::GlobalMoveXZ, SteerKey::Up) => CameraAction::MoveZ(true),
        (ActionMode::GlobalMoveXZ, SteerKey::Down) => CameraAction::MoveZ(false),
        (ActionMode::GlobalMoveXZ, SteerKey::Left) => CameraAction::MoveZ(true),
        (ActionMode::GlobalMoveXZ, SteerKey::Right) => CameraAction::MoveZ(false),
        (ActionMode::GlobalMoveRot, SteerKey::Up) => CameraAction::EyeZ(false),
        (ActionMode::GlobalMoveRot, SteerKey::Down) => CameraAction::EyeZ(true),
        (ActionMode::GlobalMoveRot, SteerKey::Left) => CameraAction::TurnZ(false),
        (ActionMode::GlobalMoveRot, SteerKey::Right) => CameraAction::TurnZ(true),
        _ => CameraAction::Nothing,
    }
}

impl ActionMode {
    /// Takes a key: `P` takes the next mode, an arrow asks the camera for
    /// what the mode has for it, and any other key does nothing.
    pub fn process_key(&mut self, key: SteerKey) -> (action: CameraAction)
        ensures
            *final(self) == (if key == SteerKey::P {
                next_mode(*old(self))
            } else {
                *old(self)
            }),
            action == key_action(*old(self), key),
    {
        match self {
            Self::GlobalRotateXZ => match key {
                SteerKey::Up => CameraAction::TurnX(true),
                SteerKey::Down => CameraAction::TurnX(false),
                SteerKey::Left => CameraAction::TurnZ(true),
                SteerKey::Right => CameraAction::TurnZ(false),
                SteerKey::P => {
                    *self = Self::GlobalRotateXY;
                    CameraAction::Nothing
                },
                _ => CameraAction::Nothing,
            },
            Self::GlobalRotateXY => match key {
                SteerKey::Up => CameraAction::TurnX(true),
                SteerKey::Down => CameraAction::TurnX(false),
                SteerKey::Left => CameraAction::TurnY(true),
                SteerKey::Right => CameraAction::TurnY(false),
                SteerKey::P => {
                    *self = Self::GlobalMoveXY;
                    CameraAction::Nothing
                },
                _ => CameraAction::Nothing,
            },
            Self::GlobalMoveXY => match key {
                SteerKey::Up => CameraAction::MoveX(true),
                SteerKey::Down => CameraAction::MoveX(false),
                SteerKey::Left => CameraAction::MoveY(true),
                SteerKey::Right => CameraAction::MoveY(false),
                SteerKey::P => {
                    *self = Self::GlobalMoveXZ;
                    CameraAction::Nothing
                },
                _ => CameraAction::Nothing,
            },
            Self::GlobalMoveXZ => match key {
                SteerKey::Up => CameraAction::MoveZ(true),
                SteerKey::Down => CameraAction::MoveZ(false),
                SteerKey::Left => CameraAction::MoveZ(true),
                SteerKey::Right => CameraAction::MoveZ(false),
                SteerKey::P => {
                    *self = Self::GlobalMoveRot;
                    CameraAction::Nothing
                },
                _ => CameraAction::Nothing,
            },
            Self::GlobalMoveRot => match key {
                SteerKey::Up => CameraAction::EyeZ(false),
                SteerKey::Down => CameraAction::EyeZ(true),
                SteerKey::Left => CameraAction::TurnZ(false),
                SteerKey::Right => CameraAction::TurnZ(true),
                SteerKey::P => {
                    *self = Self::GlobalRotateXZ;
                    CameraAction::Nothing
                },
                _ => CameraAction::Nothing,
            },
        }
    }
}

/// The place of the program that comes after place `index` of `len`
/// programs, going round.
pub fn next_program(index: usize, len: usize) -> (next: usize)
    requires
        len > 0,
        index < usize::MAX,
    ensures
        next == (index + 1) % (len as int),
{
    (index + 1) % len
}

/// The place of the program that comes before place `index` of `len`
/// programs, going round. Without programs the place stays.
pub fn prev_program(index: usize, len: usize) -> (prev: usize)
    ensures
        len == 0 ==> prev == index,
        len > 0 && index == 0 ==> prev == len - 1,
        len > 0 && index > 0 ==> prev == (index - 1) % (len as int),
{
    if len == 0 {
        return index;
    }
    if index == 0 {
        len - 1
    } else {
        (index - 1) % len
    }
}


/// The number of the last level.
pub const LAST_LEVEL: u8 = 25;

/// The level that comes after level `level`: after the last level comes the
/// first.
pub fn next_level(level: u8) -> (next: u8)
    requires
        level < u8::MAX,
    ensures
        next == (if (level + 1) % 26 == 0 {
            1
        } else {
            (level + 1) % 26
        }),
        1 <= next <= LAST_LEVEL,
{
    let next = (level + 1) % 26;
    if next == 0 {
        1
    } else {
        next
    }
}

/// The level that comes before level `level`: before the first level comes
/// the last.
pub fn prev_level(level: u8) -> (prev: u8)
    requires
        level >= 1,
    ensures
        prev == (if level == 1 {
            LAST_LEVEL as int
        } else {
            level - 1
        }),
{
    if level == 1 {
        25
    } else {
        level - 1
    }
}


/// The place of the object that comes after place `index` of `len`
/// objects; the last object stays.
pub fn next_object(index: usize, len: usize) -> (next: usize)
    requires
        index < usize::MAX,
    ensures
        next == (if index + 1 >= len {
            index as int
        } else {
            index + 1
        }),
{
    if index + 1 >= len {
        index
    } else {
        index + 1
    }
}

/// The place of the object that comes before place `index`; the first
/// object stays.
pub fn prev_object(index: usize) -> (prev: usize)
    ensures
        prev == (if index > 0 {
            index - 1
        } else {
            0
        }),
{
    if index > 0 {
        index - 1
    } else {
        index
    }
}

} // verus!

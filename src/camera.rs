use crate::command::{Action, Command, CommandHandler};
use crate::text::{chars_of, span_is, FromString, SerializeEnum};
use vstd::prelude::*;

verus! {

/// The discrete actions of the camera.
#[derive(Clone, Copy, Debug, PartialEq, Eq, Structural, Hash)]
pub enum CameraCommand {
    MoveForward,
    MoveBackward,
    MoveUp,
    MoveDown,
    MoveLeft,
    MoveRight,
    RotateLeft,
    RotateRight,
    ZoomIn,
    ZoomOut,
}

impl CameraCommand {
    /// The canonical name of this command.
    pub open spec fn spelling(self) -> Seq<char> {
        match self {
            CameraCommand::MoveForward => "camera.moveForward"@,
            CameraCommand::MoveBackward => "camera.moveBackward"@,
            CameraCommand::MoveUp => "camera.moveUp"@,
            CameraCommand::MoveDown => "camera.moveDown"@,
            CameraCommand::MoveLeft => "camera.moveLeft"@,
            CameraCommand::MoveRight => "camera.moveRight"@,
            CameraCommand::RotateLeft => "camera.rotateLeft"@,
            CameraCommand::RotateRight => "camera.rotateRight"@,
            CameraCommand::ZoomIn => "camera.zoomIn"@,
            CameraCommand::ZoomOut => "camera.zoomOut"@,
        }
    }

    /// Length, eighth and last character of this command's name: they tell commands apart.
    spec fn signature(self) -> (int, char, char) {
        match self {
            CameraCommand::MoveForward => (18, 'm', 'd'),
            CameraCommand::MoveBackward => (19, 'm', 'd'),
            CameraCommand::MoveUp => (13, 'm', 'p'),
            CameraCommand::MoveDown => (15, 'm', 'n'),
            CameraCommand::MoveLeft => (15, 'm', 't'),
            CameraCommand::MoveRight => (16, 'm', 't'),
            CameraCommand::RotateLeft => (17, 'r', 't'),
            CameraCommand::RotateRight => (18, 'r', 't'),
            CameraCommand::ZoomIn => (13, 'z', 'n'),
            CameraCommand::ZoomOut => (14, 'z', 't'),
        }
    }

    pub fn name(&self) -> (r: &'static str)
        ensures
            r@ == self.spelling(),
    {
        match self {
            CameraCommand::MoveForward => "camera.moveForward",
            CameraCommand::MoveBackward => "camera.moveBackward",
            CameraCommand::MoveUp => "camera.moveUp",
            CameraCommand::MoveDown => "camera.moveDown",
            CameraCommand::MoveLeft => "camera.moveLeft",
            CameraCommand::MoveRight => "camera.moveRight",
            CameraCommand::RotateLeft => "camera.rotateLeft",
            CameraCommand::RotateRight => "camera.rotateRight",
            CameraCommand::ZoomIn => "camera.zoomIn",
            CameraCommand::ZoomOut => "camera.zoomOut",
        }
    }
}

/// Length, eighth and last character of a sequence.
spec fn marks_of(s: Seq<char>) -> (int, char, char) {
    (s.len() as int, s[7], s[s.len() - 1])
}

/// No two camera commands share a canonical name.
pub proof fn lemma_camera_names_distinct()
    ensures
        forall|a: CameraCommand, b: CameraCommand| #[trigger] a.spelling() == #[trigger] b.spelling() ==> a == b,
{
    reveal_strlit("camera.moveForward");
    reveal_strlit("camera.moveBackward");
    reveal_strlit("camera.moveUp");
    reveal_strlit("camera.moveDown");
    reveal_strlit("camera.moveLeft");
    reveal_strlit("camera.moveRight");
    reveal_strlit("camera.rotateLeft");
    reveal_strlit("camera.rotateRight");
    reveal_strlit("camera.zoomIn");
    reveal_strlit("camera.zoomOut");
    assert forall|c: CameraCommand| marks_of(#[trigger] c.spelling()) == c.signature() by {
        match c {
            CameraCommand::MoveForward => {},
            CameraCommand::MoveBackward => {},
            CameraCommand::MoveUp => {},
            CameraCommand::MoveDown => {},
            CameraCommand::MoveLeft => {},
            CameraCommand::MoveRight => {},
            CameraCommand::RotateLeft => {},
            CameraCommand::RotateRight => {},
            CameraCommand::ZoomIn => {},
            CameraCommand::ZoomOut => {},
        }
    }
    assert forall|a: CameraCommand, b: CameraCommand| #[trigger] a.spelling() == #[trigger] b.spelling() implies a == b by {
        assert(marks_of(a.spelling()) == a.signature());
        assert(marks_of(b.spelling()) == b.signature());
    }
}

impl View for CameraCommand {
    type V = CameraCommand;

    open spec fn view(&self) -> CameraCommand {
        *self
    }
}

impl FromString for CameraCommand {
    open spec fn parse_text(s: Seq<char>) -> Option<CameraCommand> {
        if exists|c: CameraCommand| c.spelling() == s {
            Some(choose|c: CameraCommand| c.spelling() == s)
        } else {
            None
        }
    }

    fn from_string(s: &str) -> (r: Option<CameraCommand>) {
        let cs = chars_of(s);
        let n = cs.len();
        let r = 
        if span_is(&cs, 0, n, "camera.moveForward") {
            Some(CameraCommand::MoveForward)
        } else
        if span_is(&cs, 0, n, "camera.moveBackward") {
            Some(CameraCommand::MoveBackward)
        } else
        if span_is(&cs, 0, n, "camera.moveUp") {
            Some(CameraCommand::MoveUp)
        } else
        if span_is(&cs, 0, n, "camera.moveDown") {
            Some(CameraCommand::MoveDown)
        } else
        if span_is(&cs, 0, n, "camera.moveLeft") {
            Some(CameraCommand::MoveLeft)
        } else
        if span_is(&cs, 0, n, "camera.moveRight") {
            Some(CameraCommand::MoveRight)
        } else
        if span_is(&cs, 0, n, "camera.rotateLeft") {
            Some(CameraCommand::RotateLeft)
        } else
        if span_is(&cs, 0, n, "camera.rotateRight") {
            Some(CameraCommand::RotateRight)
        } else
        if span_is(&cs, 0, n, "camera.zoomIn") {
            Some(CameraCommand::ZoomIn)
        } else
        if span_is(&cs, 0, n, "camera.zoomOut") {
            Some(CameraCommand::ZoomOut)
        } else
{
            None
        };
        proof {
            assert(cs@.subrange(0, n as int) =~= s@);
            lemma_camera_names_distinct();
            if r is Some {
                assert(r->0.spelling() == s@);
            }
        }
        r
    }
}

impl SerializeEnum for CameraCommand {
    open spec fn canonical(&self) -> Seq<char> {
        self.spelling()
    }

    fn to_string(&self) -> (r: String) {
        String::from_str(self.name())
    }

    proof fn lemma_round_trip(v: CameraCommand) {
        lemma_camera_names_distinct();
    }
}

impl Action for CameraCommand {

}

impl Command for CameraCommand {

}

/// The three movement axes of the camera.
#[derive(Clone, Copy, Debug, PartialEq, Eq, Structural)]
pub enum Axis {
    Forward,
    Up,
    Right,
}

/// What a command adds to an axis: forward, up and right count 1, their
/// opposites -1, and the other commands nothing.
pub open spec fn step(c: CameraCommand, axis: Axis) -> int {
    match (c, axis) {
        (CameraCommand::MoveForward, Axis::Forward) => 1,
        (CameraCommand::MoveBackward, Axis::Forward) => -1,
        (CameraCommand::MoveUp, Axis::Up) => 1,
        (CameraCommand::MoveDown, Axis::Up) => -1,
        (CameraCommand::MoveRight, Axis::Right) => 1,
        (CameraCommand::MoveLeft, Axis::Right) => -1,
        _ => 0,
    }
}

/// The sum of the steps of the commands on one axis.
pub open spec fn total(commands: Seq<CameraCommand>, axis: Axis) -> int
    decreases commands.len(),
{
    if commands.len() == 0 {
        0
    } else {
        total(commands.drop_last(), axis) + step(commands.last(), axis)
    }
}

/// `v` clamped to the range from -1 to 1.
pub open spec fn clamp_unit(v: int) -> int {
    if v < -1 {
        -1
    } else if v > 1 {
        1
    } else {
        v
    }
}

/// The camera's movement intent: one sign per axis.
#[derive(Clone, Copy, Debug, PartialEq, Eq, Structural)]
pub struct CameraSystem {
    forward_move: i8,
    up_move: i8,
    right_move: i8,
}

impl View for CameraSystem {
    /// Forward, up and right intent.
    type V = (int, int, int);

    closed spec fn view(&self) -> (int, int, int) {
        (self.forward_move as int, self.up_move as int, self.right_move as int)
    }
}

/// The intent that a frame's commands give: each axis's total, clamped.
pub open spec fn intent_of(commands: Seq<CameraCommand>) -> (int, int, int) {
    (
        clamp_unit(total(commands, Axis::Forward)),
        clamp_unit(total(commands, Axis::Up)),
        clamp_unit(total(commands, Axis::Right)),
    )
}

/// Each step is -1, 0 or 1, so the total over `n` commands lies within `n`.
proof fn lemma_total_bounds(commands: Seq<CameraCommand>, axis: Axis)
    ensures
        -commands.len() <= total(commands, axis) <= commands.len(),
    decreases commands.len(),
{
    if commands.len() > 0 {
        lemma_total_bounds(commands.drop_last(), axis);
    }
}

impl CameraSystem {
    /// A camera with no movement intent.
    pub fn new() -> (r: Self)
        ensures
            r@ == (0int, 0int, 0int),
    {
        CameraSystem { forward_move: 0, up_move: 0, right_move: 0 }
    }

    /// Forward intent: 1 forward, -1 backward, 0 none.
    pub fn forward_move(&self) -> (r: i8)
        ensures
            r as int == self@.0,
    {
        self.forward_move
    }

    /// Up intent: 1 up, -1 down, 0 none.
    pub fn up_move(&self) -> (r: i8)
        ensures
            r as int == self@.1,
    {
        self.up_move
    }

    /// Right intent: 1 right, -1 left, 0 none.
    pub fn right_move(&self) -> (r: i8)
        ensures
            r as int == self@.2,
    {
        self.right_move
    }
}

/// Clamps `v` to the range from -1 to 1.
fn clamp_to_unit(v: i128) -> (r: i8)
    ensures
        r as int == clamp_unit(v as int),
{
    if v < -1 {
        -1
    } else if v > 1 {
        1
    } else {
        v as i8
    }
}

impl CommandHandler<CameraCommand> for CameraSystem {
    closed spec fn handled(before: CameraSystem, commands: Seq<CameraCommand>) -> CameraSystem {
        let (f, u, r) = intent_of(commands);
        CameraSystem { forward_move: f as i8, up_move: u as i8, right_move: r as i8 }
    }

    /// Replaces the intent with the one that this frame's commands give.
    fn handle(&mut self, commands: &Vec<CameraCommand>) {
        let mut forward: i128 = 0;
        let mut up: i128 = 0;
        let mut right: i128 = 0;
        let mut i: usize = 0;
        while i < commands.len()
            invariant
                i <= commands@.len(),
                forward as int == total(commands@.take(i as int), Axis::Forward),
                up as int == total(commands@.take(i as int), Axis::Up),
                right as int == total(commands@.take(i as int), Axis::Right),
            decreases commands@.len() - i,
        {
            let ghost seen = commands@.take(i as int);
            assert(commands@.take(i + 1).drop_last() =~= seen);
            proof {
                lemma_total_bounds(seen, Axis::Forward);
                lemma_total_bounds(seen, Axis::Up);
                lemma_total_bounds(seen, Axis::Right);
            }
            match commands[i] {
                CameraCommand::MoveForward => forward = forward + 1,
                CameraCommand::MoveBackward => forward = forward - 1,
                CameraCommand::MoveUp => up = up + 1,
                CameraCommand::MoveDown => up = up - 1,
                CameraCommand::MoveLeft => right = right - 1,
                CameraCommand::MoveRight => right = right + 1,
                _ => {},
            }
            i = i + 1;
        }
        assert(commands@.take(i as int) =~= commands@);
        self.forward_move = clamp_to_unit(forward);
        self.up_move = clamp_to_unit(up);
        self.right_move = clamp_to_unit(right);
    }
}

/// Handling a frame's commands replaces the intent: the state before does not matter.
pub proof fn lemma_handle_replaces(a: CameraSystem, b: CameraSystem, commands: Seq<CameraCommand>)
    ensures
        CameraSystem::handled(a, commands) == CameraSystem::handled(b, commands),
        CameraSystem::handled(a, commands)@ == intent_of(commands),
{
    let (f, u, r) = intent_of(commands);
    assert(-1 <= f <= 1 && -1 <= u <= 1 && -1 <= r <= 1);
}

} // verus!

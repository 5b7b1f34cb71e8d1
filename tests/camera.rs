use input_commands::binding::KeyBinding;
use input_commands::camera::{CameraCommand, CameraSystem};
use input_commands::command::{active_commands, CommandBinding, CommandDispatch, CommandHandler, CommandSystem};
use input_commands::keys::{InputSnapshot, Key, PhysicalKey};
use input_commands::text::{FromString, SerializeEnum};

fn all_commands() -> Vec<CameraCommand> {
    vec![
        CameraCommand::MoveForward,
        CameraCommand::MoveBackward,
        CameraCommand::MoveUp,
        CameraCommand::MoveDown,
        CameraCommand::MoveLeft,
        CameraCommand::MoveRight,
        CameraCommand::RotateLeft,
        CameraCommand::RotateRight,
        CameraCommand::ZoomIn,
        CameraCommand::ZoomOut,
    ]
}

fn axes(c: &CameraSystem) -> (i8, i8, i8) {
    (c.forward_move(), c.up_move(), c.right_move())
}

#[test]
fn command_names_round_trip() {
    for c in all_commands() {
        let name = c.to_string();
        assert_eq!(CameraCommand::from_string(&name), Some(c));
    }
}

#[test]
fn command_names() {
    assert_eq!(CameraCommand::MoveForward.to_string(), "camera.moveForward");
    assert_eq!(CameraCommand::ZoomOut.to_string(), "camera.zoomOut");
    assert_eq!(CameraCommand::from_string("camera.rotateLeft"), Some(CameraCommand::RotateLeft));
    assert_eq!(CameraCommand::from_string("CameraMoveForward"), None);
    assert_eq!(CameraCommand::from_string(""), None);
}

#[test]
fn new_camera_is_still() {
    assert_eq!(axes(&CameraSystem::new()), (0, 0, 0));
}

#[test]
fn aggregation_cancellation() {
    let mut c = CameraSystem::new();
    c.handle(&vec![CameraCommand::MoveForward, CameraCommand::MoveBackward]);
    assert_eq!(c.forward_move(), 0);
}

#[test]
fn aggregation_saturation() {
    let mut c = CameraSystem::new();
    c.handle(&vec![CameraCommand::MoveForward, CameraCommand::MoveForward]);
    assert_eq!(c.forward_move(), 1);
}

#[test]
fn aggregation_independence() {
    let mut c = CameraSystem::new();
    c.handle(&vec![CameraCommand::MoveUp, CameraCommand::MoveLeft]);
    assert_eq!(axes(&c), (0, 1, -1));
}

#[test]
fn replace_semantics() {
    let mut c = CameraSystem::new();
    c.handle(&vec![CameraCommand::MoveForward]);
    assert_eq!(c.forward_move(), 1);
    c.handle(&vec![]);
    assert_eq!(c.forward_move(), 0);
}

#[test]
fn rotate_and_zoom_move_nothing() {
    let mut c = CameraSystem::new();
    c.handle(&vec![CameraCommand::RotateLeft, CameraCommand::ZoomIn, CameraCommand::ZoomOut]);
    assert_eq!(axes(&c), (0, 0, 0));
}

#[test]
fn many_commands_do_not_overflow() {
    let mut c = CameraSystem::new();
    let mut cmds = vec![CameraCommand::MoveDown; 300];
    c.handle(&cmds);
    assert_eq!(c.up_move(), -1);
    cmds.extend(vec![CameraCommand::MoveUp; 299]);
    c.handle(&cmds);
    assert_eq!(c.up_move(), -1);
    cmds.push(CameraCommand::MoveUp);
    c.handle(&cmds);
    assert_eq!(c.up_move(), 0);
}

#[test]
fn command_queue() {
    let mut q: CommandSystem<CameraCommand> = CommandSystem::new();
    q.push_command(CameraCommand::MoveRight);
    q.push_command(CameraCommand::MoveUp);
    assert_eq!(q.pending(), &vec![CameraCommand::MoveRight, CameraCommand::MoveUp]);
    let taken = q.take();
    assert_eq!(taken, vec![CameraCommand::MoveRight, CameraCommand::MoveUp]);
    assert!(q.pending().is_empty());
    let mut c = CameraSystem::new();
    c.handle(&taken);
    assert_eq!(axes(&c), (0, 1, 1));
}

#[test]
fn command_binding_any_of() {
    let forward = CommandBinding::new(
        CameraCommand::MoveForward,
        vec![
            KeyBinding::new(Key::ArrowUp, vec![]),
            KeyBinding::from_string("Z").unwrap(),
        ],
    );
    assert_eq!(forward.action(), CameraCommand::MoveForward);
    assert!(forward.is_pressed(&InputSnapshot::from_keys(vec![PhysicalKey::KeyZ])));
    assert!(forward.is_pressed(&InputSnapshot::from_keys(vec![PhysicalKey::ArrowUp])));
    assert!(!forward.is_pressed(&InputSnapshot::from_keys(vec![PhysicalKey::KeyS])));
    let unbound: CommandBinding<CameraCommand> = CommandBinding::new(CameraCommand::ZoomIn, vec![]);
    assert!(!unbound.is_pressed(&InputSnapshot::from_keys(vec![PhysicalKey::KeyZ])));
}

#[test]
fn active_commands_in_table_order() {
    let table = vec![
        CommandBinding::new(CameraCommand::MoveForward, vec![KeyBinding::new(Key::Z, vec![])]),
        CommandBinding::new(CameraCommand::MoveBackward, vec![KeyBinding::new(Key::S, vec![])]),
        CommandBinding::new(CameraCommand::MoveLeft, vec![KeyBinding::new(Key::Q, vec![])]),
        CommandBinding::new(CameraCommand::MoveForward, vec![KeyBinding::new(Key::ArrowUp, vec![])]),
    ];
    let snap = InputSnapshot::from_keys(vec![PhysicalKey::ArrowUp, PhysicalKey::KeyQ, PhysicalKey::KeyZ]);
    let active = active_commands(&table, &snap);
    assert_eq!(active, vec![CameraCommand::MoveForward, CameraCommand::MoveLeft, CameraCommand::MoveForward]);
    let mut c = CameraSystem::new();
    c.handle(&active);
    assert_eq!(axes(&c), (1, 0, -1));
}

use input_commands::binding::KeyBinding;
use input_commands::keys::{InputSnapshot, Key, KeyInput, Modifier, PhysicalKey};
use input_commands::text::{FromString, Serialize, SerializeEnum};

fn all_keys() -> Vec<Key> {
    vec![
        Key::A, Key::B, Key::C, Key::D, Key::E, Key::F, Key::G, Key::H, Key::I, Key::J,
        Key::K, Key::L, Key::M, Key::N, Key::O, Key::P, Key::Q, Key::R, Key::S, Key::T,
        Key::U, Key::V, Key::W, Key::X, Key::Y, Key::Z, Key::Num0, Key::Num1, Key::Num2,
        Key::Num3, Key::Num4, Key::Num5, Key::Num6, Key::Num7, Key::Num8, Key::Num9,
        Key::Escape, Key::Enter, Key::Space, Key::Backspace, Key::ArrowLeft, Key::ArrowRight,
        Key::ArrowUp, Key::ArrowDown, Key::Tab,
    ]
}

fn all_modifiers() -> Vec<Modifier> {
    vec![Modifier::Shift, Modifier::Ctrl, Modifier::Alt, Modifier::Super]
}

#[test]
fn key_names_round_trip() {
    let keys = all_keys();
    assert_eq!(keys.len(), 45);
    for k in keys {
        let name = k.to_string();
        assert_eq!(Key::from_string(&name), Some(k));
    }
}

#[test]
fn key_names_are_distinct() {
    let names: Vec<String> = all_keys().iter().map(|k| k.to_string()).collect();
    for i in 0..names.len() {
        for j in 0..names.len() {
            if i != j {
                assert_ne!(names[i], names[j]);
            }
        }
    }
}

#[test]
fn modifier_names_round_trip() {
    for m in all_modifiers() {
        let name = m.to_string();
        assert_eq!(Modifier::from_string(&name), Some(m));
    }
}

#[test]
fn canonical_names() {
    assert_eq!(Key::A.to_string(), "A");
    assert_eq!(Key::Num0.to_string(), "0");
    assert_eq!(Key::Num9.to_string(), "9");
    assert_eq!(Key::ArrowLeft.to_string(), "ArrowLeft");
    assert_eq!(Key::Backspace.to_string(), "Backspace");
    assert_eq!(Modifier::Ctrl.to_string(), "Ctrl");
    assert_eq!(Modifier::Super.to_string(), "Super");
    assert_eq!(Key::from_string("Escape"), Some(Key::Escape));
    assert_eq!(Key::from_string("7"), Some(Key::Num7));
    assert_eq!(Modifier::from_string("Alt"), Some(Modifier::Alt));
}

#[test]
fn unknown_names_are_rejected() {
    assert_eq!(Key::from_string("a"), None);
    assert_eq!(Key::from_string(""), None);
    assert_eq!(Key::from_string("Num0"), None);
    assert_eq!(Key::from_string("Shift"), None);
    assert_eq!(Modifier::from_string("shift"), None);
    assert_eq!(Modifier::from_string("A"), None);
    assert_eq!(Modifier::from_string("Control"), None);
}

#[test]
fn binding_text_form() {
    let b = KeyBinding::new(Key::A, vec![Modifier::Ctrl, Modifier::Shift]);
    assert_eq!(b.to_string(), "Ctrl + Shift + A");
    let bare = KeyBinding::new(Key::Space, vec![]);
    assert_eq!(bare.to_string(), "Space");
}

#[test]
fn binding_round_trip() {
    let b = KeyBinding::new(Key::ArrowUp, vec![Modifier::Alt, Modifier::Super, Modifier::Ctrl]);
    let back = KeyBinding::from_string(&b.to_string()).unwrap();
    assert_eq!(back.key(), Key::ArrowUp);
    assert_eq!(back.modifiers(), &vec![Modifier::Alt, Modifier::Super, Modifier::Ctrl]);
}

#[test]
fn binding_parses_modifiers_and_key() {
    let b = KeyBinding::from_string("Ctrl + A").unwrap();
    assert_eq!(b.key(), Key::A);
    assert_eq!(b.modifiers(), &vec![Modifier::Ctrl]);
}

#[test]
fn binding_drops_unknown_modifier() {
    let b = KeyBinding::from_string("BogusMod + A").unwrap();
    assert_eq!(b.key(), Key::A);
    assert!(b.modifiers().is_empty());
}

#[test]
fn binding_without_separator() {
    let b = KeyBinding::from_string("A").unwrap();
    assert_eq!(b.key(), Key::A);
    assert!(b.modifiers().is_empty());
}

#[test]
fn binding_without_key_is_rejected() {
    assert!(KeyBinding::from_string("Ctrl + Shift").is_none());
    assert!(KeyBinding::from_string("").is_none());
    assert!(KeyBinding::from_string("Ctrl+A").is_none());
    assert!(KeyBinding::from_string("Ctrl + A + ").is_none());
}

#[test]
fn chord_activation() {
    let snap = InputSnapshot::from_keys(vec![PhysicalKey::ControlLeft, PhysicalKey::KeyA]);
    let ctrl_a = KeyBinding::from_string("Ctrl + A").unwrap();
    let ctrl_shift_a = KeyBinding::from_string("Ctrl + Shift + A").unwrap();
    assert!(ctrl_a.is_pressed(&snap));
    assert!(!ctrl_shift_a.is_pressed(&snap));
}

#[test]
fn chord_needs_its_key() {
    let mut snap = InputSnapshot::new();
    snap.press(PhysicalKey::ControlRight);
    let ctrl_a = KeyBinding::new(Key::A, vec![Modifier::Ctrl]);
    assert!(!ctrl_a.is_pressed(&snap));
    snap.press(PhysicalKey::KeyA);
    assert!(ctrl_a.is_pressed(&snap));
    let bare_b = KeyBinding::new(Key::B, vec![]);
    assert!(!bare_b.is_pressed(&snap));
}

#[test]
fn modifier_either_side() {
    let left = InputSnapshot::from_keys(vec![PhysicalKey::ShiftLeft]);
    let right = InputSnapshot::from_keys(vec![PhysicalKey::ShiftRight]);
    let none = InputSnapshot::from_keys(vec![PhysicalKey::KeyS]);
    assert!(Modifier::Shift.is_pressed(&left));
    assert!(Modifier::Shift.is_pressed(&right));
    assert!(!Modifier::Shift.is_pressed(&none));
    assert!(!Modifier::Alt.is_pressed(&left));
    assert!(Key::S.is_pressed(&none));
    assert!(snapshot_has(&none, PhysicalKey::KeyS));
}

fn snapshot_has(s: &InputSnapshot, k: PhysicalKey) -> bool {
    s.is_held(k)
}

#[test]
fn decode_physical_keys() {
    assert_eq!(Key::from_keycode(PhysicalKey::KeyQ), Some(Key::Q));
    assert_eq!(Key::from_keycode(PhysicalKey::Digit5), Some(Key::Num5));
    assert_eq!(Key::from_keycode(PhysicalKey::ShiftLeft), None);
    assert_eq!(Modifier::from_keycode(PhysicalKey::ControlRight), Some(Modifier::Ctrl));
    assert_eq!(Modifier::from_keycode(PhysicalKey::SuperLeft), Some(Modifier::Super));
    assert_eq!(Modifier::from_keycode(PhysicalKey::Tab), None);
    assert_eq!(Key::A.to_physical(), PhysicalKey::KeyA);
}

#[test]
fn binding_from_keycodes() {
    let b = KeyBinding::from_keycodes(vec![
        PhysicalKey::ShiftLeft,
        PhysicalKey::KeyA,
        PhysicalKey::KeyB,
        PhysicalKey::ShiftRight,
        PhysicalKey::AltLeft,
    ])
    .unwrap();
    assert_eq!(b.key(), Key::A);
    assert_eq!(b.modifiers(), &vec![Modifier::Shift, Modifier::Alt]);
}

#[test]
fn binding_from_keycodes_needs_a_key() {
    assert!(KeyBinding::from_keycodes(vec![PhysicalKey::ShiftLeft, PhysicalKey::ControlLeft]).is_none());
    assert!(KeyBinding::from_keycodes(vec![]).is_none());
    let b = KeyBinding::from_keycodes(vec![PhysicalKey::Enter]).unwrap();
    assert_eq!(b.key(), Key::Enter);
    assert!(b.modifiers().is_empty());
}

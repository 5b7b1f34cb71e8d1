use crate::text::{chars_of, span_is, FromString, SerializeEnum};
use vstd::prelude::*;

verus! {

/// A physical key, as the surrounding input runtime identifies it.
#[derive(Clone, Copy, Debug, PartialEq, Eq, Structural, Hash)]
pub enum PhysicalKey {
    KeyA,
    KeyB,
    KeyC,
    KeyD,
    KeyE,
    KeyF,
    KeyG,
    KeyH,
    KeyI,
    KeyJ,
    KeyK,
    KeyL,
    KeyM,
    KeyN,
    KeyO,
    KeyP,
    KeyQ,
    KeyR,
    KeyS,
    KeyT,
    KeyU,
    KeyV,
    KeyW,
    KeyX,
    KeyY,
    KeyZ,
    Digit0,
    Digit1,
    Digit2,
    Digit3,
    Digit4,
    Digit5,
    Digit6,
    Digit7,
    Digit8,
    Digit9,
    Escape,
    Enter,
    Space,
    Backspace,
    ArrowLeft,
    ArrowRight,
    ArrowUp,
    ArrowDown,
    Tab,
    ShiftLeft,
    ShiftRight,
    ControlLeft,
    ControlRight,
    AltLeft,
    AltRight,
    SuperLeft,
    SuperRight,
}

/// What the runtime reports as held during one frame: a set of physical keys.
pub struct InputSnapshot {
    held: Vec<PhysicalKey>,
}

impl View for InputSnapshot {
    type V = Set<PhysicalKey>;

    closed spec fn view(&self) -> Set<PhysicalKey> {
        self.held@.to_set()
    }
}

impl InputSnapshot {
    /// A snapshot in which nothing is held.
    pub fn new() -> (r: Self)
        ensures
            r@ == Set::<PhysicalKey>::empty(),
    {
        let r = InputSnapshot { held: Vec::new() };
        assert(r@ =~= Set::<PhysicalKey>::empty());
        r
    }

    /// A snapshot in which exactly the given keys are held.
    pub fn from_keys(keys: Vec<PhysicalKey>) -> (r: Self)
        ensures
            r@ == keys@.to_set(),
    {
        InputSnapshot { held: keys }
    }

    /// Marks one more key as held.
    pub fn press(&mut self, key: PhysicalKey)
        ensures
            final(self)@ == old(self)@.insert(key),
    {
        let ghost before = self.held@;
        self.held.push(key);
        assert forall|p: PhysicalKey| #[trigger] self.held@.contains(p) == (before.contains(p) || p == key) by {
            if before.contains(p) {
                let j = choose|j: int| 0 <= j < before.len() && before[j] == p;
                assert(self.held@[j] == p);
            }
            if p == key {
                assert(self.held@[before.len() as int] == p);
            }
            if self.held@.contains(p) && p != key {
                let j = choose|j: int| 0 <= j < self.held@.len() && self.held@[j] == p;
                assert(before[j] == p);
            }
        }
        assert(self@ =~= old(self)@.insert(key));
    }

    pub fn is_held(&self, key: PhysicalKey) -> (r: bool)
        ensures
            r == self@.contains(key),
    {
        let mut i: usize = 0;
        while i < self.held.len()
            invariant
                i <= self.held@.len(),
                forall|j: int| 0 <= j < i ==> self.held@[j] != key,
            decreases self.held@.len() - i,
        {
            if self.held[i] == key {
                assert(self.held@.contains(key));
                return true;
            }
            i = i + 1;
        }
        false
    }
}

/// Whether some physical key in `sources` is held in `snapshot`.
pub open spec fn any_held(sources: Set<PhysicalKey>, snapshot: Set<PhysicalKey>) -> bool {
    exists|p: PhysicalKey| sources.contains(p) && snapshot.contains(p)
}

/// A logical key that one or more physical keys produce.
pub trait KeyInput: Sized {
    /// The physical keys that produce this logical key.
    spec fn sources(&self) -> Set<PhysicalKey>;

    /// The logical key that the physical key `p` produces, if any.
    spec fn decoded(p: PhysicalKey) -> Option<Self>;

    /// Whether one of this key's physical keys is held.
    fn is_pressed(&self, keys: &InputSnapshot) -> (r: bool)
        ensures
            r == any_held(self.sources(), keys@),
    ;

    fn from_keycode(key: PhysicalKey) -> (r: Option<Self>)
        ensures
            r == Self::decoded(key),
    ;
}

/// A primary key: letters, digits, navigation and control keys.
#[derive(Clone, Copy, Debug, PartialEq, Eq, Structural, Hash)]
pub enum Key {
    A,
    B,
    C,
    D,
    E,
    F,
    G,
    H,
    I,
    J,
    K,
    L,
    M,
    N,
    O,
    P,
    Q,
    R,
    S,
    T,
    U,
    V,
    W,
    X,
    Y,
    Z,
    Num0,
    Num1,
    Num2,
    Num3,
    Num4,
    Num5,
    Num6,
    Num7,
    Num8,
    Num9,
    Escape,
    Enter,
    Space,
    Backspace,
    ArrowLeft,
    ArrowRight,
    ArrowUp,
    ArrowDown,
    Tab,
}

impl Key {
    /// The canonical name of this key.
    pub open spec fn spelling(self) -> Seq<char> {
        match self {
            Key::A => "A"@,
            Key::B => "B"@,
            Key::C => "C"@,
            Key::D => "D"@,
            Key::E => "E"@,
            Key::F => "F"@,
            Key::G => "G"@,
            Key::H => "H"@,
            Key::I => "I"@,
            Key::J => "J"@,
            Key::K => "K"@,
            Key::L => "L"@,
            Key::M => "M"@,
            Key::N => "N"@,
            Key::O => "O"@,
            Key::P => "P"@,
            Key::Q => "Q"@,
            Key::R => "R"@,
            Key::S => "S"@,
            Key::T => "T"@,
            Key::U => "U"@,
            Key::V => "V"@,
            Key::W => "W"@,
            Key::X => "X"@,
            Key::Y => "Y"@,
            Key::Z => "Z"@,
            Key::Num0 => "0"@,
            Key::Num1 => "1"@,
            Key::Num2 => "2"@,
            Key::Num3 => "3"@,
            Key::Num4 => "4"@,
            Key::Num5 => "5"@,
            Key::Num6 => "6"@,
            Key::Num7 => "7"@,
            Key::Num8 => "8"@,
            Key::Num9 => "9"@,
            Key::Escape => "Escape"@,
            Key::Enter => "Enter"@,
            Key::Space => "Space"@,
            Key::Backspace => "Backspace"@,
            Key::ArrowLeft => "ArrowLeft"@,
            Key::ArrowRight => "ArrowRight"@,
            Key::ArrowUp => "ArrowUp"@,
            Key::ArrowDown => "ArrowDown"@,
            Key::Tab => "Tab"@,
        }
    }

    /// The one physical key that produces this key.
    pub open spec fn physical(self) -> PhysicalKey {
        match self {
            Key::A => PhysicalKey::KeyA,
            Key::B => PhysicalKey::KeyB,
            Key::C => PhysicalKey::KeyC,
            Key::D => PhysicalKey::KeyD,
            Key::E => PhysicalKey::KeyE,
            Key::F => PhysicalKey::KeyF,
            Key::G => PhysicalKey::KeyG,
            Key::H => PhysicalKey::KeyH,
            Key::I => PhysicalKey::KeyI,
            Key::J => PhysicalKey::KeyJ,
            Key::K => PhysicalKey::KeyK,
            Key::L => PhysicalKey::KeyL,
            Key::M => PhysicalKey::KeyM,
            Key::N => PhysicalKey::KeyN,
            Key::O => PhysicalKey::KeyO,
            Key::P => PhysicalKey::KeyP,
            Key::Q => PhysicalKey::KeyQ,
            Key::R => PhysicalKey::KeyR,
            Key::S => PhysicalKey::KeyS,
            Key::T => PhysicalKey::KeyT,
            Key::U => PhysicalKey::KeyU,
            Key::V => PhysicalKey::KeyV,
            Key::W => PhysicalKey::KeyW,
            Key::X => PhysicalKey::KeyX,
            Key::Y => PhysicalKey::KeyY,
            Key::Z => PhysicalKey::KeyZ,
            Key::Num0 => PhysicalKey::Digit0,
            Key::Num1 => PhysicalKey::Digit1,
            Key::Num2 => PhysicalKey::Digit2,
            Key::Num3 => PhysicalKey::Digit3,
            Key::Num4 => PhysicalKey::Digit4,
            Key::Num5 => PhysicalKey::Digit5,
            Key::Num6 => PhysicalKey::Digit6,
            Key::Num7 => PhysicalKey::Digit7,
            Key::Num8 => PhysicalKey::Digit8,
            Key::Num9 => PhysicalKey::Digit9,
            Key::Escape => PhysicalKey::Escape,
            Key::Enter => PhysicalKey::Enter,
            Key::Space => PhysicalKey::Space,
            Key::Backspace => PhysicalKey::Backspace,
            Key::ArrowLeft => PhysicalKey::ArrowLeft,
            Key::ArrowRight => PhysicalKey::ArrowRight,
            Key::ArrowUp => PhysicalKey::ArrowUp,
            Key::ArrowDown => PhysicalKey::ArrowDown,
            Key::Tab => PhysicalKey::Tab,
        }
    }

    /// Length, first and last character of this key's name: they tell keys apart.
    spec fn signature(self) -> (int, char, char) {
        match self {
            Key::A => (1, 'A', 'A'),
            Key::B => (1, 'B', 'B'),
            Key::C => (1, 'C', 'C'),
            Key::D => (1, 'D', 'D'),
            Key::E => (1, 'E', 'E'),
            Key::F => (1, 'F', 'F'),
            Key::G => (1, 'G', 'G'),
            Key::H => (1, 'H', 'H'),
            Key::I => (1, 'I', 'I'),
            Key::J => (1, 'J', 'J'),
            Key::K => (1, 'K', 'K'),
            Key::L => (1, 'L', 'L'),
            Key::M => (1, 'M', 'M'),
            Key::N => (1, 'N', 'N'),
            Key::O => (1, 'O', 'O'),
            Key::P => (1, 'P', 'P'),
            Key::Q => (1, 'Q', 'Q'),
            Key::R => (1, 'R', 'R'),
            Key::S => (1, 'S', 'S'),
            Key::T => (1, 'T', 'T'),
            Key::U => (1, 'U', 'U'),
            Key::V => (1, 'V', 'V'),
            Key::W => (1, 'W', 'W'),
            Key::X => (1, 'X', 'X'),
            Key::Y => (1, 'Y', 'Y'),
            Key::Z => (1, 'Z', 'Z'),
            Key::Num0 => (1, '0', '0'),
            Key::Num1 => (1, '1', '1'),
            Key::Num2 => (1, '2', '2'),
            Key::Num3 => (1, '3', '3'),
            Key::Num4 => (1, '4', '4'),
            Key::Num5 => (1, '5', '5'),
            Key::Num6 => (1, '6', '6'),
            Key::Num7 => (1, '7', '7'),
            Key::Num8 => (1, '8', '8'),
            Key::Num9 => (1, '9', '9'),
            Key::Escape => (6, 'E', 'e'),
            Key::Enter => (5, 'E', 'r'),
            Key::Space => (5, 'S', 'e'),
            Key::Backspace => (9, 'B', 'e'),
            Key::ArrowLeft => (9, 'A', 't'),
            Key::ArrowRight => (10, 'A', 't'),
            Key::ArrowUp => (7, 'A', 'p'),
            Key::ArrowDown => (9, 'A', 'n'),
            Key::Tab => (3, 'T', 'b'),
        }
    }

    pub fn name(&self) -> (r: &'static str)
        ensures
            r@ == self.spelling(),
    {
        match self {
            Key::A => "A",
            Key::B => "B",
            Key::C => "C",
            Key::D => "D",
            Key::E => "E",
            Key::F => "F",
            Key::G => "G",
            Key::H => "H",
            Key::I => "I",
            Key::J => "J",
            Key::K => "K",
            Key::L => "L",
            Key::M => "M",
            Key::N => "N",
            Key::O => "O",
            Key::P => "P",
            Key::Q => "Q",
            Key::R => "R",
            Key::S => "S",
            Key::T => "T",
            Key::U => "U",
            Key::V => "V",
            Key::W => "W",
            Key::X => "X",
            Key::Y => "Y",
            Key::Z => "Z",
            Key::Num0 => "0",
            Key::Num1 => "1",
            Key::Num2 => "2",
            Key::Num3 => "3",
            Key::Num4 => "4",
            Key::Num5 => "5",
            Key::Num6 => "6",
            Key::Num7 => "7",
            Key::Num8 => "8",
            Key::Num9 => "9",
            Key::Escape => "Escape",
            Key::Enter => "Enter",
            Key::Space => "Space",
            Key::Backspace => "Backspace",
            Key::ArrowLeft => "ArrowLeft",
            Key::ArrowRight => "ArrowRight",
            Key::ArrowUp => "ArrowUp",
            Key::ArrowDown => "ArrowDown",
            Key::Tab => "Tab",
        }
    }

    /// The physical key that produces this key.
    pub fn to_physical(&self) -> (r: PhysicalKey)
        ensures
            r == self.physical(),
    {
        match self {
            Key::A => PhysicalKey::KeyA,
            Key::B => PhysicalKey::KeyB,
            Key::C => PhysicalKey::KeyC,
            Key::D => PhysicalKey::KeyD,
            Key::E => PhysicalKey::KeyE,
            Key::F => PhysicalKey::KeyF,
            Key::G => PhysicalKey::KeyG,
            Key::H => PhysicalKey::KeyH,
            Key::I => PhysicalKey::KeyI,
            Key::J => PhysicalKey::KeyJ,
            Key::K => PhysicalKey::KeyK,
            Key::L => PhysicalKey::KeyL,
            Key::M => PhysicalKey::KeyM,
            Key::N => PhysicalKey::KeyN,
            Key::O => PhysicalKey::KeyO,
            Key::P => PhysicalKey::KeyP,
            Key::Q => PhysicalKey::KeyQ,
            Key::R => PhysicalKey::KeyR,
            Key::S => PhysicalKey::KeyS,
            Key::T => PhysicalKey::KeyT,
            Key::U => PhysicalKey::KeyU,
            Key::V => PhysicalKey::KeyV,
            Key::W => PhysicalKey::KeyW,
            Key::X => PhysicalKey::KeyX,
            Key::Y => PhysicalKey::KeyY,
            Key::Z => PhysicalKey::KeyZ,
            Key::Num0 => PhysicalKey::Digit0,
            Key::Num1 => PhysicalKey::Digit1,
            Key::Num2 => PhysicalKey::Digit2,
            Key::Num3 => PhysicalKey::Digit3,
            Key::Num4 => PhysicalKey::Digit4,
            Key::Num5 => PhysicalKey::Digit5,
            Key::Num6 => PhysicalKey::Digit6,
            Key::Num7 => PhysicalKey::Digit7,
            Key::Num8 => PhysicalKey::Digit8,
            Key::Num9 => PhysicalKey::Digit9,
            Key::Escape => PhysicalKey::Escape,
            Key::Enter => PhysicalKey::Enter,
            Key::Space => PhysicalKey::Space,
            Key::Backspace => PhysicalKey::Backspace,
            Key::ArrowLeft => PhysicalKey::ArrowLeft,
            Key::ArrowRight => PhysicalKey::ArrowRight,
            Key::ArrowUp => PhysicalKey::ArrowUp,
            Key::ArrowDown => PhysicalKey::ArrowDown,
            Key::Tab => PhysicalKey::Tab,
        }
    }

    /// Reads a key from the characters `cs[lo..hi]`.
    pub fn from_span(cs: &Vec<char>, lo: usize, hi: usize) -> (r: Option<Key>)
        requires
            lo <= hi <= cs@.len(),
        ensures
            r == Key::parse_text(cs@.subrange(lo as int, hi as int)),
    {
        let r = 
        if span_is(cs, lo, hi, "A") {
            Some(Key::A)
        } else
        if span_is(cs, lo, hi, "B") {
            Some(Key::B)
        } else
        if span_is(cs, lo, hi, "C") {
            Some(Key::C)
        } else
        if span_is(cs, lo, hi, "D") {
            Some(Key::D)
        } else
        if span_is(cs, lo, hi, "E") {
            Some(Key::E)
        } else
        if span_is(cs, lo, hi, "F") {
            Some(Key::F)
        } else
        if span_is(cs, lo, hi, "G") {
            Some(Key::G)
        } else
        if span_is(cs, lo, hi, "H") {
            Some(Key::H)
        } else
        if span_is(cs, lo, hi, "I") {
            Some(Key::I)
        } else
        if span_is(cs, lo, hi, "J") {
            Some(Key::J)
        } else
        if span_is(cs, lo, hi, "K") {
            Some(Key::K)
        } else
        if span_is(cs, lo, hi, "L") {
            Some(Key::L)
        } else
        if span_is(cs, lo, hi, "M") {
            Some(Key::M)
        } else
        if span_is(cs, lo, hi, "N") {
            Some(Key::N)
        } else
        if span_is(cs, lo, hi, "O") {
            Some(Key::O)
        } else
        if span_is(cs, lo, hi, "P") {
            Some(Key::P)
        } else
        if span_is(cs, lo, hi, "Q") {
            Some(Key::Q)
        } else
        if span_is(cs, lo, hi, "R") {
            Some(Key::R)
        } else
        if span_is(cs, lo, hi, "S") {
            Some(Key::S)
        } else
        if span_is(cs, lo, hi, "T") {
            Some(Key::T)
        } else
        if span_is(cs, lo, hi, "U") {
            Some(Key::U)
        } else
        if span_is(cs, lo, hi, "V") {
            Some(Key::V)
        } else
        if span_is(cs, lo, hi, "W") {
            Some(Key::W)
        } else
        if span_is(cs, lo, hi, "X") {
            Some(Key::X)
        } else
        if span_is(cs, lo, hi, "Y") {
            Some(Key::Y)
        } else
        if span_is(cs, lo, hi, "Z") {
            Some(Key::Z)
        } else
        if span_is(cs, lo, hi, "0") {
            Some(Key::Num0)
        } else
        if span_is(cs, lo, hi, "1") {
            Some(Key::Num1)
        } else
        if span_is(cs, lo, hi, "2") {
            Some(Key::Num2)
        } else
        if span_is(cs, lo, hi, "3") {
            Some(Key::Num3)
        } else
        if span_is(cs, lo, hi, "4") {
            Some(Key::Num4)
        } else
        if span_is(cs, lo, hi, "5") {
            Some(Key::Num5)
        } else
        if span_is(cs, lo, hi, "6") {
            Some(Key::Num6)
        } else
        if span_is(cs, lo, hi, "7") {
            Some(Key::Num7)
        } else
        if span_is(cs, lo, hi, "8") {
            Some(Key::Num8)
        } else
        if span_is(cs, lo, hi, "9") {
            Some(Key::Num9)
        } else
        if span_is(cs, lo, hi, "Escape") {
            Some(Key::Escape)
        } else
        if span_is(cs, lo, hi, "Enter") {
            Some(Key::Enter)
        } else
        if span_is(cs, lo, hi, "Space") {
            Some(Key::Space)
        } else
        if span_is(cs, lo, hi, "Backspace") {
            Some(Key::Backspace)
        } else
        if span_is(cs, lo, hi, "ArrowLeft") {
            Some(Key::ArrowLeft)
        } else
        if span_is(cs, lo, hi, "ArrowRight") {
            Some(Key::ArrowRight)
        } else
        if span_is(cs, lo, hi, "ArrowUp") {
            Some(Key::ArrowUp)
        } else
        if span_is(cs, lo, hi, "ArrowDown") {
            Some(Key::ArrowDown)
        } else
        if span_is(cs, lo, hi, "Tab") {
            Some(Key::Tab)
        } else
{
            None
        };
        proof {
            lemma_key_names_distinct();
            if r is Some {
                assert(r->0.spelling() == cs@.subrange(lo as int, hi as int));
            }
        }
        r
    }
}

/// Length, first and last character of a sequence.
spec fn ends_of(s: Seq<char>) -> (int, char, char) {
    (s.len() as int, s[0], s[s.len() - 1])
}

/// No two keys come from the same physical key.
pub proof fn lemma_key_physical_distinct()
    ensures
        forall|a: Key, b: Key| #[trigger] a.physical() == #[trigger] b.physical() ==> a == b,
{
}

/// No two keys share a canonical name.
pub proof fn lemma_key_names_distinct()
    ensures
        forall|a: Key, b: Key| #[trigger] a.spelling() == #[trigger] b.spelling() ==> a == b,
{
    reveal_strlit("A");
    reveal_strlit("B");
    reveal_strlit("C");
    reveal_strlit("D");
    reveal_strlit("E");
    reveal_strlit("F");
    reveal_strlit("G");
    reveal_strlit("H");
    reveal_strlit("I");
    reveal_strlit("J");
    reveal_strlit("K");
    reveal_strlit("L");
    reveal_strlit("M");
    reveal_strlit("N");
    reveal_strlit("O");
    reveal_strlit("P");
    reveal_strlit("Q");
    reveal_strlit("R");
    reveal_strlit("S");
    reveal_strlit("T");
    reveal_strlit("U");
    reveal_strlit("V");
    reveal_strlit("W");
    reveal_strlit("X");
    reveal_strlit("Y");
    reveal_strlit("Z");
    reveal_strlit("0");
    reveal_strlit("1");
    reveal_strlit("2");
    reveal_strlit("3");
    reveal_strlit("4");
    reveal_strlit("5");
    reveal_strlit("6");
    reveal_strlit("7");
    reveal_strlit("8");
    reveal_strlit("9");
    reveal_strlit("Escape");
    reveal_strlit("Enter");
    reveal_strlit("Space");
    reveal_strlit("Backspace");
    reveal_strlit("ArrowLeft");
    reveal_strlit("ArrowRight");
    reveal_strlit("ArrowUp");
    reveal_strlit("ArrowDown");
    reveal_strlit("Tab");
    assert forall|k: Key| ends_of(#[trigger] k.spelling()) == k.signature() by {
        match k {
            Key::A => {},
            Key::B => {},
            Key::C => {},
            Key::D => {},
            Key::E => {},
            Key::F => {},
            Key::G => {},
            Key::H => {},
            Key::I => {},
            Key::J => {},
            Key::K => {},
            Key::L => {},
            Key::M => {},
            Key::N => {},
            Key::O => {},
            Key::P => {},
            Key::Q => {},
            Key::R => {},
            Key::S => {},
            Key::T => {},
            Key::U => {},
            Key::V => {},
            Key::W => {},
            Key::X => {},
            Key::Y => {},
            Key::Z => {},
            Key::Num0 => {},
            Key::Num1 => {},
            Key::Num2 => {},
            Key::Num3 => {},
            Key::Num4 => {},
            Key::Num5 => {},
            Key::Num6 => {},
            Key::Num7 => {},
            Key::Num8 => {},
            Key::Num9 => {},
            Key::Escape => {},
            Key::Enter => {},
            Key::Space => {},
            Key::Backspace => {},
            Key::ArrowLeft => {},
            Key::ArrowRight => {},
            Key::ArrowUp => {},
            Key::ArrowDown => {},
            Key::Tab => {},
        }
    }
    assert forall|a: Key, b: Key| #[trigger] a.signature() == #[trigger] b.signature() implies a == b by {}
    assert forall|a: Key, b: Key| #[trigger] a.spelling() == #[trigger] b.spelling() implies a == b by {
        assert(ends_of(a.spelling()) == a.signature());
        assert(ends_of(b.spelling()) == b.signature());
    }
}

/// No key name holds a space.
pub proof fn lemma_key_names_plain()
    ensures
        forall|k: Key, i: int| 0 <= i < k.spelling().len() ==> #[trigger] k.spelling()[i] != ' ',
{
    reveal_strlit("A");
    reveal_strlit("B");
    reveal_strlit("C");
    reveal_strlit("D");
    reveal_strlit("E");
    reveal_strlit("F");
    reveal_strlit("G");
    reveal_strlit("H");
    reveal_strlit("I");
    reveal_strlit("J");
    reveal_strlit("K");
    reveal_strlit("L");
    reveal_strlit("M");
    reveal_strlit("N");
    reveal_strlit("O");
    reveal_strlit("P");
    reveal_strlit("Q");
    reveal_strlit("R");
    reveal_strlit("S");
    reveal_strlit("T");
    reveal_strlit("U");
    reveal_strlit("V");
    reveal_strlit("W");
    reveal_strlit("X");
    reveal_strlit("Y");
    reveal_strlit("Z");
    reveal_strlit("0");
    reveal_strlit("1");
    reveal_strlit("2");
    reveal_strlit("3");
    reveal_strlit("4");
    reveal_strlit("5");
    reveal_strlit("6");
    reveal_strlit("7");
    reveal_strlit("8");
    reveal_strlit("9");
    reveal_strlit("Escape");
    reveal_strlit("Enter");
    reveal_strlit("Space");
    reveal_strlit("Backspace");
    reveal_strlit("ArrowLeft");
    reveal_strlit("ArrowRight");
    reveal_strlit("ArrowUp");
    reveal_strlit("ArrowDown");
    reveal_strlit("Tab");
    assert forall|k: Key, i: int| 0 <= i < k.spelling().len() implies #[trigger] k.spelling()[i] != ' ' by {
        match k {
            Key::A => {},
            Key::B => {},
            Key::C => {},
            Key::D => {},
            Key::E => {},
            Key::F => {},
            Key::G => {},
            Key::H => {},
            Key::I => {},
            Key::J => {},
            Key::K => {},
            Key::L => {},
            Key::M => {},
            Key::N => {},
            Key::O => {},
            Key::P => {},
            Key::Q => {},
            Key::R => {},
            Key::S => {},
            Key::T => {},
            Key::U => {},
            Key::V => {},
            Key::W => {},
            Key::X => {},
            Key::Y => {},
            Key::Z => {},
            Key::Num0 => {},
            Key::Num1 => {},
            Key::Num2 => {},
            Key::Num3 => {},
            Key::Num4 => {},
            Key::Num5 => {},
            Key::Num6 => {},
            Key::Num7 => {},
            Key::Num8 => {},
            Key::Num9 => {},
            Key::Escape => {},
            Key::Enter => {},
            Key::Space => {},
            Key::Backspace => {},
            Key::ArrowLeft => {},
            Key::ArrowRight => {},
            Key::ArrowUp => {},
            Key::ArrowDown => {},
            Key::Tab => {},
        }
    }
}

impl KeyInput for Key {
    open spec fn sources(&self) -> Set<PhysicalKey> {
        set![self.physical()]
    }

    open spec fn decoded(p: PhysicalKey) -> Option<Key> {
        if exists|k: Key| k.physical() == p {
            Some(choose|k: Key| k.physical() == p)
        } else {
            None
        }
    }

    fn is_pressed(&self, keys: &InputSnapshot) -> (r: bool) {
        let r = keys.is_held(self.to_physical());
        assert(self.sources().contains(self.physical()));
        r
    }

    fn from_keycode(key: PhysicalKey) -> (r: Option<Key>) {
        proof {
            lemma_key_physical_distinct();
        }
        let r = match key {
            PhysicalKey::KeyA => Some(Key::A),
            PhysicalKey::KeyB => Some(Key::B),
            PhysicalKey::KeyC => Some(Key::C),
            PhysicalKey::KeyD => Some(Key::D),
            PhysicalKey::KeyE => Some(Key::E),
            PhysicalKey::KeyF => Some(Key::F),
            PhysicalKey::KeyG => Some(Key::G),
            PhysicalKey::KeyH => Some(Key::H),
            PhysicalKey::KeyI => Some(Key::I),
            PhysicalKey::KeyJ => Some(Key::J),
            PhysicalKey::KeyK => Some(Key::K),
            PhysicalKey::KeyL => Some(Key::L),
            PhysicalKey::KeyM => Some(Key::M),
            PhysicalKey::KeyN => Some(Key::N),
            PhysicalKey::KeyO => Some(Key::O),
            PhysicalKey::KeyP => Some(Key::P),
            PhysicalKey::KeyQ => Some(Key::Q),
            PhysicalKey::KeyR => Some(Key::R),
            PhysicalKey::KeyS => Some(Key::S),
            PhysicalKey::KeyT => Some(Key::T),
            PhysicalKey::KeyU => Some(Key::U),
            PhysicalKey::KeyV => Some(Key::V),
            PhysicalKey::KeyW => Some(Key::W),
            PhysicalKey::KeyX => Some(Key::X),
            PhysicalKey::KeyY => Some(Key::Y),
            PhysicalKey::KeyZ => Some(Key::Z),
            PhysicalKey::Digit0 => Some(Key::Num0),
            PhysicalKey::Digit1 => Some(Key::Num1),
            PhysicalKey::Digit2 => Some(Key::Num2),
            PhysicalKey::Digit3 => Some(Key::Num3),
            PhysicalKey::Digit4 => Some(Key::Num4),
            PhysicalKey::Digit5 => Some(Key::Num5),
            PhysicalKey::Digit6 => Some(Key::Num6),
            PhysicalKey::Digit7 => Some(Key::Num7),
            PhysicalKey::Digit8 => Some(Key::Num8),
            PhysicalKey::Digit9 => Some(Key::Num9),
            PhysicalKey::Escape => Some(Key::Escape),
            PhysicalKey::Enter => Some(Key::Enter),
            PhysicalKey::Space => Some(Key::Space),
            PhysicalKey::Backspace => Some(Key::Backspace),
            PhysicalKey::ArrowLeft => Some(Key::ArrowLeft),
            PhysicalKey::ArrowRight => Some(Key::ArrowRight),
            PhysicalKey::ArrowUp => Some(Key::ArrowUp),
            PhysicalKey::ArrowDown => Some(Key::ArrowDown),
            PhysicalKey::Tab => Some(Key::Tab),
            _ => None,
        };
        proof {
            if r is Some {
                assert(r->0.physical() == key);
            }
        }
        r
    }
}

impl View for Key {
    type V = Key;

    open spec fn view(&self) -> Key {
        *self
    }
}

impl FromString for Key {
    open spec fn parse_text(s: Seq<char>) -> Option<Key> {
        if exists|k: Key| k.spelling() == s {
            Some(choose|k: Key| k.spelling() == s)
        } else {
            None
        }
    }

    fn from_string(s: &str) -> (r: Option<Key>) {
        let cs = chars_of(s);
        assert(cs@.subrange(0, cs@.len() as int) =~= s@);
        Key::from_span(&cs, 0, cs.len())
    }
}

impl SerializeEnum for Key {
    open spec fn canonical(&self) -> Seq<char> {
        self.spelling()
    }

    fn to_string(&self) -> (r: String) {
        String::from_str(self.name())
    }

    proof fn lemma_round_trip(v: Key) {
        lemma_key_names_distinct();
    }
}


/// A modifier key; the left and right physical keys of a pair count as one.
#[derive(Clone, Copy, Debug, PartialEq, Eq, Structural, Hash)]
pub enum Modifier {
    Shift,
    Ctrl,
    Alt,
    Super,
}

impl Modifier {
    /// The canonical name of this modifier.
    pub open spec fn spelling(self) -> Seq<char> {
        match self {
            Modifier::Shift => "Shift"@,
            Modifier::Ctrl => "Ctrl"@,
            Modifier::Alt => "Alt"@,
            Modifier::Super => "Super"@,
        }
    }

    /// The left physical key of this modifier.
    pub open spec fn left(self) -> PhysicalKey {
        match self {
            Modifier::Shift => PhysicalKey::ShiftLeft,
            Modifier::Ctrl => PhysicalKey::ControlLeft,
            Modifier::Alt => PhysicalKey::AltLeft,
            Modifier::Super => PhysicalKey::SuperLeft,
        }
    }

    /// The right physical key of this modifier.
    pub open spec fn right(self) -> PhysicalKey {
        match self {
            Modifier::Shift => PhysicalKey::ShiftRight,
            Modifier::Ctrl => PhysicalKey::ControlRight,
            Modifier::Alt => PhysicalKey::AltRight,
            Modifier::Super => PhysicalKey::SuperRight,
        }
    }

    /// Length, first and last character of this modifier's name: they tell modifiers apart.
    spec fn signature(self) -> (int, char, char) {
        match self {
            Modifier::Shift => (5, 'S', 't'),
            Modifier::Ctrl => (4, 'C', 'l'),
            Modifier::Alt => (3, 'A', 't'),
            Modifier::Super => (5, 'S', 'r'),
        }
    }

    pub fn name(&self) -> (r: &'static str)
        ensures
            r@ == self.spelling(),
    {
        match self {
            Modifier::Shift => "Shift",
            Modifier::Ctrl => "Ctrl",
            Modifier::Alt => "Alt",
            Modifier::Super => "Super",
        }
    }

    /// The two physical keys of this modifier, left first.
    pub fn to_physical(&self) -> (r: (PhysicalKey, PhysicalKey))
        ensures
            r == (self.left(), self.right()),
    {
        match self {
            Modifier::Shift => (PhysicalKey::ShiftLeft, PhysicalKey::ShiftRight),
            Modifier::Ctrl => (PhysicalKey::ControlLeft, PhysicalKey::ControlRight),
            Modifier::Alt => (PhysicalKey::AltLeft, PhysicalKey::AltRight),
            Modifier::Super => (PhysicalKey::SuperLeft, PhysicalKey::SuperRight),
        }
    }

    /// Reads a modifier from the characters `cs[lo..hi]`.
    pub fn from_span(cs: &Vec<char>, lo: usize, hi: usize) -> (r: Option<Modifier>)
        requires
            lo <= hi <= cs@.len(),
        ensures
            r == Modifier::parse_text(cs@.subrange(lo as int, hi as int)),
    {
        let r = if span_is(cs, lo, hi, "Shift") {
            Some(Modifier::Shift)
        } else if span_is(cs, lo, hi, "Ctrl") {
            Some(Modifier::Ctrl)
        } else if span_is(cs, lo, hi, "Alt") {
            Some(Modifier::Alt)
        } else if span_is(cs, lo, hi, "Super") {
            Some(Modifier::Super)
        } else {
            None
        };
        proof {
            lemma_modifier_names_distinct();
            if r is Some {
                assert(r->0.spelling() == cs@.subrange(lo as int, hi as int));
            }
        }
        r
    }
}

/// No two modifiers share a canonical name.
pub proof fn lemma_modifier_names_distinct()
    ensures
        forall|a: Modifier, b: Modifier| #[trigger] a.spelling() == #[trigger] b.spelling() ==> a == b,
{
    reveal_strlit("Shift");
    reveal_strlit("Ctrl");
    reveal_strlit("Alt");
    reveal_strlit("Super");
    assert forall|m: Modifier| ends_of(#[trigger] m.spelling()) == m.signature() by {
        match m {
            Modifier::Shift => {},
            Modifier::Ctrl => {},
            Modifier::Alt => {},
            Modifier::Super => {},
        }
    }
    assert forall|a: Modifier, b: Modifier| #[trigger] a.spelling() == #[trigger] b.spelling() implies a == b by {
        assert(ends_of(a.spelling()) == a.signature());
        assert(ends_of(b.spelling()) == b.signature());
    }
}

/// No modifier name holds a space.
pub proof fn lemma_modifier_names_plain()
    ensures
        forall|m: Modifier, i: int| 0 <= i < m.spelling().len() ==> #[trigger] m.spelling()[i] != ' ',
{
    reveal_strlit("Shift");
    reveal_strlit("Ctrl");
    reveal_strlit("Alt");
    reveal_strlit("Super");
    assert forall|m: Modifier, i: int| 0 <= i < m.spelling().len() implies #[trigger] m.spelling()[i] != ' ' by {
        match m {
            Modifier::Shift => {},
            Modifier::Ctrl => {},
            Modifier::Alt => {},
            Modifier::Super => {},
        }
    }
}

impl KeyInput for Modifier {
    open spec fn sources(&self) -> Set<PhysicalKey> {
        set![self.left(), self.right()]
    }

    open spec fn decoded(p: PhysicalKey) -> Option<Modifier> {
        if exists|m: Modifier| m.sources().contains(p) {
            Some(choose|m: Modifier| m.sources().contains(p))
        } else {
            None
        }
    }

    fn is_pressed(&self, keys: &InputSnapshot) -> (r: bool) {
        let (left, right) = self.to_physical();
        let r = keys.is_held(left) || keys.is_held(right);
        assert(self.sources().contains(left) && self.sources().contains(right));
        r
    }

    fn from_keycode(key: PhysicalKey) -> (r: Option<Modifier>) {
        let r = match key {
            PhysicalKey::ShiftLeft | PhysicalKey::ShiftRight => Some(Modifier::Shift),
            PhysicalKey::ControlLeft | PhysicalKey::ControlRight => Some(Modifier::Ctrl),
            PhysicalKey::AltLeft | PhysicalKey::AltRight => Some(Modifier::Alt),
            PhysicalKey::SuperLeft | PhysicalKey::SuperRight => Some(Modifier::Super),
            _ => None,
        };
        proof {
            if r is Some {
                assert(r->0.sources().contains(key));
            }
        }
        r
    }
}

impl View for Modifier {
    type V = Modifier;

    open spec fn view(&self) -> Modifier {
        *self
    }
}

impl FromString for Modifier {
    open spec fn parse_text(s: Seq<char>) -> Option<Modifier> {
        if exists|m: Modifier| m.spelling() == s {
            Some(choose|m: Modifier| m.spelling() == s)
        } else {
            None
        }
    }

    fn from_string(s: &str) -> (r: Option<Modifier>) {
        let cs = chars_of(s);
        assert(cs@.subrange(0, cs@.len() as int) =~= s@);
        Modifier::from_span(&cs, 0, cs.len())
    }
}

impl SerializeEnum for Modifier {
    open spec fn canonical(&self) -> Seq<char> {
        self.spelling()
    }

    fn to_string(&self) -> (r: String) {
        String::from_str(self.name())
    }

    proof fn lemma_round_trip(v: Modifier) {
        lemma_modifier_names_distinct();
    }
}

} // verus!

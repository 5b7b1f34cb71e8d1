use crate::keys::{
    any_held, lemma_key_names_plain, lemma_modifier_names_plain, InputSnapshot, Key, KeyInput,
    Modifier, PhysicalKey,
};
use crate::text::{chars_of, FromString, Serialize, SerializeEnum};
use vstd::prelude::*;

verus! {

/// The text between the tokens of a binding.
pub open spec fn separator() -> Seq<char> {
    seq![' ', '+', ' ']
}

/// Whether the separator starts at position `i` of `s`.
pub open spec fn sep_at(s: Seq<char>, i: int) -> bool {
    &&& 0 <= i
    &&& i + 3 <= s.len()
    &&& s[i] == ' '
    &&& s[i + 1] == '+'
    &&& s[i + 2] == ' '
}

/// The first position at or after `i` where the separator starts, or `s.len()` if none.
pub open spec fn find_sep(s: Seq<char>, i: int) -> int
    decreases s.len() - i,
{
    if i < 0 || i + 3 > s.len() {
        s.len() as int
    } else if sep_at(s, i) {
        i
    } else {
        find_sep(s, i + 1)
    }
}

/// The tokens of `s`: the pieces between occurrences of the separator, from left to right.
pub open spec fn tokens(s: Seq<char>) -> Seq<Seq<char>>
    decreases s.len(),
{
    let j = find_sep(s, 0);
    if 0 <= j && j + 3 <= s.len() {
        seq![s.subrange(0, j)] + tokens(s.subrange(j + 3, s.len() as int))
    } else {
        seq![s]
    }
}

/// The modifiers named among `ts`, in order; tokens that name none are left out.
pub open spec fn named_modifiers(ts: Seq<Seq<char>>) -> Seq<Modifier>
    decreases ts.len(),
{
    if ts.len() == 0 {
        seq![]
    } else {
        let before = named_modifiers(ts.drop_last());
        match Modifier::parse_text(ts.last()) {
            Some(m) => before.push(m),
            None => before,
        }
    }
}

/// The binding that the text `s` denotes: the last token names the key, the
/// tokens before it name modifiers.
pub open spec fn binding_of_text(s: Seq<char>) -> Option<(Key, Seq<Modifier>)> {
    let ts = tokens(s);
    match Key::parse_text(ts.last()) {
        Some(k) => Some((k, named_modifiers(ts.drop_last()))),
        None => None,
    }
}

/// Each modifier's name followed by the separator.
pub open spec fn modifiers_text(mods: Seq<Modifier>) -> Seq<char>
    decreases mods.len(),
{
    if mods.len() == 0 {
        seq![]
    } else {
        mods[0].spelling() + separator() + modifiers_text(mods.drop_first())
    }
}

/// The textual form of a binding: its modifiers, then its key, joined by the separator.
pub open spec fn binding_text(b: (Key, Seq<Modifier>)) -> Seq<char> {
    modifiers_text(b.1) + b.0.spelling()
}

/// Whether every modifier and the key of `b` are held in `snapshot`.
pub open spec fn chord_held(b: (Key, Seq<Modifier>), snapshot: Set<PhysicalKey>) -> bool {
    &&& forall|i: int| 0 <= i < b.1.len() ==> any_held(#[trigger] b.1[i].sources(), snapshot)
    &&& any_held(b.0.sources(), snapshot)
}

/// The modifiers that the physical keys `ids` produce, in order of first appearance.
pub open spec fn chord_modifiers(ids: Seq<PhysicalKey>) -> Seq<Modifier>
    decreases ids.len(),
{
    if ids.len() == 0 {
        seq![]
    } else {
        let before = chord_modifiers(ids.drop_last());
        match Modifier::decoded(ids.last()) {
            Some(m) => if before.contains(m) {
                before
            } else {
                before.push(m)
            },
            None => before,
        }
    }
}

/// The first primary key that the physical keys `ids` produce, if any.
pub open spec fn chord_key(ids: Seq<PhysicalKey>) -> Option<Key>
    decreases ids.len(),
{
    if ids.len() == 0 {
        None
    } else {
        match chord_key(ids.drop_last()) {
            Some(k) => Some(k),
            None => if Modifier::decoded(ids.last()) is Some {
                None
            } else {
                Key::decoded(ids.last())
            },
        }
    }
}

/// One primary key together with the modifiers that must be held with it.
pub struct KeyBinding {
    key: Key,
    modifiers: Vec<Modifier>,
}

impl View for KeyBinding {
    type V = (Key, Seq<Modifier>);

    closed spec fn view(&self) -> (Key, Seq<Modifier>) {
        (self.key, self.modifiers@)
    }
}

impl KeyBinding {
    pub fn new(key: Key, modifiers: Vec<Modifier>) -> (r: KeyBinding)
        ensures
            r@ == (key, modifiers@),
    {
        KeyBinding { key, modifiers }
    }

    pub fn key(&self) -> (r: Key)
        ensures
            r == self@.0,
    {
        self.key
    }

    pub fn modifiers(&self) -> (r: &Vec<Modifier>)
        ensures
            r@ == self@.1,
    {
        &self.modifiers
    }

    /// Whether the whole chord is held: every modifier and the key.
    pub fn is_pressed(&self, keys: &InputSnapshot) -> (r: bool)
        ensures
            r == chord_held(self@, keys@),
    {
        let mut i: usize = 0;
        while i < self.modifiers.len()
            invariant
                i <= self.modifiers@.len(),
                forall|j: int| 0 <= j < i ==> any_held(#[trigger] self.modifiers@[j].sources(), keys@),
            decreases self.modifiers@.len() - i,
        {
            if !self.modifiers[i].is_pressed(keys) {
                assert(!any_held(self@.1[i as int].sources(), keys@));
                return false;
            }
            i = i + 1;
        }
        self.key.is_pressed(keys)
    }

    /// Builds a binding from the physical keys pressed together, in arrival order.
    pub fn from_keycodes(keys: Vec<PhysicalKey>) -> (r: Option<KeyBinding>)
        ensures
            match chord_key(keys@) {
                Some(k) => r is Some && r->0@ == (k, chord_modifiers(keys@)),
                None => r is None,
            },
    {
        let mut key: Option<Key> = None;
        let mut modifiers: Vec<Modifier> = Vec::new();
        let mut i: usize = 0;
        while i < keys.len()
            invariant
                i <= keys@.len(),
                key == chord_key(keys@.take(i as int)),
                modifiers@ == chord_modifiers(keys@.take(i as int)),
            decreases keys@.len() - i,
        {
            let code = keys[i];
            assert(keys@.take(i + 1).drop_last() =~= keys@.take(i as int));
            match Modifier::from_keycode(code) {
                Some(m) => {
                    if !contains_modifier(&modifiers, m) {
                        modifiers.push(m);
                    }
                },
                None => {
                    if key.is_none() {
                        key = Key::from_keycode(code);
                    }
                },
            }
            i = i + 1;
        }
        assert(keys@.take(keys@.len() as int) =~= keys@);
        match key {
            Some(k) => Some(KeyBinding { key: k, modifiers }),
            None => None,
        }
    }
}

impl FromString for KeyBinding {
    open spec fn parse_text(s: Seq<char>) -> Option<(Key, Seq<Modifier>)> {
        binding_of_text(s)
    }

    /// Reads `"Modifier + ... + Key"`. The last token must name a key; tokens
    /// before it that name no modifier are skipped.
    fn from_string(s: &str) -> (r: Option<KeyBinding>) {
        let cs = chars_of(s);
        let n = cs.len();
        let mut modifiers: Vec<Modifier> = Vec::new();
        let mut p: usize = 0;
        let ghost mut done: Seq<Seq<char>> = seq![];
        assert(cs@.subrange(0, n as int) =~= cs@);
        loop
            invariant
                n == cs@.len(),
                cs@ == s@,
                p <= n,
                tokens(cs@) == done + tokens(cs@.subrange(p as int, n as int)),
                modifiers@ == named_modifiers(done),
            decreases n - p,
        {
            let j = next_separator(&cs, p);
            let ghost rest = cs@.subrange(p as int, n as int);
            proof {
                lemma_find_sep_suffix(cs@, p as int, p as int);
            }
            if j < n && n - j >= 3 {
                let ghost token = cs@.subrange(p as int, j as int);
                proof {
                    assert(rest.subrange(0, j - p) =~= token);
                    assert(rest.subrange(j - p + 3, rest.len() as int) =~= cs@.subrange(j + 3, n as int));
                    assert(done.push(token).drop_last() =~= done);
                    assert(done + tokens(rest) =~= done.push(token) + tokens(cs@.subrange(j + 3, n as int)));
                    done = done.push(token);
                }
                match Modifier::from_span(&cs, p, j) {
                    Some(m) => modifiers.push(m),
                    None => {},
                }
                p = j + 3;
            } else {
                proof {
                    assert(tokens(cs@) =~= done.push(rest));
                    assert(done.push(rest).drop_last() =~= done);
                }
                return match Key::from_span(&cs, p, n) {
                    Some(k) => Some(KeyBinding { key: k, modifiers }),
                    None => None,
                };
            }
        }
    }
}

impl Serialize for KeyBinding {
    open spec fn text(&self) -> Seq<char> {
        binding_text(self@)
    }

    fn to_string(&self) -> (r: String) {
        let mut r = String::new();
        let mut i: usize = 0;
        proof {
            reveal_strlit(" + ");
            assert(" + "@ =~= separator());
        }
        while i < self.modifiers.len()
            invariant
                i <= self.modifiers@.len(),
                " + "@ == separator(),
                r@ == modifiers_text(self.modifiers@.take(i as int)),
            decreases self.modifiers@.len() - i,
        {
            let m = self.modifiers[i];
            r.append(m.name());
            r.append(" + ");
            proof {
                lemma_modifiers_text_push(self.modifiers@.take(i as int), m);
                assert(self.modifiers@.take(i + 1) =~= self.modifiers@.take(i as int).push(m));
            }
            i = i + 1;
        }
        assert(self.modifiers@.take(i as int) =~= self.modifiers@);
        r.append(self.key.name());
        r
    }
}

/// Adding a modifier at the end adds its name and a separator at the end of the text.
proof fn lemma_modifiers_text_push(mods: Seq<Modifier>, m: Modifier)
    ensures
        modifiers_text(mods.push(m)) == modifiers_text(mods) + m.spelling() + separator(),
    decreases mods.len(),
{
    if mods.len() == 0 {
        assert(mods.push(m).drop_first() =~= Seq::<Modifier>::empty());
        assert(modifiers_text(Seq::<Modifier>::empty()) == Seq::<char>::empty());
        assert(mods.push(m)[0] == m);
        assert(modifiers_text(mods.push(m)) =~= m.spelling() + separator());
    } else {
        assert(mods.push(m).drop_first() =~= mods.drop_first().push(m));
        lemma_modifiers_text_push(mods.drop_first(), m);
        assert(modifiers_text(mods.push(m)) =~= modifiers_text(mods) + m.spelling() + separator());
    }
}

/// Reading back the text of a binding gives the same key and the same
/// modifiers, in the same order.
pub proof fn lemma_binding_round_trip(b: KeyBinding)
    ensures
        KeyBinding::parse_text(b.text()) == Some(b@),
{
    let mods = b@.1;
    let names = mods.map_values(|m: Modifier| m.spelling());
    lemma_tokens_of_text(mods, b@.0);
    lemma_named_modifiers_of_names(mods);
    assert(names.push(b@.0.spelling()).drop_last() =~= names);
    Key::lemma_round_trip(b@.0);
}

/// The tokens of a binding's text are its modifiers' names, then its key's name.
proof fn lemma_tokens_of_text(mods: Seq<Modifier>, k: Key)
    ensures
        tokens(modifiers_text(mods) + k.spelling()) == mods.map_values(|m: Modifier| m.spelling()).push(k.spelling()),
    decreases mods.len(),
{
    lemma_key_names_plain();
    lemma_modifier_names_plain();
    let t = modifiers_text(mods) + k.spelling();
    if mods.len() == 0 {
        assert(t =~= k.spelling());
        lemma_find_sep_none(t, 0);
        assert(tokens(t) =~= seq![t]);
        assert(mods.map_values(|m: Modifier| m.spelling()) =~= Seq::<Seq<char>>::empty());
        assert(mods.map_values(|m: Modifier| m.spelling()).push(k.spelling()) =~= seq![t]);
    } else {
        let m0 = mods[0];
        let rest = mods.drop_first();
        let tail = modifiers_text(rest) + k.spelling();
        let j = m0.spelling().len() as int;
        assert(t =~= m0.spelling() + separator() + tail);
        assert(sep_at(t, j));
        assert forall|i: int| 0 <= i < j implies #[trigger] t[i] != ' ' by {
            assert(t[i] == m0.spelling()[i]);
        }
        lemma_find_sep_skips(t, 0, j);
        assert(t.subrange(0, j) =~= m0.spelling());
        assert(t.subrange(j + 3, t.len() as int) =~= tail);
        lemma_tokens_of_text(rest, k);
        assert(mods.map_values(|m: Modifier| m.spelling()) =~= seq![m0.spelling()] + rest.map_values(
            |m: Modifier| m.spelling(),
        ));
        assert(tokens(t) =~= mods.map_values(|m: Modifier| m.spelling()).push(k.spelling()));
    }
}

/// With no space at or after `i`, no separator is found.
proof fn lemma_find_sep_none(t: Seq<char>, i: int)
    requires
        0 <= i,
        forall|q: int| i <= q < t.len() ==> #[trigger] t[q] != ' ',
    ensures
        find_sep(t, i) == t.len(),
    decreases t.len() - i,
{
    if i + 3 <= t.len() {
        lemma_find_sep_none(t, i + 1);
    }
}

/// Where no space stands in `[i, j)` and the separator starts at `j`, it is found at `j`.
proof fn lemma_find_sep_skips(t: Seq<char>, i: int, j: int)
    requires
        0 <= i <= j,
        sep_at(t, j),
        forall|q: int| i <= q < j ==> #[trigger] t[q] != ' ',
    ensures
        find_sep(t, i) == j,
    decreases j - i,
{
    if i < j {
        lemma_find_sep_skips(t, i + 1, j);
    }
}

/// The modifiers named by a list of modifiers' names are those modifiers.
proof fn lemma_named_modifiers_of_names(mods: Seq<Modifier>)
    ensures
        named_modifiers(mods.map_values(|m: Modifier| m.spelling())) == mods,
    decreases mods.len(),
{
    let names = mods.map_values(|m: Modifier| m.spelling());
    if mods.len() > 0 {
        assert(names.drop_last() =~= mods.drop_last().map_values(|m: Modifier| m.spelling()));
        lemma_named_modifiers_of_names(mods.drop_last());
        Modifier::lemma_round_trip(mods.last());
        assert(mods.drop_last().push(mods.last()) =~= mods);
    } else {
        assert(names.len() == 0);
        assert(mods =~= Seq::<Modifier>::empty());
    }
}

/// The first position at or after `from` where the separator starts in `cs`, or its length.
fn next_separator(cs: &Vec<char>, from: usize) -> (r: usize)
    requires
        from <= cs@.len(),
    ensures
        r as int == find_sep(cs@, from as int),
        from <= r <= cs@.len(),
{
    let n = cs.len();
    let mut i: usize = from;
    while i < n && n - i >= 3
        invariant
            n == cs@.len(),
            from <= i <= n,
            find_sep(cs@, from as int) == find_sep(cs@, i as int),
        decreases n - i,
    {
        if cs[i] == ' ' && cs[i + 1] == '+' && cs[i + 2] == ' ' {
            return i;
        }
        i = i + 1;
    }
    n
}

/// Searching a suffix of `s` finds the same separators, shifted by the suffix's start.
proof fn lemma_find_sep_suffix(s: Seq<char>, p: int, i: int)
    requires
        0 <= p <= i <= s.len(),
    ensures
        find_sep(s.subrange(p, s.len() as int), i - p) == find_sep(s, i) - p,
    decreases s.len() - i,
{
    let t = s.subrange(p, s.len() as int);
    if i + 3 > s.len() {
    } else {
        assert(sep_at(t, i - p) == sep_at(s, i));
        if !sep_at(s, i) {
            lemma_find_sep_suffix(s, p, i + 1);
        }
    }
}

/// Whether `m` occurs in `v`.
fn contains_modifier(v: &Vec<Modifier>, m: Modifier) -> (r: bool)
    ensures
        r == v@.contains(m),
{
    let mut i: usize = 0;
    while i < v.len()
        invariant
            i <= v@.len(),
            forall|j: int| 0 <= j < i ==> v@[j] != m,
        decreases v@.len() - i,
    {
        if v[i] == m {
            assert(v@[i as int] == m);
            return true;
        }
        i = i + 1;
    }
    false
}

} // verus!

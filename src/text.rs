use vstd::prelude::*;

verus! {

/// Parsing from a canonical textual form.
pub trait FromString: Sized + View {
    /// The value that the text `s` denotes, if any.
    spec fn parse_text(s: Seq<char>) -> Option<Self::V>;

    fn from_string(s: &str) -> (r: Option<Self>)
        ensures
            match r {
                Some(v) => Self::parse_text(s@) == Some(v@),
                None => Self::parse_text(s@) is None,
            },
    ;
}

/// A closed enumeration whose variants each have one stable canonical name.
pub trait SerializeEnum: FromString {
    /// The canonical name of this variant.
    spec fn canonical(&self) -> Seq<char>;

    fn to_string(&self) -> (r: String)
        ensures
            r@ == self.canonical(),
    ;

    /// Parsing the canonical name of a variant gives that variant back.
    proof fn lemma_round_trip(v: Self)
        ensures
            Self::parse_text(v.canonical()) == Some(v@),
    ;
}

/// A compound value with a textual form that `from_string` reads back.
pub trait Serialize: FromString {
    /// The textual form of this value.
    spec fn text(&self) -> Seq<char>;

    fn to_string(&self) -> (r: String)
        ensures
            r@ == self.text(),
    ;
}

/// Copies the characters of `s` into a vector.
pub fn chars_of(s: &str) -> (r: Vec<char>)
    ensures
        r@ == s@,
{
    let n = s.unicode_len();
    let mut r: Vec<char> = Vec::new();
    let mut i: usize = 0;
    while i < n
        invariant
            n == s@.len(),
            i <= n,
            r@ == s@.subrange(0, i as int),
        decreases n - i,
    {
        r.push(s.get_char(i));
        i = i + 1;
    }
    assert(r@ =~= s@);
    r
}

/// Whether the characters `cs[lo..hi]` spell exactly `name`.
pub fn span_is(cs: &Vec<char>, lo: usize, hi: usize, name: &str) -> (r: bool)
    requires
        lo <= hi <= cs@.len(),
    ensures
        r == (cs@.subrange(lo as int, hi as int) == name@),
{
    let n = name.unicode_len();
    if hi - lo != n {
        return false;
    }
    let mut i: usize = 0;
    while i < n
        invariant
            n == name@.len(),
            hi - lo == n,
            lo <= hi <= cs@.len(),
            i <= n,
            forall|j: int| 0 <= j < i ==> cs@[lo + j] == name@[j],
        decreases n - i,
    {
        if cs[lo + i] != name.get_char(i) {
            assert(cs@.subrange(lo as int, hi as int)[i as int] != name@[i as int]);
            return false;
        }
        i = i + 1;
    }
    assert(cs@.subrange(lo as int, hi as int) =~= name@);
    true
}

} // verus!

//! ARPAbet phonemes (as used by CMUdict) and their classification.
use vstd::prelude::*;
use vstd::string::StrSliceExecFns;

use crate::text::chars_of;

verus! {

/// One ARPAbet symbol, possibly with a stress digit (`AH0`, `EY1`, `T`), or
/// the word boundary marker `|`.
#[derive(Debug, Clone, PartialEq, Eq)]
pub struct Phoneme {
    pub symbol: String,
}

/// The symbol without its trailing stress digits (`0`, `1`, `2`).
pub open spec fn base_of(symbol: Seq<char>) -> Seq<char>
    decreases symbol.len(),
{
    if symbol.len() > 0 && (symbol.last() == '0' || symbol.last() == '1' || symbol.last() == '2') {
        base_of(symbol.drop_last())
    } else {
        symbol
    }
}

/// The ARPAbet vowel bases.
pub open spec fn is_vowel_base(b: Seq<char>) -> bool {
    b == "AA"@ || b == "AE"@ || b == "AH"@ || b == "AO"@ || b == "AW"@ || b == "AY"@ || b == "EH"@
        || b == "ER"@ || b == "EY"@ || b == "IH"@ || b == "IY"@ || b == "OW"@ || b == "OY"@ || b
        == "UH"@ || b == "UW"@
}

/// Whether two strings are equal.
pub fn str_equals(a: &str, b: &str) -> (r: bool)
    ensures
        r == (a@ == b@),
{
    let x = chars_of(a);
    let y = chars_of(b);
    if x.len() != y.len() {
        assert(a@.len() != b@.len());
        return false;
    }
    let mut i: usize = 0;
    while i < x.len()
        invariant
            i <= x@.len(),
            x@ == a@,
            y@ == b@,
            x@.len() == y@.len(),
            forall|j: int| 0 <= j < i ==> x@[j] == y@[j],
        decreases x.len() - i,
    {
        if x[i] != y[i] {
            assert(a@[i as int] != b@[i as int]);
            return false;
        }
        i = i + 1;
    }
    assert(x@ =~= y@);
    true
}

impl Phoneme {
    /// A phoneme with the given symbol.
    pub fn new(symbol: &str) -> (p: Self)
        ensures
            p.symbol@ == symbol@,
    {
        Phoneme { symbol: symbol.to_owned() }
    }

    /// The symbol without stress digits (`EY1` → `EY`).
    pub fn base(&self) -> (b: &str)
        ensures
            b@ == base_of(self.symbol@),
    {
        let s = self.symbol.as_str();
        let cs = chars_of(s);
        let mut end = cs.len();
        assert(cs@.subrange(0, end as int) == cs@);
        while end > 0 && (cs[end - 1] == '0' || cs[end - 1] == '1' || cs[end - 1] == '2')
            invariant
                end <= cs@.len(),
                cs@ == s@,
                base_of(s@) == base_of(cs@.subrange(0, end as int)),
            decreases end,
        {
            assert(cs@.subrange(0, end as int).drop_last() == cs@.subrange(0, end - 1));
            end = end - 1;
        }
        proof {
            let t = cs@.subrange(0, end as int);
            if end > 0 {
                assert(t.last() == cs@[end - 1]);
            }
        }
        s.substring_char(0, end)
    }

    /// Whether the phoneme is a vowel.
    pub fn is_vowel(&self) -> (r: bool)
        ensures
            r == is_vowel_base(base_of(self.symbol@)),
    {
        let b = self.base();
        str_equals(b, "AA") || str_equals(b, "AE") || str_equals(b, "AH") || str_equals(b, "AO")
            || str_equals(b, "AW") || str_equals(b, "AY") || str_equals(b, "EH") || str_equals(b, "ER")
            || str_equals(b, "EY") || str_equals(b, "IH") || str_equals(b, "IY") || str_equals(b, "OW")
            || str_equals(b, "OY") || str_equals(b, "UH") || str_equals(b, "UW")
    }

    /// Whether this is the word boundary marker `|`.
    pub fn is_word_boundary(&self) -> (r: bool)
        ensures
            r == (self.symbol@ == "|"@),
    {
        str_equals(self.symbol.as_str(), "|")
    }
}

} // verus!

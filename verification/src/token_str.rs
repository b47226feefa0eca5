//! A token's spelling held as a character vector, compared element-wise.

use vstd::prelude::*;

verus! {

pub struct TokenStr {
    pub chars: Vec<char>,
}

impl TokenStr {
    pub fn new(chars: Vec<char>) -> (r: TokenStr)
        ensures
            r.chars@ == chars@,
    {
        TokenStr { chars }
    }
}

impl PartialEq for TokenStr {
    /// Two spellings are equal when they hold the same characters.
    fn eq(&self, other: &TokenStr) -> (r: bool)
        ensures
            r == (self.chars@ == other.chars@),
    {
        if self.chars.len() != other.chars.len() {
            return false;
        }
        let mut i: usize = 0;
        while i < self.chars.len()
            invariant
                i <= self.chars.len(),
                self.chars@.len() == other.chars@.len(),
                forall|j: int| 0 <= j < i ==> self.chars@[j] == other.chars@[j],
            decreases self.chars.len() - i,
        {
            if self.chars[i] != other.chars[i] {
                return false;
            }
            i = i + 1;
        }
        proof {
            assert(self.chars@ =~= other.chars@);
        }
        true
    }
}

impl vstd::std_specs::cmp::PartialEqSpecImpl for TokenStr {
    open spec fn obeys_eq_spec() -> bool {
        true
    }

    open spec fn eq_spec(&self, other: &TokenStr) -> bool {
        self.chars@ == other.chars@
    }
}

impl Eq for TokenStr {

}

} // verus!

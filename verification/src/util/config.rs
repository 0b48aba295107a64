//! The state that is kept between runs: an MD5 to validate with in place
//! of the image's own.

use crate::text::{chars_of, lower_text, string_of, to_lower};
use vstd::prelude::*;

verus! {

/// The state that is kept between runs.
#[derive(Debug, PartialEq, Eq)]
pub struct State {
    pub override_md5: Option<String>,
}

/// The MD5 that is given is not 32 hexadecimal digits.
#[derive(Debug, Clone, Copy, PartialEq, Eq, Structural)]
pub struct BadMd5;

/// A hexadecimal digit, in upper or lower case.
pub open spec fn is_hex_digit(c: char) -> bool {
    ('0' <= c && c <= '9') || ('a' <= c && c <= 'f') || ('A' <= c && c <= 'F')
}

/// Whether `s` writes an MD5: 32 hexadecimal digits.
pub open spec fn is_md5(s: Seq<char>) -> bool {
    s.len() == 32 && forall|i: int| 0 <= i < s.len() ==> is_hex_digit(#[trigger] s[i])
}

/// Whether `s` writes an MD5.
pub fn is_md5_text(s: &[char]) -> (r: bool)
    ensures
        r == is_md5(s@),
{
    if s.len() != 32 {
        return false;
    }
    let mut i: usize = 0;
    while i < s.len()
        invariant
            i <= s@.len(),
            forall|k: int| 0 <= k < i ==> is_hex_digit(#[trigger] s@[k]),
        decreases s@.len() - i,
    {
        let c = s[i];
        if !(('0' <= c && c <= '9') || ('a' <= c && c <= 'f') || ('A' <= c && c <= 'F')) {
            return false;
        }
        i += 1;
    }
    true
}

impl Default for State {
    fn default() -> (s: Self)
        ensures
            s.override_md5 is None,
    {
        State { override_md5: None }
    }
}

impl State {
    /// Keeps `md5`, in lower case, as the MD5 to validate with. It must be
    /// 32 hexadecimal digits; else nothing changes.
    pub fn set_override(&mut self, md5: &str) -> (r: Result<(), BadMd5>)
        ensures
            is_md5(md5@) ==> r is Ok && final(self).override_md5 is Some
                && final(self).override_md5->Some_0@ == lower_text(md5@),
            !is_md5(md5@) ==> r is Err && *final(self) == *old(self),
    {
        let chars = chars_of(md5);
        if !is_md5_text(chars.as_slice()) {
            return Err(BadMd5);
        }
        let low = to_lower(chars.as_slice());
        self.override_md5 = Some(string_of(low.as_slice()));
        Ok(())
    }

    /// Forgets the kept MD5.
    pub fn clear_override(&mut self)
        ensures
            final(self).override_md5 is None,
    {
        self.override_md5 = None;
    }
}

} // verus!

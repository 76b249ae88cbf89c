use crate::util::{str_to_chars, string_from_chars};
use vstd::prelude::*;

verus! {

/// A string which always holds at least one character.
#[derive(Debug, PartialEq, Eq, PartialOrd, Ord, Hash)]
pub struct NonEmptyString(String);

impl View for NonEmptyString {
    type V = Seq<char>;

    closed spec fn view(&self) -> Seq<char> {
        self.0@
    }
}

impl Clone for NonEmptyString {
    fn clone(&self) -> (r: Self)
        ensures
            r@ == self@,
    {
        proof {
            use_type_invariant(self);
        }
        NonEmptyString(self.0.clone())
    }
}

impl NonEmptyString {
    #[verifier::type_invariant]
    spec fn non_empty(&self) -> bool {
        self.0@.len() > 0
    }

    pub fn from_unchecked(s: String) -> (r: Self)
        requires
            s@.len() > 0,
        ensures
            r@ == s@,
    {
        NonEmptyString(s)
    }

    pub fn from_str_unchecked(s: &str) -> (r: Self)
        requires
            s@.len() > 0,
        ensures
            r@ == s@,
    {
        NonEmptyString(String::from_str(s))
    }

    /// A string holding exactly one character.
    pub fn from_char(ch: char) -> (r: Self)
        ensures
            r@ == seq![ch],
    {
        let mut s = String::new();
        s.push(ch);
        assert(s@ =~= seq![ch]);
        NonEmptyString(s)
    }

    /// `Ok` exactly when `s` is not empty.
    pub fn try_from_str(s: &str) -> (r: Result<Self, ()>)
        ensures
            s@.len() > 0 <==> r is Ok,
            r matches Ok(v) ==> v@ == s@,
    {
        if s.unicode_len() > 0 {
            Ok(NonEmptyString(String::from_str(s)))
        } else {
            Err(())
        }
    }

    /// `Ok` exactly when `s` is not empty.
    pub fn try_from_string(s: String) -> (r: Result<Self, ()>)
        ensures
            s@.len() > 0 <==> r is Ok,
            r matches Ok(v) ==> v@ == s@,
    {
        if s.as_str().unicode_len() > 0 {
            Ok(NonEmptyString(s))
        } else {
            Err(())
        }
    }

    /// A string holding the given characters, which must not be empty.
    pub fn from_chars(chars: &Vec<char>) -> (r: Self)
        requires
            chars@.len() > 0,
        ensures
            r@ == chars@,
    {
        NonEmptyString(string_from_chars(chars))
    }

    /// The length in bytes of the string's UTF-8 encoding.
    pub fn len(&self) -> (r: usize)
        ensures
            r == vstd::utf8::encode_utf8(self@).len() as usize,
    {
        self.0.as_str().len()
    }

    pub fn push(&mut self, ch: char)
        ensures
            final(self)@ == old(self)@.push(ch),
    {
        proof {
            use_type_invariant(&*self);
        }
        let mut s = self.0.clone();
        s.push(ch);
        self.0 = s;
    }

    pub fn push_str(&mut self, tail: &str)
        ensures
            final(self)@ == old(self)@ + tail@,
    {
        proof {
            use_type_invariant(&*self);
        }
        let mut s = self.0.clone();
        s.append(tail);
        self.0 = s;
    }

    pub fn into_inner(self) -> (r: String)
        ensures
            r@ == self@,
            r@.len() > 0,
    {
        proof {
            use_type_invariant(&self);
        }
        self.0
    }

    pub fn as_str(&self) -> (r: &str)
        ensures
            r@ == self@,
            r@.len() > 0,
    {
        proof {
            use_type_invariant(self);
        }
        self.0.as_str()
    }

    /// The characters of the string, in order.
    pub fn chars(&self) -> (r: Vec<char>)
        ensures
            r@ == self@,
    {
        str_to_chars(self.0.as_str())
    }
}

} // verus!

//! The optional password that guards a clip.

use vstd::prelude::*;

verus! {

/// The password of a clip, or none.
#[derive(Debug)]
pub struct Password(Option<String>);

impl View for Password {
    type V = Option<Seq<char>>;

    closed spec fn view(&self) -> Option<Seq<char>> {
        match self.0 {
            Some(text) => Some(text@),
            None => None,
        }
    }
}

impl Password {
    /// Gives the password back, if there is one.
    pub fn into_inner(self) -> (password: Option<String>)
        ensures
            match password {
                Some(text) => self@ == Some(text@),
                None => self@ is None,
            },
    {
        self.0
    }

    /// Whether a password is set.
    pub fn has_password(&self) -> (set: bool)
        ensures
            set == self@ is Some,
    {
        self.0.is_some()
    }
}

impl Default for Password {
    /// No password.
    fn default() -> (password: Self)
        ensures
            password@ is None,
    {
        Password(None)
    }
}

} // verus!

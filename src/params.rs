use crate::text::{trim_str, trimmed};
use vstd::prelude::*;

verus! {

/// The longest token a client may present, in characters.
pub const MAX_TOKEN_CHARS: usize = 32;

/// What a client asks for when it connects: a game to join and a name.
pub struct NewGameParams {
    pub token: Option<String>,
    pub name: Option<String>,
}

/// The text of an optional string.
pub open spec fn opt_text(o: Option<String>) -> Option<Seq<char>> {
    match o {
        Some(s) => Some(s@),
        None => None,
    }
}

/// An optional field once normalized: trimmed, and absent if blank.
pub open spec fn normalized_field(o: Option<String>) -> Option<Seq<char>> {
    match o {
        Some(s) => field_from_trimmed(trimmed(s@)),
        None => None,
    }
}

/// A trimmed field, kept unless it is empty.
pub open spec fn field_from_trimmed(t: Seq<char>) -> Option<Seq<char>> {
    if t.len() == 0 {
        None
    } else {
        Some(t)
    }
}

/// Keeps a field that is trimmed already, unless it is empty.
pub fn keep_trimmed_field(t: &str) -> (r: Option<String>)
    ensures
        opt_text(r) == field_from_trimmed(t@),
{
    if t.unicode_len() == 0 {
        None
    } else {
        Some(String::from_str(t))
    }
}

/// Trims a field and drops it if nothing is left.
fn normalize_field(o: &Option<String>) -> (r: Option<String>)
    ensures
        opt_text(r) == normalized_field(*o),
{
    match o {
        Some(s) => keep_trimmed_field(trim_str(s.as_str())),
        None => None,
    }
}

impl NewGameParams {
    /// The parameters with both fields trimmed and blank ones dropped.
    pub fn normalized(&self) -> (r: NewGameParams)
        ensures
            opt_text(r.token) == normalized_field(self.token),
            opt_text(r.name) == normalized_field(self.name),
    {
        NewGameParams { token: normalize_field(&self.token), name: normalize_field(&self.name) }
    }

    /// A token, if given, is at most `MAX_TOKEN_CHARS` characters long.
    pub fn is_valid(&self) -> (r: bool)
        ensures
            r == (self.token matches Some(t) ==> t@.len() <= MAX_TOKEN_CHARS),
    {
        match &self.token {
            Some(t) => t.as_str().unicode_len() <= MAX_TOKEN_CHARS,
            None => true,
        }
    }
}

} // verus!

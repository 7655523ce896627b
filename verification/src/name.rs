use vstd::prelude::*;

use crate::chars;
use crate::errors::Error;

verus! {

/// A valid crate name: non-empty, at most 64 characters, first character an
/// ASCII letter, every character ASCII alphanumeric, `-` or `_`.
pub open spec fn valid_crate_name(s: Seq<char>) -> bool {
    &&& 1 <= s.len() <= 64
    &&& chars::is_alpha(s[0])
    &&& forall|i: int| 0 <= i < s.len() ==> chars::is_name_char(s[i])
}

/// The ways a crate name can fail validation, in the order the rules are
/// checked: the first rule broken names the failure.
pub enum NameFailure {
    Empty,
    TooLong,
    BadFirstChar,
    BadChar,
}

/// The first validation rule that `s` breaks, if any.
pub open spec fn name_failure(s: Seq<char>) -> Option<NameFailure> {
    if s.len() == 0 {
        Some(NameFailure::Empty)
    } else if s.len() > 64 {
        Some(NameFailure::TooLong)
    } else if !chars::is_alpha(s[0]) {
        Some(NameFailure::BadFirstChar)
    } else if exists|i: int| 0 <= i < s.len() && !chars::is_name_char(s[i]) {
        Some(NameFailure::BadChar)
    } else {
        None
    }
}

/// The message reported for each validation failure.
pub open spec fn name_failure_text(f: NameFailure) -> Seq<char> {
    match f {
        NameFailure::Empty => "crate name cannot be empty"@,
        NameFailure::TooLong => "crate name exceeds 64 characters"@,
        NameFailure::BadFirstChar => "crate name must start with a letter"@,
        NameFailure::BadChar => "invalid character in crate name"@,
    }
}

/// Validate a crate name: it must be non-empty, at most 64 characters long,
/// start with an ASCII letter, and contain only ASCII alphanumeric
/// characters, `-` or `_`. The rules are checked in that order and the first
/// rule broken decides the message.
pub fn validate_crate_name(name: &str) -> (r: Result<(), Error>)
    ensures
        r is Ok <==> valid_crate_name(name@),
        r matches Err(e) ==> ({
            &&& name_failure(name@) is Some
            &&& e matches Error::InvalidCrateName(m) && m@ == name_failure_text(
                name_failure(name@)->0,
            )
        }),
{
    let n = name.unicode_len();
    if n == 0 {
        return Err(Error::InvalidCrateName("crate name cannot be empty".to_owned()));
    }
    if n > 64 {
        return Err(Error::InvalidCrateName("crate name exceeds 64 characters".to_owned()));
    }
    if !chars::alpha(name.get_char(0)) {
        return Err(Error::InvalidCrateName("crate name must start with a letter".to_owned()));
    }
    let mut i: usize = 0;
    while i < n
        invariant
            i <= n,
            n == name@.len(),
            1 <= n <= 64,
            chars::is_alpha(name@[0]),
            forall|j: int| 0 <= j < i ==> chars::is_name_char(name@[j]),
        decreases n - i,
    {
        if !chars::name_char(name.get_char(i)) {
            return Err(Error::InvalidCrateName("invalid character in crate name".to_owned()));
        }
        i += 1;
    }
    Ok(())
}

} // verus!

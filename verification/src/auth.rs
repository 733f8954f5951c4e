//! What is asked of an email address and a password before they are taken.

use vstd::prelude::*;
use vstd::string::StrSliceExecFns;

verus! {

/// The least number of characters of an email address.
pub const EMAIL_MIN: usize = 6;

/// The least number of characters of a password.
pub const PASSWORD_MIN: usize = 4;

/// The greatest number of characters of either.
pub const INPUT_MAX: usize = 64;

/// What the user gave at the prompt.
pub struct AuthInPrompt {
    pub email: String,
    pub password: String,
}

/// An email address of six to sixty-four characters.
pub open spec fn is_acceptable_email(input: Seq<char>) -> bool {
    EMAIL_MIN <= input.len() <= INPUT_MAX
}

/// A password of four to sixty-four characters.
pub open spec fn is_acceptable_password(input: Seq<char>) -> bool {
    PASSWORD_MIN <= input.len() <= INPUT_MAX
}

/// Whether `input` has the length of an email address.
pub fn accepts_email(input: &str) -> (b: bool)
    ensures
        b == is_acceptable_email(input@),
{
    let chars_count = input.unicode_len();
    !(chars_count > INPUT_MAX || chars_count < EMAIL_MIN)
}

/// Whether `input` has the length of a password.
pub fn accepts_password(input: &str) -> (b: bool)
    ensures
        b == is_acceptable_password(input@),
{
    let chars_count = input.unicode_len();
    !(chars_count > INPUT_MAX || chars_count < PASSWORD_MIN)
}

} // verus!

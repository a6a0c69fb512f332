//! Fresh names for the variables and element ids of generated code.

use crate::text::push_char;
use vstd::prelude::*;

verus! {

/// Whether `c` is an ASCII letter or digit.
pub open spec fn is_ascii_alphanumeric(c: char) -> bool {
    ('A' <= c <= 'Z') || ('a' <= c <= 'z') || ('0' <= c <= '9')
}

/// Whether `s` has the shape of a generated name: an underscore followed by
/// `len` ASCII letters and digits.
pub open spec fn is_random_name(s: Seq<char>, len: nat) -> bool {
    &&& s.len() == len + 1
    &&& s[0] == '_'
    &&& forall|i: int| 1 <= i <= len ==> is_ascii_alphanumeric(#[trigger] s[i])
}

/// One random character. This samples `rand::distributions::Alphanumeric`
/// with the thread's generator: the distribution hands out one byte of
/// `A-Z`, `a-z` and `0-9`. The contract claims only that the character is
/// one of those; which one differs from call to call.
#[verifier::external_body]
fn random_alphanumeric() -> (c: char)
    ensures
        is_ascii_alphanumeric(c),
{
    char::from(rand::Rng::sample(&mut rand::thread_rng(), rand::distributions::Alphanumeric))
}

/// A fresh name: an underscore followed by `len` random letters and digits.
pub fn generate_random_variable_name(len: usize) -> (r: String)
    ensures
        is_random_name(r@, len as nat),
{
    let mut out = String::new();
    push_char(&mut out, '_');
    let mut i: usize = 0;
    while i < len
        invariant
            i <= len,
            out@.len() == i + 1,
            out@[0] == '_',
            forall|j: int| 1 <= j <= i ==> is_ascii_alphanumeric(#[trigger] out@[j]),
        decreases len - i,
    {
        let c = random_alphanumeric();
        push_char(&mut out, c);
        i += 1;
    }
    out
}

} // verus!

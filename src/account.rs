use vstd::prelude::*;

verus! {

/// Lower-case ASCII letters and digits.
pub open spec fn is_alnum(c: char) -> bool {
    ('a' <= c && c <= 'z') || ('0' <= c && c <= '9')
}

/// The three characters that may separate the parts of an account name.
pub open spec fn is_separator(c: char) -> bool {
    c == '-' || c == '_' || c == '.'
}

pub open spec fn is_account_char(c: char) -> bool {
    is_alnum(c) || is_separator(c)
}

/// A well-formed account name: 2 to 64 characters out of `[a-z0-9-_.]`,
/// neither starting nor ending with a separator, and with no two separators
/// side by side.
pub open spec fn valid_account_id(s: Seq<char>) -> bool {
    &&& 2 <= s.len() <= 64
    &&& forall|i: int| 0 <= i < s.len() ==> #[trigger] is_account_char(s[i])
    &&& !is_separator(s[0])
    &&& !is_separator(s[s.len() - 1])
    &&& forall|i: int|
        0 <= i < s.len() - 1 ==> !(#[trigger] is_separator(s[i]) && is_separator(s[i + 1]))
}

/// Relies on `near_sdk::env::is_valid_account_id`, a pure check of the name's
/// bytes: length within 2..=64, only `[a-z0-9-_.]`, no leading, trailing or
/// doubled separator. Any byte of a non-ASCII character fails the same check.
#[verifier::external_body]
pub(crate) fn is_valid_account_id(account_id: &str) -> (r: bool)
    ensures
        r == valid_account_id(account_id@),
{
    near_sdk::env::is_valid_account_id(account_id.as_bytes())
}

} // verus!

use rand::distributions::DistString;
use vstd::prelude::*;
use vstd::utf8::encode_utf8;

verus! {

/// Longest username a session may take, counted in UTF-8 bytes.
pub const MAX_USERNAME_BYTES: usize = 12;

/// Number of random characters appended to the `user` prefix.
pub const RANDOM_SUFFIX_LEN: usize = 4;

/// Length of a string in UTF-8 bytes.
pub open spec fn byte_len(s: Seq<char>) -> nat {
    encode_utf8(s).len()
}

/// A username a session may carry.
pub open spec fn valid_username(s: Seq<char>) -> bool {
    byte_len(s) <= MAX_USERNAME_BYTES
}

pub open spec fn is_ascii_alphanumeric(c: char) -> bool {
    ('A' <= c && c <= 'Z') || ('a' <= c && c <= 'z') || ('0' <= c && c <= '9')
}

pub open spec fn is_upper_alphanumeric(c: char) -> bool {
    ('A' <= c && c <= 'Z') || ('0' <= c && c <= '9')
}

/// ASCII upper-casing of one character; everything else is left alone.
pub open spec fn ascii_upper(c: char) -> char {
    if 'a' <= c && c <= 'z' {
        ((c as u32) - 32) as char
    } else {
        c
    }
}

pub open spec fn ascii_upper_seq(s: Seq<char>) -> Seq<char> {
    Seq::new(s.len(), |i: int| ascii_upper(s[i]))
}

/// The shape of a generated name: `user` followed by four characters from
/// `A-Z0-9`.
pub open spec fn is_generated_username(s: Seq<char>) -> bool {
    &&& s.len() == 8
    &&& s.subrange(0, 4) == seq!['u', 's', 'e', 'r']
    &&& forall|i: int| 4 <= i < 8 ==> #[trigger] is_upper_alphanumeric(s[i])
}

/// A generated name is a valid username.
pub proof fn lemma_generated_is_valid(s: Seq<char>)
    requires
        is_generated_username(s),
    ensures
        valid_username(s),
{
    assert(s.subrange(0, 4)[0] == 'u' && s.subrange(0, 4)[1] == 's');
    assert(s.subrange(0, 4)[2] == 'e' && s.subrange(0, 4)[3] == 'r');
    assert(vstd::utf8::is_ascii_chars(s)) by {
        assert forall|i: int| 0 <= i < s.len() implies '\0' <= #[trigger] s[i] <= '\u{7f}' by {
            if i < 4 {
                assert(s[i] == s.subrange(0, 4)[i]);
            } else {
                assert(is_upper_alphanumeric(s[i]));
            }
        }
    }
    vstd::utf8::is_ascii_chars_encode_utf8(s);
}

/// Relies on rand's `Alphanumeric::sample_string` with the thread-local
/// generator: `len` characters, each drawn from `A-Z`, `a-z`, `0-9`.
#[verifier::external_body]
fn random_alphanumeric(len: usize) -> (r: String)
    ensures
        r@.len() == len,
        forall|i: int| 0 <= i < r@.len() ==> #[trigger] is_ascii_alphanumeric(r@[i]),
{
    rand::distributions::Alphanumeric.sample_string(&mut rand::thread_rng(), len)
}

/// Relies on `str::to_ascii_uppercase`: `a`-`z` become `A`-`Z`, all other
/// characters are kept.
#[verifier::external_body]
fn to_ascii_uppercase(s: &str) -> (r: String)
    ensures
        r@ == ascii_upper_seq(s@),
{
    s.to_ascii_uppercase()
}

/// Builds a username from a random sample: `user` followed by the sample in
/// ASCII upper case.
pub fn username_from_sample(sample: &str) -> (r: String)
    ensures
        r@ == seq!['u', 's', 'e', 'r'] + ascii_upper_seq(sample@),
{
    let upper = to_ascii_uppercase(sample);
    let prefix = String::from_str("user");
    proof {
        reveal_strlit("user");
    }
    prefix.concat(upper.as_str())
}

/// A fresh name of the form `user` + four random characters from `A-Z0-9`.
pub fn create_random_username() -> (r: String)
    ensures
        is_generated_username(r@),
{
    let sample = random_alphanumeric(RANDOM_SUFFIX_LEN);
    let r = username_from_sample(sample.as_str());
    assert(r@.subrange(0, 4) =~= seq!['u', 's', 'e', 'r']);
    assert forall|i: int| 4 <= i < 8 implies #[trigger] is_upper_alphanumeric(r@[i]) by {
        assert(r@[i] == ascii_upper(sample@[i - 4]));
        assert(is_ascii_alphanumeric(sample@[i - 4]));
    }
    r
}

} // verus!

//! Session keys.
use vstd::prelude::*;
use vstd::string::StringExecFns;

verus! {

/// An opaque, immutable identifier of a session record; compared by content.
#[derive(Debug, Clone, PartialEq, Eq, Hash)]
pub struct SessionKey {
    key: String,
}

impl View for SessionKey {
    type V = Seq<char>;

    closed spec fn view(&self) -> Seq<char> {
        self.key@
    }
}

/// How a key is shown in messages: keys longer than 24 characters keep their
/// first and last 8 characters around `...`.
pub open spec fn abbreviated(s: Seq<char>) -> Seq<char> {
    if s.len() > 24 {
        s.subrange(0, 8) + "..."@ + s.subrange(s.len() - 8, s.len() as int)
    } else {
        s
    }
}

impl SessionKey {
    pub fn new(key: &str) -> (r: SessionKey)
        ensures
            r@ == key@,
    {
        SessionKey { key: key.to_owned() }
    }

    /// Wraps an owned string without copying it.
    pub fn from_string(key: String) -> (r: SessionKey)
        ensures
            r@ == key@,
    {
        SessionKey { key }
    }

    pub fn as_str(&self) -> (r: &str)
        ensures
            r@ == self@,
    {
        self.key.as_str()
    }

    /// The key as an owned string.
    pub fn to_text(&self) -> (r: String)
        ensures
            r@ == self@,
    {
        self.key.clone()
    }

    /// A copy of this key.
    pub fn duplicate(&self) -> (r: SessionKey)
        ensures
            r@ == self@,
    {
        SessionKey { key: self.key.clone() }
    }

    /// Whether two keys hold the same text.
    pub fn same_as(&self, other: &SessionKey) -> (r: bool)
        ensures
            r == (self@ == other@),
    {
        self.key == other.key
    }

    /// The key as shown in messages (see [`abbreviated`]).
    pub fn to_string(&self) -> (r: String)
        ensures
            r@ == abbreviated(self@),
    {
        let s = self.key.as_str();
        let n = s.unicode_len();
        if n > 24 {
            proof {
                reveal_strlit("...");
            }
            let head = String::from_str(s.substring_char(0, 8));
            let head = head.concat("...");
            head.concat(s.substring_char(n - 8, n))
        } else {
            self.key.clone()
        }
    }
}


/// An ASCII letter or digit.
pub open spec fn is_alphanumeric(c: char) -> bool {
    ('A' <= c && c <= 'Z') || ('a' <= c && c <= 'z') || ('0' <= c && c <= '9')
}

/// `len` ASCII letters and digits.
pub open spec fn is_token(s: Seq<char>, len: nat) -> bool {
    s.len() == len && forall|i: int| 0 <= i < s.len() ==> is_alphanumeric(#[trigger] s[i])
}

/// Relies on rand's `Alphanumeric::sample_string` over the thread-local
/// generator: `len` characters, each drawn from `A-Z`, `a-z` and `0-9`.
#[verifier::external_body]
fn random_alphanumeric(len: usize) -> (r: String)
    ensures
        is_token(r@, len as nat),
{
    rand::distributions::DistString::sample_string(
        &rand::distributions::Alphanumeric,
        &mut rand::thread_rng(),
        len,
    )
}

/// Length of a top-level session key.
pub const KEY_LENGTH: usize = 64;

/// A fresh random session key that is not `old`: a random token of
/// `KEY_LENGTH` letters and digits; in the (negligible) case that the draw
/// equals `old`, its first character is changed.
pub fn fresh_key(old: &SessionKey) -> (r: SessionKey)
    ensures
        is_token(r@, KEY_LENGTH as nat),
        r@ != old@,
{
    let drawn = generate_random_key(KEY_LENGTH);
    if drawn == old.to_text() {
        let s = drawn.as_str();
        let first = s.get_char(0);
        let rest = s.substring_char(1, KEY_LENGTH);
        proof {
            reveal_strlit("A");
            reveal_strlit("B");
        }
        let head = if first == 'A' {
            "B"
        } else {
            "A"
        };
        let changed = String::from_str(head).concat(rest);
        proof {
            assert(changed@ == head@ + rest@);
            assert(changed@[0] == head@[0]);
            assert(changed@[0] != old@[0]);
            assert forall|i: int| 0 <= i < changed@.len() implies is_alphanumeric(#[trigger] changed@[i]) by {
                if i > 0 {
                    assert(changed@[i] == drawn@[i]);
                }
            }
        }
        SessionKey::from_string(changed)
    } else {
        SessionKey::from_string(drawn)
    }
}

/// A fresh random key of `len` letters and digits, drawn from a
/// cryptographically secure generator.
pub fn generate_random_key(len: usize) -> (r: String)
    ensures
        is_token(r@, len as nat),
{
    random_alphanumeric(len)
}

} // verus!

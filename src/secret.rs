use crate::errors::SecretError;
use vstd::prelude::*;

verus! {

/// Number of characters of a secret in its textual form.
pub const SECRET_LENGTH: usize = 192;

/// A hexadecimal digit, in either case.
pub open spec fn is_hex_char(c: char) -> bool {
    ('0' <= c && c <= '9') || ('a' <= c && c <= 'f') || ('A' <= c && c <= 'F')
}

/// Every character of `s` is a hexadecimal digit.
pub open spec fn all_hex(s: Seq<char>) -> bool {
    forall|i: int| 0 <= i < s.len() ==> #[trigger] is_hex_char(s[i])
}

/// The shape of a well-formed secret: exactly 192 hexadecimal digits.
pub open spec fn is_secret_text(s: Seq<char>) -> bool {
    s.len() == SECRET_LENGTH && all_hex(s)
}

/// Decides [`is_hex_char`].
pub fn is_hex_digit(c: char) -> (r: bool)
    ensures
        r == is_hex_char(c),
{
    ('0' <= c && c <= '9') || ('a' <= c && c <= 'f') || ('A' <= c && c <= 'F')
}

/// Decides [`is_secret_text`] on the characters of `s`.
pub fn is_secret_shaped(s: &str) -> (r: bool)
    ensures
        r == is_secret_text(s@),
{
    let mut hex: bool = true;
    // the number of characters seen, saturated just past the secret's length
    let mut count: usize = 0;
    for c in it: s.chars()
        invariant
            it.seq() == s@,
            hex == all_hex(s@.take(it.index() as int)),
            count as int == if it.index() <= SECRET_LENGTH {
                it.index() as int
            } else {
                SECRET_LENGTH + 1
            },
    {
        let h = is_hex_digit(c);
        proof {
            let k = it.index() as int;
            assert(c == s@[k]);
            assert(s@.take(k + 1) == s@.take(k).push(c));
            if hex && h {
                assert forall|i: int| 0 <= i < k + 1 implies #[trigger] is_hex_char(
                    s@.take(k + 1)[i],
                ) by {
                    if i < k {
                        assert(s@.take(k + 1)[i] == s@.take(k)[i]);
                    }
                }
            }
            if !h {
                assert(!is_hex_char(s@.take(k + 1)[k]));
            }
            if !hex {
                let j = choose|j: int| 0 <= j < k && !is_hex_char(#[trigger] s@.take(k)[j]);
                assert(s@.take(k + 1)[j] == s@.take(k)[j]);
            }
        }
        hex = hex && h;
        if count <= SECRET_LENGTH {
            count = count + 1;
        }
    }
    proof {
        assert(s@.take(s@.len() as int) == s@);
    }
    hex && count == SECRET_LENGTH
}

/// An application secret in textual form: always 192 hexadecimal digits.
#[derive(Debug, PartialEq, Eq)]
pub struct AppSecret(String);

impl View for AppSecret {
    type V = Seq<char>;

    closed spec fn view(&self) -> Seq<char> {
        self.0@
    }
}

impl AppSecret {
    /// Every secret is 192 hexadecimal digits.
    #[verifier::type_invariant]
    spec fn well_formed(&self) -> bool {
        is_secret_text(self.0@)
    }

    /// Wraps `value` after checking that it is 192 hexadecimal digits.
    pub fn new(value: String) -> (r: Result<AppSecret, SecretError>)
        ensures
            is_secret_text(value@) <==> r is Ok,
            r is Ok ==> r->Ok_0@ == value@,
            r is Err ==> r->Err_0 is InvalidFormat,
    {
        if !is_secret_shaped(value.as_str()) {
            return Err(SecretError::InvalidFormat);
        }
        Ok(AppSecret(value))
    }

    /// Wraps a value that is known to be well formed.
    pub(crate) fn new_unchecked(value: String) -> (r: AppSecret)
        requires
            is_secret_text(value@),
        ensures
            r@ == value@,
    {
        AppSecret(value)
    }

    /// The secret's text.
    pub fn as_str(&self) -> (r: &str)
        ensures
            r@ == self@,
            is_secret_text(r@),
    {
        proof {
            use_type_invariant(self);
        }
        self.0.as_str()
    }

    /// The secret's text, as an owned string.
    pub fn to_string(&self) -> (r: String)
        ensures
            r@ == self@,
            is_secret_text(r@),
    {
        proof {
            use_type_invariant(self);
        }
        self.0.clone()
    }

    /// Whether the secret is 192 hexadecimal digits, which every secret is.
    pub fn is_valid(&self) -> (r: bool)
        ensures
            r == is_secret_text(self@),
            r,
    {
        proof {
            use_type_invariant(self);
        }
        is_secret_shaped(self.0.as_str())
    }
}

impl Clone for AppSecret {
    fn clone(&self) -> (r: AppSecret)
        ensures
            r@ == self@,
    {
        proof {
            use_type_invariant(self);
        }
        AppSecret(self.0.clone())
    }
}

impl AsRef<str> for AppSecret {
    fn as_ref(&self) -> (r: &str)
        ensures
            r@ == self@,
    {
        self.0.as_str()
    }
}

} // verus!

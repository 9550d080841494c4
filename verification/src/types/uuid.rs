use crate::traits::normalize::{DBNormalize, DBNormalizeResult};
use vstd::prelude::*;
use vstd::std_specs::cmp::PartialEqSpecImpl;
use vstd::string::is_ascii_spec_bytes;
use vstd::string::StringSliceAdditionalSpecFns;

verus! {

/// The message returned for a string that holds a character no identifier can have.
pub const INVALID_CHARS: &'static str = "nanoid::decoding::invalid_chars";

/// Whether `c` is a digit or an unaccented Latin letter.
pub open spec fn is_simple_alphabet_char(c: char) -> bool {
    ('0' <= c <= '9') || ('A' <= c <= 'Z') || ('a' <= c <= 'z')
}

/// Whether `c` may occur in an identifier: a digit, an unaccented Latin
/// letter, a hyphen or an underscore.
pub open spec fn is_alphabet_char(c: char) -> bool {
    c == '-' || c == '_' || is_simple_alphabet_char(c)
}

/// Whether `c` is a digit or a letter other than the capitals `I` and `O`.
pub open spec fn is_base60_char(c: char) -> bool {
    is_simple_alphabet_char(c) && c != 'I' && c != 'O'
}

/// Whether `c` is a digit other than `0` or a letter other than `I`, `O` and `l`.
pub open spec fn is_base58_char(c: char) -> bool {
    is_base60_char(c) && c != '0' && c != 'l'
}

/// Whether every character of `s` may occur in an identifier.
pub open spec fn is_nanoid(s: Seq<char>) -> bool {
    forall|i: int| 0 <= i < s.len() ==> is_alphabet_char(#[trigger] s[i])
}

/// The characters identifiers are drawn from, in the order in which the store sorts them.
fn alphabet() -> (r: Vec<char>)
    ensures
        r@.len() == 64,
        forall|i: int| 0 <= i < r@.len() ==> is_alphabet_char(#[trigger] r@[i]),
{
    vec![
        '-', '0', '1', '2', '3', '4', '5', '6', '7', '8', '9', 'A', 'B', 'C', 'D', 'E', 'F', 'G',
        'H', 'I', 'J', 'K', 'L', 'M', 'N', 'O', 'P', 'Q', 'R', 'S', 'T', 'U', 'V', 'W', 'X', 'Y',
        'Z', '_', 'a', 'b', 'c', 'd', 'e', 'f', 'g', 'h', 'i', 'j', 'k', 'l', 'm', 'n', 'o', 'p',
        'q', 'r', 's', 't', 'u', 'v', 'w', 'x', 'y', 'z',
    ]
}

/// The alphabet without the hyphen and the underscore.
fn simple_alphabet() -> (r: Vec<char>)
    ensures
        r@.len() == 62,
        forall|i: int| 0 <= i < r@.len() ==> is_simple_alphabet_char(#[trigger] r@[i]),
{
    vec![
        '0', '1', '2', '3', '4', '5', '6', '7', '8', '9', 'A', 'B', 'C', 'D', 'E', 'F', 'G', 'H',
        'I', 'J', 'K', 'L', 'M', 'N', 'O', 'P', 'Q', 'R', 'S', 'T', 'U', 'V', 'W', 'X', 'Y', 'Z',
        'a', 'b', 'c', 'd', 'e', 'f', 'g', 'h', 'i', 'j', 'k', 'l', 'm', 'n', 'o', 'p', 'q', 'r',
        's', 't', 'u', 'v', 'w', 'x', 'y', 'z',
    ]
}

/// The simple alphabet without the capitals `I` and `O`.
fn base60_alphabet() -> (r: Vec<char>)
    ensures
        r@.len() == 60,
        forall|i: int| 0 <= i < r@.len() ==> is_base60_char(#[trigger] r@[i]),
{
    vec![
        '0', '1', '2', '3', '4', '5', '6', '7', '8', '9', 'A', 'B', 'C', 'D', 'E', 'F', 'G', 'H',
        'J', 'K', 'L', 'M', 'N', 'P', 'Q', 'R', 'S', 'T', 'U', 'V', 'W', 'X', 'Y', 'Z', 'a', 'b',
        'c', 'd', 'e', 'f', 'g', 'h', 'i', 'j', 'k', 'l', 'm', 'n', 'o', 'p', 'q', 'r', 's', 't',
        'u', 'v', 'w', 'x', 'y', 'z',
    ]
}

/// The base-60 alphabet without the digit `0` and the letter `l`.
fn base58_alphabet() -> (r: Vec<char>)
    ensures
        r@.len() == 58,
        forall|i: int| 0 <= i < r@.len() ==> is_base58_char(#[trigger] r@[i]),
{
    vec![
        '1', '2', '3', '4', '5', '6', '7', '8', '9', 'A', 'B', 'C', 'D', 'E', 'F', 'G', 'H', 'J',
        'K', 'L', 'M', 'N', 'P', 'Q', 'R', 'S', 'T', 'U', 'V', 'W', 'X', 'Y', 'Z', 'a', 'b', 'c',
        'd', 'e', 'f', 'g', 'h', 'i', 'j', 'k', 'm', 'n', 'o', 'p', 'q', 'r', 's', 't', 'u', 'v',
        'w', 'x', 'y', 'z',
    ]
}

/// Draws a random identifier with `nanoid::format`, fed by `nanoid::rngs::default`.
///
/// Which characters come out cannot be predicted. Whatever the draw, nanoid
/// returns once it has collected `size` characters, each picked from
/// `alphabet` by index. It never returns for an empty alphabet or a size of
/// zero, and it rejects an alphabet of more than 255 characters; it counts
/// the collected characters in bytes, which is their number only for ASCII.
#[verifier::external_body]
fn nanoid_format(alphabet: &Vec<char>, size: usize) -> (r: String)
    requires
        1 <= alphabet@.len() <= 255,
        forall|i: int| 0 <= i < alphabet@.len() ==> #[trigger] alphabet@[i] <= '\u{7f}',
        1 <= size <= usize::MAX / 8,
    ensures
        r@.len() == size,
        forall|i: int| 0 <= i < r@.len() ==> alphabet@.contains(#[trigger] r@[i]),
{
    nanoid::format(nanoid::rngs::default, alphabet.as_slice(), size)
}

/// Checks that every character of `s` may occur in an identifier.
pub fn check_nanoid(s: &str) -> (r: Result<(), &'static str>)
    ensures
        r is Ok <==> is_nanoid(s@),
        r is Err ==> r->Err_0@ == INVALID_CHARS@,
{
    broadcast use is_ascii_spec_bytes;

    if !s.is_ascii() {
        return Err(INVALID_CHARS);
    }
    let bytes = s.as_bytes();
    let n = bytes.len();
    let mut i: usize = 0;
    while i < n
        invariant
            s.is_ascii(),
            bytes@ == s.spec_bytes(),
            n == bytes@.len(),
            n == s@.len(),
            i <= n,
            forall|j: int| 0 <= j < i ==> is_alphabet_char(#[trigger] s@[j]),
        decreases n - i,
    {
        let b = bytes[i];
        assert(b == s@[i as int] as u8);
        assert(s@[i as int] <= '\u{7f}');
        let valid = b == 45 || b == 95 || (48 <= b && b <= 57) || (65 <= b && b <= 90) || (97 <= b
            && b <= 122);
        if !valid {
            assert(!is_alphabet_char(s@[i as int]));
            return Err(INVALID_CHARS);
        }
        i += 1;
    }
    Ok(())
}

/// A random, URL-safe identifier.
#[derive(Debug, Eq, Hash, PartialOrd, Ord)]
pub struct DBUuid(String);

impl View for DBUuid {
    type V = Seq<char>;

    /// The characters of the identifier.
    closed spec fn view(&self) -> Seq<char> {
        self.0@
    }
}

impl Clone for DBUuid {
    fn clone(&self) -> (r: Self)
        ensures
            r@ == self@,
    {
        DBUuid(self.0.clone())
    }
}

impl PartialEq for DBUuid {
    fn eq(&self, other: &Self) -> (r: bool) {
        self.0 == other.0
    }
}

impl PartialEqSpecImpl for DBUuid {
    open spec fn obeys_eq_spec() -> bool {
        true
    }

    open spec fn eq_spec(&self, other: &Self) -> bool {
        self@ == other@
    }
}

impl DBUuid {
    // CONSTRUCTORS -----------------------------------------------------------

    /// A fresh identifier of 22 characters.
    pub fn new() -> (r: DBUuid)
        ensures
            r@.len() == 22,
            is_nanoid(r@),
    {
        Self::new_with_length(22)
    }

    /// A fresh identifier of `length` characters.
    pub fn new_with_length(length: usize) -> (r: DBUuid)
        requires
            1 <= length <= usize::MAX / 8,
        ensures
            r@.len() == length,
            is_nanoid(r@),
    {
        let alphabet = alphabet();
        DBUuid(nanoid_format(&alphabet, length))
    }

    /// A fresh identifier of 23 digits and letters.
    pub fn new_simple() -> (r: DBUuid)
        ensures
            r@.len() == 23,
            forall|i: int| 0 <= i < r@.len() ==> is_simple_alphabet_char(#[trigger] r@[i]),
    {
        Self::new_simple_with_length(23)
    }

    /// A fresh identifier of `length` digits and letters.
    pub fn new_simple_with_length(length: usize) -> (r: DBUuid)
        requires
            1 <= length <= usize::MAX / 8,
        ensures
            r@.len() == length,
            forall|i: int| 0 <= i < r@.len() ==> is_simple_alphabet_char(#[trigger] r@[i]),
    {
        let alphabet = simple_alphabet();
        DBUuid(nanoid_format(&alphabet, length))
    }

    /// A fresh identifier of 23 characters that are easy to tell apart.
    pub fn new_base60() -> (r: DBUuid)
        ensures
            r@.len() == 23,
            forall|i: int| 0 <= i < r@.len() ==> is_base60_char(#[trigger] r@[i]),
    {
        Self::new_base60_with_length(23)
    }

    /// A fresh identifier of `length` characters that are easy to tell apart.
    pub fn new_base60_with_length(length: usize) -> (r: DBUuid)
        requires
            1 <= length <= usize::MAX / 8,
        ensures
            r@.len() == length,
            forall|i: int| 0 <= i < r@.len() ==> is_base60_char(#[trigger] r@[i]),
    {
        let alphabet = base60_alphabet();
        DBUuid(nanoid_format(&alphabet, length))
    }

    /// A fresh identifier of 23 characters that are easier still to tell apart.
    pub fn new_base58() -> (r: DBUuid)
        ensures
            r@.len() == 23,
            forall|i: int| 0 <= i < r@.len() ==> is_base58_char(#[trigger] r@[i]),
    {
        Self::new_base58_with_length(23)
    }

    /// A fresh identifier of `length` characters that are easier still to tell apart.
    pub fn new_base58_with_length(length: usize) -> (r: DBUuid)
        requires
            1 <= length <= usize::MAX / 8,
        ensures
            r@.len() == length,
            forall|i: int| 0 <= i < r@.len() ==> is_base58_char(#[trigger] r@[i]),
    {
        let alphabet = base58_alphabet();
        DBUuid(nanoid_format(&alphabet, length))
    }

    /// The identifier written in `s`, if every character of `s` may occur in one.
    pub fn from_str(s: &str) -> (r: Result<DBUuid, &'static str>)
        ensures
            match r {
                Ok(id) => is_nanoid(s@) && id@ == s@,
                Err(e) => !is_nanoid(s@) && e@ == INVALID_CHARS@,
            },
    {
        match check_nanoid(s) {
            Ok(_) => Ok(DBUuid(s.to_owned())),
            Err(e) => Err(e),
        }
    }

    /// The identifier held by `s`, if every character of `s` may occur in one.
    pub fn try_from(s: String) -> (r: Result<DBUuid, &'static str>)
        ensures
            match r {
                Ok(id) => is_nanoid(s@) && id@ == s@,
                Err(e) => !is_nanoid(s@) && e@ == INVALID_CHARS@,
            },
    {
        match check_nanoid(s.as_str()) {
            Ok(_) => Ok(DBUuid(s)),
            Err(e) => Err(e),
        }
    }

    // METHODS ----------------------------------------------------------------

    /// The identifier as a string.
    pub fn as_string(&self) -> (r: &String)
        ensures
            r@ == self@,
    {
        &self.0
    }

    /// A copy of the identifier's characters.
    pub fn to_string(&self) -> (r: String)
        ensures
            r@ == self@,
    {
        self.0.clone()
    }
}

impl Default for DBUuid {
    fn default() -> (r: Self)
        ensures
            r@.len() == 22,
            is_nanoid(r@),
    {
        Self::new()
    }
}

impl DBNormalize for DBUuid {
    fn normalize(&mut self) -> (r: DBNormalizeResult)
        ensures
            r is NotModified,
            final(self)@ == old(self)@,
    {
        DBNormalizeResult::NotModified
    }
}

} // verus!

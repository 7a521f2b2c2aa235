//! Validated well-known bus names.
//!
//! A well-known name is a dot-separated sequence of at least two nonempty
//! elements.  Element characters are ASCII letters, digits, `_` and `-`,
//! and no element starts with a digit.  The whole name is at most 255
//! bytes long.  A [`BusName`] can only be constructed from text that
//! satisfies this grammar, so holding a `BusName` is proof of validity.

use vstd::prelude::*;
use vstd::string::StringSliceAdditionalSpecFns;

use crate::error::Error;

verus! {

/// A character allowed inside an element of a well-known name.
pub open spec fn is_name_char(c: char) -> bool {
    ||| 'A' <= c && c <= 'Z'
    ||| 'a' <= c && c <= 'z'
    ||| '0' <= c && c <= '9'
    ||| c == '_'
    ||| c == '-'
}

/// An ASCII decimal digit.
pub open spec fn is_digit_char(c: char) -> bool {
    '0' <= c && c <= '9'
}

/// The grammar of a well-known bus name.
pub open spec fn valid_bus_name(s: Seq<char>) -> bool {
    &&& 3 <= s.len() <= 255
    &&& forall|i: int| 0 <= i < s.len() ==> is_name_char(#[trigger] s[i]) || s[i] == '.'
    &&& s[0] != '.'
    &&& s[s.len() - 1] != '.'
    &&& !is_digit_char(s[0])
    &&& forall|i: int|
        0 < i < s.len() && s[i - 1] == '.' ==> s[i] != '.' && !is_digit_char(#[trigger] s[i])
    &&& exists|i: int| 0 <= i < s.len() && s[i] == '.'
}

/// A well-known bus name whose text has been checked against
/// [`valid_bus_name`].
#[derive(Debug)]
pub struct BusName {
    text: String,
}

impl View for BusName {
    type V = Seq<char>;

    closed spec fn view(&self) -> Seq<char> {
        self.text@
    }
}

/// The byte-level mirror of [`is_name_char`], used while scanning.
pub open spec fn is_name_byte(b: u8) -> bool {
    ||| 65 <= b && b <= 90
    ||| 97 <= b && b <= 122
    ||| 48 <= b && b <= 57
    ||| b == 95
    ||| b == 45
}

/// For an ASCII character, the byte-level tests used by the scanner agree
/// with the character-level grammar predicates.
proof fn lemma_name_char_byte(c: char)
    requires
        c <= '\u{7f}',
    ensures
        is_name_byte(c as u8) == is_name_char(c),
        (c as u8 == 46) == (c == '.'),
        (48 <= c as u8 && c as u8 <= 57) == is_digit_char(c),
{
}

impl BusName {
    /// Checks `text` against the well-known-name grammar and wraps a copy
    /// of it.  Returns `Ok` exactly when the text is valid.
    #[verifier::loop_isolation(false)]
    pub fn try_new(text: &str) -> (r: Result<BusName, Error>)
        ensures
            match r {
                Ok(name) => name@ == text@ && valid_bus_name(text@),
                Err(e) => e == Error::MalformedSignalArgs && !valid_bus_name(text@),
            },
    {
        let s: &str = text;
        if !s.is_ascii() {
            proof {
                assert(!vstd::utf8::is_ascii_chars(s@));
                let j = choose|j: int| 0 <= j < s@.len() && !('\0' <= #[trigger] s@[j] <= '\u{7f}');
                assert(!is_name_char(s@[j]) && s@[j] != '.');
            }
            return Err(Error::MalformedSignalArgs);
        }
        let bytes: &[u8] = s.as_bytes();
        proof {
            broadcast use vstd::string::is_ascii_spec_bytes;

            assert(bytes@ =~= Seq::new(s@.len(), |k: int| s@[k] as u8));
            assert(forall|k: int| 0 <= k < s@.len() ==> #[trigger] bytes@[k] == s@[k] as u8);
            assert(forall|k: int| 0 <= k < s@.len() ==> '\0' <= #[trigger] s@[k] <= '\u{7f}');
        }
        let n = bytes.len();
        if n < 3 || n > 255 {
            return Err(Error::MalformedSignalArgs);
        }
        let first = bytes[0];
        proof {
            lemma_name_char_byte(s@[0]);
        }
        if !is_name_byte_exec(first) || (48 <= first && first <= 57) {
            return Err(Error::MalformedSignalArgs);
        }
        let mut saw_dot = false;
        let mut prev_dot = false;
        let mut i: usize = 1;
        while i < n
            invariant
                1 <= i <= n,
                n == bytes@.len(),
                n == s@.len(),
                forall|k: int| 0 <= k < n ==> #[trigger] bytes@[k] == s@[k] as u8,
                forall|k: int| 0 <= k < n ==> '\0' <= #[trigger] s@[k] <= '\u{7f}',
                3 <= n <= 255,
                forall|k: int| 0 <= k < i ==> is_name_char(#[trigger] s@[k]) || s@[k] == '.',
                s@[0] != '.',
                !is_digit_char(s@[0]),
                forall|k: int|
                    0 < k < i && s@[k - 1] == '.' ==> s@[k] != '.' && !is_digit_char(
                        #[trigger] s@[k],
                    ),
                saw_dot <==> exists|k: int| 0 <= k < i && s@[k] == '.',
                prev_dot <==> s@[i - 1] == '.',
            decreases n - i,
        {
            let b = bytes[i];
            proof {
                lemma_name_char_byte(s@[i as int]);
            }
            if b == 46 {
                if prev_dot {
                    return Err(Error::MalformedSignalArgs);
                }
                saw_dot = true;
                prev_dot = true;
            } else if is_name_byte_exec(b) {
                if prev_dot && 48 <= b && b <= 57 {
                    return Err(Error::MalformedSignalArgs);
                }
                prev_dot = false;
            } else {
                return Err(Error::MalformedSignalArgs);
            }
            i += 1;
        }
        if prev_dot {
            return Err(Error::MalformedSignalArgs);
        }
        if !saw_dot {
            return Err(Error::MalformedSignalArgs);
        }
        Ok(BusName { text: s.to_owned() })
    }

    /// The text of the name.
    pub fn as_str(&self) -> (r: &str)
        ensures
            r@ == self@,
    {
        self.text.as_str()
    }

    /// The text of the name as an owned string.
    pub fn to_text(&self) -> (r: String)
        ensures
            r@ == self@,
    {
        self.text.clone()
    }
}

/// Executable version of [`is_name_byte`].
fn is_name_byte_exec(b: u8) -> (r: bool)
    ensures
        r == is_name_byte(b),
{
    (65 <= b && b <= 90) || (97 <= b && b <= 122) || (48 <= b && b <= 57) || b == 95 || b == 45
}

} // verus!

//! Decoding of corpus bytes and small operations on character sequences.

use vstd::prelude::*;
use vstd::string::*;
use vstd::utf8::*;

verus! {

/// The character that ends words and pads chunk boundaries.
pub const SPACE: char = ' ';

#[verifier::external_type_specification]
#[verifier::external_body]
pub struct ExUtf8Error(core::str::Utf8Error);

/// `String::push`: the character is appended at the end.
pub assume_specification[ String::push ](s: &mut String, c: char)
    ensures
        final(s)@ == old(s)@.push(c),
;

/// `core::str::from_utf8`: succeeds exactly on valid UTF-8, and the string
/// that comes back is made of the bytes given.
pub assume_specification<'a>[ core::str::from_utf8 ](v: &'a [u8]) -> (r: Result<
    &'a str,
    core::str::Utf8Error,
>)
    ensures
        r is Ok <==> valid_utf8(v@),
        r is Ok ==> r->Ok_0.spec_bytes() == v@,
;

/// What `str::to_lowercase` makes of a text.
pub uninterp spec fn lowercase_of(s: Seq<char>) -> Seq<char>;

/// `str::to_lowercase`: the lowercase equivalent of the text, by Unicode's
/// rules.
#[verifier::external_body]
fn to_lowercase(s: &str) -> (r: String)
    ensures
        r@ == lowercase_of(s@),
{
    s.to_lowercase()
}

/// The text with every space replaced by an underscore.
pub open spec fn underscored(s: Seq<char>) -> Seq<char> {
    Seq::new(
        s.len(),
        |i: int|
            if s[i] == SPACE {
                '_'
            } else {
                s[i]
            },
    )
}

/// The name under which a language's model is filed: spaces become
/// underscores, then the name is lowercased.
pub open spec fn normalized_language(language: Seq<char>) -> Seq<char> {
    lowercase_of(underscored(language))
}

/// The last five characters of a text, padded on the left with spaces where
/// the text is shorter, followed by five spaces.
pub open spec fn boundary_buffer_of(s: Seq<char>) -> Seq<char> {
    Seq::new(
        10,
        |i: int|
            if 0 <= s.len() - 5 + i < s.len() {
                s[s.len() - 5 + i]
            } else {
                SPACE
            },
    )
}

/// The text that `bytes` encode, where they are valid UTF-8.
pub fn decode(bytes: &[u8]) -> (r: Option<&str>)
    ensures
        r is Some <==> valid_utf8(bytes@),
        r is Some ==> r->Some_0@ == decode_utf8(bytes@),
{
    match core::str::from_utf8(bytes) {
        Ok(text) => {
            proof {
                encode_utf8_decode_utf8(text@);
            }
            Some(text)
        },
        Err(_) => None,
    }
}

/// The characters of `s`, one element each.
pub fn chars_of(s: &str) -> (v: Vec<char>)
    ensures
        v@ == s@,
{
    let mut v: Vec<char> = Vec::new();
    for c in it: s.chars()
        invariant
            it.seq() == s@,
            v@ == it.seq().take(it.index() as int),
    {
        v.push(c);
    }
    v
}

/// The characters of `chars` from `from` up to `to`, as a string.
pub fn string_of(chars: &Vec<char>, from: usize, to: usize) -> (s: String)
    requires
        from <= to <= chars.len(),
    ensures
        s@ == chars@.subrange(from as int, to as int),
{
    let mut s = String::new();
    let mut i: usize = from;
    while i < to
        invariant
            from <= i <= to <= chars.len(),
            s@ == chars@.subrange(from as int, i as int),
        decreases to - i,
    {
        s.push(chars[i]);
        i += 1;
    }
    s
}

/// Replaces every space of `s` by an underscore.
pub fn replace_spaces(s: &str) -> (r: String)
    ensures
        r@ == underscored(s@),
{
    let chars = chars_of(s);
    let mut r = String::new();
    let mut i: usize = 0;
    while i < chars.len()
        invariant
            i <= chars.len(),
            chars@ == s@,
            r@ == underscored(s@).take(i as int),
        decreases chars.len() - i,
    {
        let c = chars[i];
        if c == SPACE {
            r.push('_');
        } else {
            r.push(c);
        }
        i += 1;
    }
    r
}

/// The name under which the model of `language` is filed.
pub fn language_key(language: &str) -> (r: String)
    ensures
        r@ == normalized_language(language@),
{
    let underscored = replace_spaces(language);
    to_lowercase(underscored.as_str())
}

/// The boundary buffer of a chunk: its last five characters, left-padded with
/// spaces, then five spaces.
pub fn boundary_buffer(chars: &Vec<char>) -> (r: Vec<char>)
    ensures
        r@ == boundary_buffer_of(chars@),
{
    let n = chars.len();
    let mut r: Vec<char> = Vec::new();
    let mut i: usize = 0;
    while i < 10
        invariant
            i <= 10,
            n == chars.len(),
            r@ == boundary_buffer_of(chars@).take(i as int),
        decreases 10 - i,
    {
        if i < 5 && n >= 5 - i {
            r.push(chars[n - (5 - i)]);
        } else {
            r.push(SPACE);
        }
        i += 1;
    }
    r
}

} // verus!

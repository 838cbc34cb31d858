use vstd::prelude::*;

use crate::rng::random_byte;

verus! {

/// The sentinel character meaning "no glyph occupies this cell".
pub open spec fn empty_ch() -> char {
    '\0'
}

/// Executable counterpart of `empty_ch`.
pub fn empty_char() -> (c: char)
    ensures
        c == empty_ch(),
{
    '\0'
}

/// What encoding the legacy single-byte charset (replace on error) returns
/// for a character sequence: one byte per character.
pub uninterp spec fn mac_encoded(s: Seq<char>) -> Seq<u8>;

/// What decoding the legacy single-byte charset (replace on error) returns
/// for a byte sequence: one character per byte.
pub uninterp spec fn mac_decoded(bs: Seq<u8>) -> Seq<char>;

/// Relies on encoding's MAC_CYRILLIC.encode with EncoderTrap::Replace: the
/// single-byte encoder writes exactly one byte per character (a `?` for an
/// unrepresentable one), never fails under the replace policy, and its output
/// depends on the input characters alone.
#[verifier::external_body]
fn encode_replace(s: &str) -> (r: Vec<u8>)
    ensures
        r@ == mac_encoded(s@),
        r@.len() == s@.len(),
{
    encoding::Encoding::encode(encoding::all::MAC_CYRILLIC, s, encoding::EncoderTrap::Replace)
        .expect("replace policy cannot fail")
}

/// Relies on encoding's MAC_CYRILLIC.decode with DecoderTrap::Replace: the
/// single-byte decoder writes exactly one character per byte (U+FFFD for an
/// invalid one), never fails under the replace policy, and its output depends
/// on the input bytes alone.
#[verifier::external_body]
fn decode_replace(bs: &Vec<u8>) -> (r: Vec<char>)
    ensures
        r@ == mac_decoded(bs@),
        r@.len() == bs@.len(),
{
    encoding::Encoding::decode(
        encoding::all::MAC_CYRILLIC,
        bs.as_slice(),
        encoding::DecoderTrap::Replace,
    ).expect("replace policy cannot fail").chars().collect()
}

/// The normalized form of a string: encoded to the legacy charset with
/// replacement and decoded back, so every character the simulation handles is
/// representable by the glyph renderer.
pub open spec fn normalized(s: Seq<char>) -> Seq<char> {
    mac_decoded(mac_encoded(s))
}

/// Normalizes `s` to charset-representable characters.
pub fn normalize(s: &str) -> (r: Vec<char>)
    ensures
        r@ == normalized(s@),
        r@.len() == s@.len(),
{
    let bytes = encode_replace(s);
    decode_replace(&bytes)
}

/// The glyph one byte stands for: the byte decoded through the legacy
/// charset, or the empty sentinel should the decoding come back empty (which
/// the replace policy rules out, but callers must not assume a printable
/// character).
pub open spec fn glyph_of_byte_spec(b: u8) -> char {
    if mac_decoded(seq![b]).len() == 0 {
        empty_ch()
    } else {
        mac_decoded(seq![b])[0]
    }
}

/// Decodes one byte into the glyph it stands for.
pub fn glyph_of_byte(b: u8) -> (c: char)
    ensures
        c == glyph_of_byte_spec(b),
{
    let mut bs: Vec<u8> = Vec::new();
    bs.push(b);
    proof {
        assert(bs@ =~= seq![b]);
    }
    let chars = decode_replace(&bs);
    if chars.len() == 0 {
        empty_char()
    } else {
        chars[0]
    }
}

/// Draws one obscured glyph: a uniformly random byte decoded through the
/// legacy charset. Which glyph comes back is not determined, only that it is
/// the decoding of some byte.
pub fn next_glyph() -> (c: char)
    ensures
        exists|b: u8| c == glyph_of_byte_spec(b),
{
    let b = random_byte();
    let c = glyph_of_byte(b);
    proof {
        assert(c == glyph_of_byte_spec(b));
    }
    c
}

} // verus!

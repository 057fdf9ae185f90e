//! Signed bearer credentials, minted and opened with the macaroons crate.
use macaroons::caveat::Caveat;
use macaroons::token::Token;
use macaroons::v1::V1Token;
use vstd::prelude::*;

verus! {

/// The serialized macaroon with location none, the given identifier and one
/// first-party caveat, signed with the key.
pub uninterp spec fn minted_macaroon(key: Seq<u8>, identifier: Seq<char>, caveat: Seq<char>) -> Seq<char>;

/// What a presented value holds once its signature is checked against the key:
/// its identifier and the predicates of its caveats, or none where it does not
/// decode or its signature does not match.
pub uninterp spec fn opened_macaroon(key: Seq<u8>, token: Seq<char>) -> Option<(Seq<char>, Seq<Seq<char>>)>;

pub open spec fn opened_view(r: Option<(String, Vec<String>)>) -> Option<(Seq<char>, Seq<Seq<char>>)> {
    match r {
        Some((identifier, caveats)) => Some((identifier@, caveats.deep_view())),
        None => None,
    }
}

/// The bytes that URL-safe base64 text decodes to (padding optional), or none
/// where it is not such text.
pub uninterp spec fn url_safe_decoded(text: Seq<char>) -> Option<Seq<u8>>;

pub open spec fn is_hex_digit(b: u8) -> bool {
    (48 <= b <= 57) || (97 <= b <= 102) || (65 <= b <= 70)
}

pub open spec fn hex_value(b: u8) -> int {
    if 48 <= b <= 57 {
        b - 48
    } else if 97 <= b <= 102 {
        b - 87
    } else {
        b - 55
    }
}

/// The length that the packet at `i` announces in its four hex digits.
pub open spec fn packet_length(d: Seq<u8>, i: int) -> int {
    hex_value(d[i]) * 4096 + hex_value(d[i + 1]) * 256 + hex_value(d[i + 2]) * 16 + hex_value(d[i + 3])
}

/// From `i` on, the bytes are a chain of packets, each announcing in four hex
/// digits a length of at least four that stays inside the bytes.
pub open spec fn framed_from(d: Seq<u8>, i: int) -> bool
    decreases d.len() - i,
{
    if i < 0 || i > d.len() {
        false
    } else if i == d.len() {
        true
    } else if i + 4 <= d.len() && is_hex_digit(d[i]) && is_hex_digit(d[i + 1]) && is_hex_digit(d[i + 2])
        && is_hex_digit(d[i + 3]) && 4 <= packet_length(d, i) && i + packet_length(d, i) <= d.len() {
        framed_from(d, i + packet_length(d, i))
    } else {
        false
    }
}

/// The first packet is the identifier packet: its id is `identifier` and a
/// space follows it, inside the packet.
pub open spec fn starts_with_identifier(d: Seq<u8>) -> bool {
    &&& d.len() >= 15
    &&& packet_length(d, 0) >= 15
    &&& d[4] == 105 && d[5] == 100 && d[6] == 101 && d[7] == 110 && d[8] == 116
    &&& d[9] == 105 && d[10] == 102 && d[11] == 105 && d[12] == 101 && d[13] == 114
    &&& d[14] == 32
}

/// Packet framing that macaroons' decoder can walk without slicing out of
/// bounds: packets chained to the end, the first of them the identifier, so
/// that the decoder never looks for an identifier after a location packet.
pub open spec fn well_framed(d: Seq<u8>) -> bool {
    d.len() > 0 && framed_from(d, 0) && starts_with_identifier(d)
}

/// A presented value whose packets can be read safely.
pub open spec fn readable_token(token: Seq<char>) -> bool {
    url_safe_decoded(token) is Some && well_framed(url_safe_decoded(token)->Some_0)
}

/// Relies on `base64::decode_config` with `URL_SAFE`, which accepts text with
/// or without padding.
#[verifier::external_body]
fn decode_url_safe(text: &str) -> (r: Option<Vec<u8>>)
    ensures
        match r {
            Some(bytes) => url_safe_decoded(text@) == Some(bytes@),
            None => url_safe_decoded(text@) is None,
        },
{
    base64::decode_config(text, base64::URL_SAFE).ok()
}

fn hex_digit(b: u8) -> (r: Option<usize>)
    ensures
        r is Some <==> is_hex_digit(b),
        r is Some ==> r->Some_0 as int == hex_value(b),
{
    if 48 <= b && b <= 57 {
        Some((b - 48) as usize)
    } else if 97 <= b && b <= 102 {
        Some((b - 87) as usize)
    } else if 65 <= b && b <= 70 {
        Some((b - 55) as usize)
    } else {
        None
    }
}

/// Whether the bytes are a chain of well-formed packets, the identifier first.
pub fn check_framing(d: &Vec<u8>) -> (r: bool)
    ensures
        r == well_framed(d@),
{
    let n = d.len();
    if n < 15 {
        return false;
    }
    let tag_ok = d[4] == 105 && d[5] == 100 && d[6] == 101 && d[7] == 110 && d[8] == 116
        && d[9] == 105 && d[10] == 102 && d[11] == 105 && d[12] == 101 && d[13] == 114
        && d[14] == 32;
    if !tag_ok {
        return false;
    }
    match (hex_digit(d[0]), hex_digit(d[1]), hex_digit(d[2]), hex_digit(d[3])) {
        (Some(a), Some(b), Some(c), Some(e)) => {
            if a * 4096 + b * 256 + c * 16 + e < 15 {
                return false;
            }
        },
        _ => return false,
    }
    let mut i: usize = 0;
    while i < n
        invariant
            n == d@.len(),
            i <= n,
            framed_from(d@, 0) == framed_from(d@, i as int),
        decreases n - i,
    {
        if n - i < 4 {
            return false;
        }
        let h0 = hex_digit(d[i]);
        let h1 = hex_digit(d[i + 1]);
        let h2 = hex_digit(d[i + 2]);
        let h3 = hex_digit(d[i + 3]);
        if h0.is_none() || h1.is_none() || h2.is_none() || h3.is_none() {
            return false;
        }
        let len = h0.unwrap() * 4096 + h1.unwrap() * 256 + h2.unwrap() * 16 + h3.unwrap();
        if len < 4 || len > n - i {
            return false;
        }
        i = i + len;
    }
    true
}

/// Whether the presented value decodes to packets that can be read safely.
pub fn token_readable(token: &str) -> (r: bool)
    ensures
        r == readable_token(token@),
{
    match decode_url_safe(token) {
        Some(bytes) => check_framing(&bytes),
        None => false,
    }
}

/// Relies on macaroons' `V1Token::new`, `add_caveat` and `serialize`: a signed
/// macaroon, written as unpadded URL-safe base64, that depends on the key,
/// identifier and caveat alone. Serializing fails only where a packet would be
/// longer than 65535 bytes; the identifier packet is 16 bytes longer than the
/// identifier, the caveat packet 9 bytes longer than the caveat, and a char is
/// at most four bytes. Each packet starts with its length in four hex digits,
/// and with no location given the identifier packet comes first.
/// `deserialize` reads back what `serialize` writes, and
/// `authenticate_without_verifying` recomputes the same signature chain from
/// the same key, so the value opens to its identifier and caveat.
#[verifier::external_body]
pub(crate) fn mint_macaroon(key: &Vec<u8>, identifier: &String, caveat: &String) -> (r: Option<String>)
    ensures
        4 * identifier@.len() + 16 <= 65535 && 4 * caveat@.len() + 9 <= 65535 ==> r is Some,
        r is Some ==> r->Some_0@ == minted_macaroon(key@, identifier@, caveat@),
        r is Some ==> readable_token(r->Some_0@),
        r is Some ==> opened_macaroon(key@, r->Some_0@) == Some((identifier@, seq![caveat@])),
{
    let token = V1Token::new(key, identifier.as_bytes().to_vec(), None);
    let token = token.add_caveat(&Caveat::first_party(caveat.as_bytes().to_vec()));
    let bytes = token.serialize().ok()?;
    String::from_utf8(bytes).ok()
}

/// Relies on macaroons' `V1Token::deserialize` and `authenticate_without_verifying`:
/// decodes the value and checks its signature chain against the key, then hands
/// out its identifier and caveat predicates. `deserialize` slices each packet by
/// the length it announces, and reads a second packet after a location packet,
/// so the value must be readable: framed to its end, the identifier first.
#[verifier::external_body]
pub(crate) fn open_macaroon(key: &Vec<u8>, token: &str) -> (r: Option<(String, Vec<String>)>)
    requires
        readable_token(token@),
    ensures
        opened_view(r) == opened_macaroon(key@, token@),
{
    let parsed = V1Token::deserialize(token.as_bytes().to_vec()).ok()?;
    parsed.authenticate_without_verifying(key).ok()?;
    let identifier = String::from_utf8(parsed.identifier.clone()).ok()?;
    let mut caveats = Vec::new();
    for caveat in &parsed.caveats {
        caveats.push(String::from_utf8(caveat.caveat_id.clone()).ok()?);
    }
    Some((identifier, caveats))
}

} // verus!

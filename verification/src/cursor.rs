//! Pagination cursors: what a cursor records, the hash that ties it to one
//! query, and the token forms it travels in.
use vstd::prelude::*;
use vstd::utf8::{decode_utf8, valid_utf8};
use crate::error::{ErrorView, MinistoreError};
use crate::json::{json_quote, spec_json_quote};
use crate::text::{concat, i64_decimal, int_decimal, string_of_range, chars_of};

verus! {

/// Where the last row of a page stands in the order of its rank mode. Scores
/// and rank values are the JSON text of a floating-point number.
#[derive(Debug, Clone, PartialEq)]
pub enum CursorPayload {
    /// `ORDER BY score DESC, item_id ASC`
    Fts { score: String, item_id: i64 },
    /// `ORDER BY updated_at DESC, path ASC`
    Recency { updated_at_ms: i64, path: String },
    /// `ORDER BY rank_value DESC, updated_at DESC, path ASC`
    Field { field: String, rank_value: String, updated_at_ms: i64, path: String },
    /// `ORDER BY item_id ASC` (no ranking)
    Unranked { item_id: i64 },
}

pub enum PayloadView {
    Fts { score: Seq<char>, item_id: i64 },
    Recency { updated_at_ms: i64, path: Seq<char> },
    Field { field: Seq<char>, rank_value: Seq<char>, updated_at_ms: i64, path: Seq<char> },
    Unranked { item_id: i64 },
}

impl View for CursorPayload {
    type V = PayloadView;

    open spec fn view(&self) -> PayloadView {
        match self {
            CursorPayload::Fts { score, item_id } => PayloadView::Fts { score: score@, item_id: *item_id },
            CursorPayload::Recency { updated_at_ms, path } => PayloadView::Recency {
                updated_at_ms: *updated_at_ms,
                path: path@,
            },
            CursorPayload::Field { field, rank_value, updated_at_ms, path } => PayloadView::Field {
                field: field@,
                rank_value: rank_value@,
                updated_at_ms: *updated_at_ms,
                path: path@,
            },
            CursorPayload::Unranked { item_id } => PayloadView::Unranked { item_id: *item_id },
        }
    }
}

/// A cursor: the position after which the next page starts, and the hash of
/// the query, schema and rank mode it belongs to.
#[derive(Debug, Clone)]
pub struct CursorPosition {
    pub payload: CursorPayload,
    pub hash: String,
}

/// The rank mode as a cursor hash records it.
#[derive(Debug, Clone, PartialEq)]
pub enum RankModeSer {
    Default,
    Recency,
    Field(String),
    Unranked,
}

/// The JSON text a rank mode is hashed as: a variant name in quotes (`None`
/// for no ranking), or `{"Field":"<name>"}`.
pub open spec fn rank_json(r: RankModeSer) -> Seq<char> {
    match r {
        RankModeSer::Default => "\"Default\""@,
        RankModeSer::Recency => "\"Recency\""@,
        RankModeSer::Field(f) => "{\"Field\":"@ + spec_json_quote(f@) + "}"@,
        RankModeSer::Unranked => "\"None\""@,
    }
}

/// The JSON text of a rank mode.
pub fn rank_mode_json(r: &RankModeSer) -> (s: String)
    ensures
        s@ == rank_json(*r),
{
    match r {
        RankModeSer::Default => String::from_str("\"Default\""),
        RankModeSer::Recency => String::from_str("\"Recency\""),
        RankModeSer::Field(f) => {
            let mut s = String::from_str("{\"Field\":");
            s.append(json_quote(f.as_str()).as_str());
            s.append("}");
            s
        },
        RankModeSer::Unranked => String::from_str("\"None\""),
    }
}

/// The SHA-256 digest of `data`, as the `sha2` crate computes it.
pub uninterp spec fn spec_sha256(data: Seq<u8>) -> Seq<u8>;

/// Trusted: `sha2::Sha256::digest` (the `Digest` trait of the `digest` crate):
/// the 32-byte SHA-256 digest of the bytes, named `spec_sha256`.
#[verifier::external_body]
fn sha256(data: &Vec<u8>) -> (r: Vec<u8>)
    ensures
        r@ == spec_sha256(data@),
        r.len() == 32,
{
    <sha2::Sha256 as sha2::Digest>::digest(data.as_slice()).to_vec()
}

pub open spec fn hex_digit(d: int) -> char {
    if d < 10 {
        ('0' as int + d) as char
    } else {
        ('a' as int + d - 10) as char
    }
}

/// Lower-case hexadecimal, two digits per byte.
pub open spec fn hex_text(b: Seq<u8>) -> Seq<char>
    decreases b.len(),
{
    if b.len() == 0 {
        seq![]
    } else {
        hex_text(b.drop_last()) + seq![hex_digit(b.last() as int / 16), hex_digit(b.last() as int % 16)]
    }
}

fn hex_char(d: u8) -> (c: char)
    requires
        d < 16,
    ensures
        c == hex_digit(d as int),
{
    match d {
        0 => '0',
        1 => '1',
        2 => '2',
        3 => '3',
        4 => '4',
        5 => '5',
        6 => '6',
        7 => '7',
        8 => '8',
        9 => '9',
        10 => 'a',
        11 => 'b',
        12 => 'c',
        13 => 'd',
        14 => 'e',
        _ => 'f',
    }
}

/// The bytes in lower-case hexadecimal.
pub fn to_hex(b: &Vec<u8>) -> (s: String)
    ensures
        s@ == hex_text(b@),
{
    let mut s = String::new();
    let mut i: usize = 0;
    while i < b.len()
        invariant
            i <= b.len(),
            s@ == hex_text(b@.take(i as int)),
        decreases b.len() - i,
    {
        assert(b@.take(i + 1).drop_last() == b@.take(i as int));
        let x = b[i];
        crate::text::push_char(&mut s, hex_char(x / 16));
        crate::text::push_char(&mut s, hex_char(x % 16));
        assert(s@ == hex_text(b@.take(i as int)) + seq![hex_digit(x as int / 16), hex_digit(x as int % 16)]);
        i += 1;
    }
    assert(b@.take(b.len() as int) == b@);
    s
}

/// The bytes a cursor hash covers: schema JSON, query and rank mode JSON, each
/// after the first preceded by a line feed.
pub open spec fn hash_input(schema_json: Seq<char>, query: Seq<char>, rank: RankModeSer) -> Seq<u8> {
    vstd::utf8::encode_utf8(schema_json + "\n"@ + query + "\n"@ + rank_json(rank))
}

/// Hash a query with the schema and rank mode it runs under, so that a cursor
/// from one query is refused by another: SHA-256 in lower-case hex.
pub fn hash_query(schema_json: &str, query: &str, rank: &RankModeSer) -> (h: String)
    ensures
        h@ == hex_text(spec_sha256(hash_input(schema_json@, query@, *rank))),
        h@.len() == 64,
        forall|i: int| 0 <= i < 64 ==> ('0' <= #[trigger] h@[i] <= '9' || 'a' <= h@[i] <= 'f'),
{
    let mut text = String::from_str(schema_json);
    text.append("\n");
    text.append(query);
    text.append("\n");
    text.append(rank_mode_json(rank).as_str());
    let bytes = text.as_str().as_bytes_vec();
    let digest = sha256(&bytes);
    proof {
        lemma_hex_text(digest@);
    }
    to_hex(&digest)
}


/// The JSON text of a cursor payload: its kind under `"kind"`, then its fields
/// in order.
pub open spec fn payload_json(p: PayloadView) -> Seq<char> {
    match p {
        PayloadView::Fts { score, item_id } => "{\"kind\":\"fts\",\"score\":"@ + score + ",\"item_id\":"@
            + int_decimal(item_id as int) + "}"@,
        PayloadView::Recency { updated_at_ms, path } => "{\"kind\":\"recency\",\"updated_at_ms\":"@
            + int_decimal(updated_at_ms as int) + ",\"path\":"@ + spec_json_quote(path) + "}"@,
        PayloadView::Field { field, rank_value, updated_at_ms, path } => "{\"kind\":\"field\",\"field\":"@
            + spec_json_quote(field) + ",\"rank_value\":"@ + rank_value + ",\"updated_at_ms\":"@
            + int_decimal(updated_at_ms as int) + ",\"path\":"@ + spec_json_quote(path) + "}"@,
        PayloadView::Unranked { item_id } => "{\"kind\":\"none\",\"item_id\":"@ + int_decimal(item_id as int) + "}"@,
    }
}

/// The JSON text of a cursor position.
pub open spec fn position_json(p: PayloadView, hash: Seq<char>) -> Seq<char> {
    "{\"payload\":"@ + payload_json(p) + ",\"hash\":"@ + spec_json_quote(hash) + "}"@
}

fn payload_text(p: &CursorPayload) -> (s: String)
    ensures
        s@ == payload_json(p@),
{
    match p {
        CursorPayload::Fts { score, item_id } => {
            let mut s = String::from_str("{\"kind\":\"fts\",\"score\":");
            s.append(score.as_str());
            s.append(",\"item_id\":");
            s.append(i64_decimal(*item_id).as_str());
            s.append("}");
            s
        },
        CursorPayload::Recency { updated_at_ms, path } => {
            let mut s = String::from_str("{\"kind\":\"recency\",\"updated_at_ms\":");
            s.append(i64_decimal(*updated_at_ms).as_str());
            s.append(",\"path\":");
            s.append(json_quote(path.as_str()).as_str());
            s.append("}");
            s
        },
        CursorPayload::Field { field, rank_value, updated_at_ms, path } => {
            let mut s = String::from_str("{\"kind\":\"field\",\"field\":");
            s.append(json_quote(field.as_str()).as_str());
            s.append(",\"rank_value\":");
            s.append(rank_value.as_str());
            s.append(",\"updated_at_ms\":");
            s.append(i64_decimal(*updated_at_ms).as_str());
            s.append(",\"path\":");
            s.append(json_quote(path.as_str()).as_str());
            s.append("}");
            s
        },
        CursorPayload::Unranked { item_id } => {
            let mut s = String::from_str("{\"kind\":\"none\",\"item_id\":");
            s.append(i64_decimal(*item_id).as_str());
            s.append("}");
            s
        },
    }
}

/// The JSON text of a cursor position.
pub fn position_text(p: &CursorPayload, hash: &str) -> (s: String)
    ensures
        s@ == position_json(p@, hash@),
{
    let mut s = String::from_str("{\"payload\":");
    s.append(payload_text(p).as_str());
    s.append(",\"hash\":");
    s.append(json_quote(hash).as_str());
    s.append("}");
    s
}

/// What the URL-safe, unpadded base64 engine of the `base64` crate writes for
/// `data`.
pub uninterp spec fn spec_b64_encode(data: Seq<u8>) -> Seq<char>;

/// What that engine reads from `text`, or `None` where it refuses the text.
pub uninterp spec fn spec_b64_decode(text: Seq<u8>) -> Option<Seq<u8>>;

/// The message (`Display`) of the error that engine gives for `text`.
pub uninterp spec fn spec_b64_error(text: Seq<u8>) -> Seq<char>;

/// Trusted: `Engine::encode` of `base64::engine::general_purpose::URL_SAFE_NO_PAD`.
/// The text is named `spec_b64_encode`; the same engine decodes it back to the
/// bytes it encoded. The engine panics when the length of the text would
/// overflow `usize`; `requires` keeps the input well below that.
#[verifier::external_body]
fn b64_encode(data: &Vec<u8>) -> (r: String)
    requires
        data.len() <= usize::MAX / 2,
    ensures
        r@ == spec_b64_encode(data@),
        spec_b64_decode(vstd::utf8::encode_utf8(r@)) == Some(data@),
{
    <base64::engine::GeneralPurpose as base64::Engine>::encode(&base64::engine::general_purpose::URL_SAFE_NO_PAD, data.as_slice())
}

/// Trusted: `Engine::decode` of `base64::engine::general_purpose::URL_SAFE_NO_PAD`
/// on the bytes of `text`: the bytes it reads (named `spec_b64_decode`), or the
/// message of its `DecodeError` (named `spec_b64_error`).
#[verifier::external_body]
fn b64_decode(text: &str) -> (r: Result<Vec<u8>, String>)
    ensures
        match r {
            Ok(b) => spec_b64_decode(vstd::utf8::encode_utf8(text@)) == Some(b@),
            Err(m) => spec_b64_decode(vstd::utf8::encode_utf8(text@)) is None && m@ == spec_b64_error(vstd::utf8::encode_utf8(text@)),
        },
{
    match <base64::engine::GeneralPurpose as base64::Engine>::decode(&base64::engine::general_purpose::URL_SAFE_NO_PAD, text.as_bytes()) {
        Ok(b) => Ok(b),
        Err(e) => Err(e.to_string()),
    }
}


/// The message (`Display`) of the `FromUtf8Error` that `String::from_utf8`
/// gives for `bytes`.
pub uninterp spec fn spec_utf8_error(bytes: Seq<u8>) -> Seq<char>;

/// Trusted: `String::from_utf8` of std. It succeeds exactly on valid UTF-8,
/// giving the characters the bytes encode; else the message of its error,
/// named `spec_utf8_error`.
#[verifier::external_body]
fn utf8_string(bytes: Vec<u8>) -> (r: Result<String, String>)
    ensures
        match r {
            Ok(s) => valid_utf8(bytes@) && s@ == decode_utf8(bytes@),
            Err(m) => !valid_utf8(bytes@) && m@ == spec_utf8_error(bytes@),
        },
{
    match String::from_utf8(bytes) {
        Ok(s) => Ok(s),
        Err(e) => Err(e.to_string()),
    }
}

/// What reading a full cursor token gives: the JSON text of the position, or
/// the error for a token that is not base64 of UTF-8 text.
pub open spec fn token_json(token: Seq<char>) -> Result<Seq<char>, ErrorView> {
    let tb = vstd::utf8::encode_utf8(token);
    match spec_b64_decode(tb) {
        None => Err(ErrorView::Cursor("base64 decode error: "@ + spec_b64_error(tb))),
        Some(b) => if valid_utf8(b) {
            Ok(decode_utf8(b))
        } else {
            Err(ErrorView::Cursor("utf8 error: "@ + spec_utf8_error(b)))
        },
    }
}

/// Encode a cursor position as a full token: URL-safe base64 of its JSON text.
/// Reading the token back gives that JSON text.
pub fn encode_full(payload: &CursorPayload, hash: &str) -> (r: Result<String, MinistoreError>)
    requires
        vstd::utf8::encode_utf8(position_json(payload@, hash@)).len() <= usize::MAX / 2,
    ensures
        match r {
            Ok(t) => t@ == spec_b64_encode(vstd::utf8::encode_utf8(position_json(payload@, hash@)))
                && token_json(t@) == Ok::<Seq<char>, ErrorView>(position_json(payload@, hash@)),
            Err(_) => false,
        },
{
    let json = position_text(payload, hash);
    let bytes = json.as_str().as_bytes_vec();
    let t = b64_encode(&bytes);
    proof {
        vstd::utf8::encode_utf8_valid_utf8(json@);
        vstd::utf8::encode_utf8_decode_utf8(json@);
    }
    Ok(t)
}

/// Encode a cursor position as a full token where its JSON text is small
/// enough to encode; a larger one is refused.
pub fn encode_full_checked(payload: &CursorPayload, hash: &str) -> (r: Result<String, MinistoreError>)
    ensures
        vstd::utf8::encode_utf8(position_json(payload@, hash@)).len() <= usize::MAX / 2 ==> match r {
            Ok(t) => t@ == spec_b64_encode(vstd::utf8::encode_utf8(position_json(payload@, hash@)))
                && token_json(t@) == Ok::<Seq<char>, ErrorView>(position_json(payload@, hash@)),
            Err(_) => false,
        },
        vstd::utf8::encode_utf8(position_json(payload@, hash@)).len() > usize::MAX / 2 ==> r is Err
            && r->Err_0@ == ErrorView::Cursor("cursor position is too large to encode"@),
{
    let json = position_text(payload, hash);
    let n = json.as_str().as_bytes_vec().len();
    if n > usize::MAX / 2 {
        return Err(MinistoreError::Cursor(String::from_str("cursor position is too large to encode")));
    }
    encode_full(payload, hash)
}

/// Read a full cursor token back to the JSON text of its position.
pub fn decode_full_json(token: &str) -> (r: Result<String, MinistoreError>)
    ensures
        match (r, token_json(token@)) {
            (Ok(j), Ok(k)) => j@ == k,
            (Err(e), Err(x)) => e@ == x,
            _ => false,
        },
{
    let bytes = match b64_decode(token) {
        Ok(b) => b,
        Err(m) => return Err(MinistoreError::Cursor(concat("base64 decode error: ", m.as_str()))),
    };
    match utf8_string(bytes) {
        Ok(s) => Ok(s),
        Err(m) => Err(MinistoreError::Cursor(concat("utf8 error: ", m.as_str()))),
    }
}

/// Whether a token names a stored cursor (`c:` and a handle).
pub fn is_short_cursor_token(token: &str) -> (r: bool)
    ensures
        r == (token@.len() >= 2 && token@[0] == 'c' && token@[1] == ':'),
{
    token.unicode_len() >= 2 && token.get_char(0) == 'c' && token.get_char(1) == ':'
}

/// The handle of a short cursor token: what follows `c:`.
pub fn short_cursor_handle(token: &str) -> (r: Option<&str>)
    ensures
        match r {
            Some(h) => token@.len() >= 2 && token@[0] == 'c' && token@[1] == ':' && h@ == token@.skip(2),
            None => !(token@.len() >= 2 && token@[0] == 'c' && token@[1] == ':'),
        },
{
    if is_short_cursor_token(token) {
        let n = token.unicode_len();
        Some(token.substring_char(2, n))
    } else {
        None
    }
}

/// Trusted: `RngCore::try_fill_bytes` of `rand::rngs::OsRng` on a buffer of 6
/// bytes: the random bytes the operating system gave, or the message of the
/// `rand::Error` when it gave none. Nothing is promised of the bytes' values,
/// which change from call to call, nor of when the operating system fails.
#[verifier::external_body]
fn random_bytes_6() -> (r: Result<Vec<u8>, String>)
    ensures
        r is Ok ==> r->Ok_0.len() == 6,
{
    let mut b = [0u8; 6];
    match <rand::rngs::OsRng as rand::RngCore>::try_fill_bytes(&mut rand::rngs::OsRng, &mut b) {
        Ok(()) => Ok(b.to_vec()),
        Err(e) => Err(e.to_string()),
    }
}

/// A fresh handle for a stored cursor: 6 random bytes in lower-case hex, or a
/// cursor error when the operating system gives no random bytes.
pub fn make_short_handle() -> (r: Result<String, MinistoreError>)
    ensures
        match r {
            Ok(h) => h@.len() == 12 && forall|i: int| 0 <= i < 12 ==> ('0' <= #[trigger] h@[i] <= '9' || 'a' <= h@[i] <= 'f'),
            Err(e) => exists|m: Seq<char>| e@ == ErrorView::Cursor("failed to generate cursor handle: "@ + m),
        },
{
    match random_bytes_6() {
        Ok(b) => {
            let h = to_hex(&b);
            proof {
                lemma_hex_text(b@);
            }
            Ok(h)
        },
        Err(m) => {
            let e = MinistoreError::Cursor(concat("failed to generate cursor handle: ", m.as_str()));
            assert(e@ == ErrorView::Cursor("failed to generate cursor handle: "@ + m@));
            Err(e)
        },
    }
}

proof fn lemma_hex_text(b: Seq<u8>)
    ensures
        hex_text(b).len() == 2 * b.len(),
        forall|i: int| 0 <= i < hex_text(b).len() ==> ('0' <= #[trigger] hex_text(b)[i] <= '9' || 'a' <= hex_text(b)[i] <= 'f'),
    decreases b.len(),
{
    if b.len() > 0 {
        lemma_hex_text(b.drop_last());
        let hi = b.last() as int / 16;
        let lo = b.last() as int % 16;
        assert('0' <= hex_digit(hi) <= '9' || 'a' <= hex_digit(hi) <= 'f');
        assert('0' <= hex_digit(lo) <= '9' || 'a' <= hex_digit(lo) <= 'f');
    }
}

/// The token of a stored cursor with the given handle.
pub fn short_cursor_token(handle: &str) -> (t: String)
    ensures
        t@ == "c:"@ + handle@,
{
    concat("c:", handle)
}

} // verus!

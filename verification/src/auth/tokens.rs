//! Refresh tokens: random secrets handed to clients, stored only as their
//! SHA-256 digests, valid for a week.
use base64::Engine;
use rand::Rng;
use vstd::prelude::*;

use crate::config::IpAddress;
use crate::ids::{is_v4_uuid, new_uuid};

verus! {

/// The number of random bytes in a refresh token.
pub const REFRESH_TOKEN_BYTES: usize = 32;

/// How long a refresh token is valid: seven days, in microseconds.
pub const REFRESH_TOKEN_LIFETIME_MICROS: i64 = 604_800_000_000;

/// An upper bound on the clock, in microseconds since the epoch: past the last
/// instant `chrono` represents (the end of year 262143).
pub const CLOCK_LIMIT_MICROS: i64 = 8_300_000_000_000_000_000;

/// The lowercase hexadecimal SHA-256 digest of the UTF-8 bytes of `s`, as
/// `sha256::digest` computes it.
pub uninterp spec fn sha256_hex(s: Seq<char>) -> Seq<char>;

/// A lowercase hexadecimal digit.
pub open spec fn is_lower_hex(c: char) -> bool {
    ('0' <= c <= '9') || ('a' <= c <= 'f')
}

/// A character of the URL-safe base64 alphabet.
pub open spec fn is_url_safe_base64(c: char) -> bool {
    ('A' <= c <= 'Z') || ('a' <= c <= 'z') || ('0' <= c <= '9') || c == '-' || c == '_'
}

/// The length of the unpadded base64 encoding of `n` bytes.
pub open spec fn encoded_len_no_pad(n: nat) -> nat {
    (n / 3) * 4 + if n % 3 == 0 {
        0nat
    } else if n % 3 == 1 {
        2nat
    } else {
        3nat
    }
}

/// The character of a 6-bit value `v` in the URL-safe base64 alphabet:
/// `A`-`Z`, `a`-`z`, `0`-`9`, then `-` and `_`.
pub open spec fn url_safe_char(v: int) -> char {
    if v < 26 {
        (65 + v) as char
    } else if v < 52 {
        (97 + (v - 26)) as char
    } else if v < 62 {
        (48 + (v - 52)) as char
    } else if v == 62 {
        '-'
    } else {
        '_'
    }
}

/// The URL-safe base64 encoding of `bytes` without padding (RFC 4648, section
/// 5): each group of three bytes becomes four characters of six bits each,
/// most significant first; a last group of one or two bytes becomes two or
/// three characters, the last of them filled up with zero bits.
pub open spec fn base64_url_no_pad(bytes: Seq<u8>) -> Seq<char>
    decreases bytes.len(),
{
    if bytes.len() == 0 {
        Seq::empty()
    } else if bytes.len() == 1 {
        seq![url_safe_char((bytes[0] as int) / 4), url_safe_char(((bytes[0] as int) % 4) * 16)]
    } else if bytes.len() == 2 {
        seq![
            url_safe_char((bytes[0] as int) / 4),
            url_safe_char(((bytes[0] as int) % 4) * 16 + (bytes[1] as int) / 16),
            url_safe_char(((bytes[1] as int) % 16) * 4),
        ]
    } else {
        seq![
            url_safe_char((bytes[0] as int) / 4),
            url_safe_char(((bytes[0] as int) % 4) * 16 + (bytes[1] as int) / 16),
            url_safe_char(((bytes[1] as int) % 16) * 4 + (bytes[2] as int) / 64),
            url_safe_char((bytes[2] as int) % 64),
        ] + base64_url_no_pad(bytes.subrange(3, bytes.len() as int))
    }
}

/// Every value below 64 has a character of the URL-safe alphabet.
proof fn lemma_url_safe_char(v: int)
    requires
        0 <= v < 64,
    ensures
        is_url_safe_base64(url_safe_char(v)),
{
    if v < 26 {
        vstd::utf8::char_u32_cast((65 + v) as char, (65 + v) as u32);
    } else if v < 52 {
        vstd::utf8::char_u32_cast((97 + (v - 26)) as char, (97 + (v - 26)) as u32);
    } else if v < 62 {
        vstd::utf8::char_u32_cast((48 + (v - 52)) as char, (48 + (v - 52)) as u32);
    }
}

/// The encoding of `bytes` has `encoded_len_no_pad` characters, each of the
/// URL-safe alphabet.
pub proof fn lemma_base64_url_no_pad(bytes: Seq<u8>)
    ensures
        base64_url_no_pad(bytes).len() == encoded_len_no_pad(bytes.len()),
        forall|i: int|
            0 <= i < base64_url_no_pad(bytes).len() ==> is_url_safe_base64(
                #[trigger] base64_url_no_pad(bytes)[i],
            ),
    decreases bytes.len(),
{
    let e = base64_url_no_pad(bytes);
    if bytes.len() >= 1 {
        lemma_url_safe_char((bytes[0] as int) / 4);
    }
    if bytes.len() == 1 {
        lemma_url_safe_char(((bytes[0] as int) % 4) * 16);
    } else if bytes.len() == 2 {
        lemma_url_safe_char(((bytes[0] as int) % 4) * 16 + (bytes[1] as int) / 16);
        lemma_url_safe_char(((bytes[1] as int) % 16) * 4);
    } else if bytes.len() > 2 {
        let rest = bytes.subrange(3, bytes.len() as int);
        lemma_base64_url_no_pad(rest);
        lemma_url_safe_char(((bytes[0] as int) % 4) * 16 + (bytes[1] as int) / 16);
        lemma_url_safe_char(((bytes[1] as int) % 16) * 4 + (bytes[2] as int) / 64);
        lemma_url_safe_char((bytes[2] as int) % 64);
        let head = seq![
            url_safe_char((bytes[0] as int) / 4),
            url_safe_char(((bytes[0] as int) % 4) * 16 + (bytes[1] as int) / 16),
            url_safe_char(((bytes[1] as int) % 16) * 4 + (bytes[2] as int) / 64),
            url_safe_char((bytes[2] as int) % 64),
        ];
        let tail = base64_url_no_pad(rest);
        assert(e == head + tail);
        assert forall|i: int| 0 <= i < e.len() implies is_url_safe_base64(#[trigger] e[i]) by {
            if i >= 4 {
                assert(e[i] == tail[i - 4]);
            }
        }
    }
}

/// Calls `sha256::digest` on the string: its SHA-256 digest as 64 lowercase
/// hexadecimal digits (`hex::encode` of the 32 digest bytes).
#[verifier::external_body]
pub(crate) fn digest(s: &str) -> (d: String)
    ensures
        d@ == sha256_hex(s@),
        d@.len() == 64,
        forall|i: int| 0 <= i < 64 ==> is_lower_hex(#[trigger] d@[i]),
{
    sha256::digest(s)
}

/// Calls `URL_SAFE_NO_PAD.encode`: the bytes in URL-safe base64 without
/// padding. The encoder panics where the length of the encoding overflows
/// `usize`, which the bound on the input rules out.
#[verifier::external_body]
fn encode_url_safe(bytes: &[u8]) -> (s: String)
    requires
        bytes@.len() <= usize::MAX / 4,
    ensures
        s@ == base64_url_no_pad(bytes@),
{
    base64::engine::general_purpose::URL_SAFE_NO_PAD.encode(bytes)
}

/// Calls `fill_bytes` of `rand::rng()` on the buffer: it keeps its length;
/// its contents are random.
#[verifier::external_body]
fn fill_random(buf: &mut Vec<u8>)
    ensures
        final(buf)@.len() == old(buf)@.len(),
{
    rand::rng().fill_bytes(buf.as_mut_slice())
}

/// Calls `chrono::Utc::now` once and gives back that instant as its whole
/// microseconds since the epoch (`timestamp_micros`) and its nanoseconds past
/// the last whole second (`timestamp_subsec_nanos`). `Utc::now` panics on a
/// clock before the epoch and cannot represent instants after year 262143,
/// hence the bounds; its nanoseconds come from a `Duration`, so they stay
/// under one second.
#[verifier::external_body]
fn clock_now() -> (r: (i64, u32))
    ensures
        0 <= r.0 < CLOCK_LIMIT_MICROS,
        r.1 < 1_000_000_000,
{
    let now = chrono::Utc::now();
    (now.timestamp_micros(), now.timestamp_subsec_nanos())
}

/// An instant, to the nanosecond: whole microseconds since the epoch, and the
/// nanoseconds past the last whole microsecond.
#[derive(Debug, Clone, Copy, PartialEq, Eq, Structural)]
pub struct Timestamp {
    pub micros: i64,
    pub sub_micro_nanos: u32,
}

impl Timestamp {
    /// A readable instant: after the epoch, within the clock's range, and with
    /// fewer than a thousand nanoseconds past its microsecond.
    pub open spec fn valid(self) -> bool {
        0 <= self.micros < CLOCK_LIMIT_MICROS && self.sub_micro_nanos < 1000
    }
}

/// A stored time `t` (whole microseconds, as the database keeps it) lies
/// strictly before the instant `now`.
pub open spec fn is_before(t: i64, now: Timestamp) -> bool {
    t < now.micros || (t == now.micros && now.sub_micro_nanos > 0)
}

/// The current instant.
pub(crate) fn now_timestamp() -> (t: Timestamp)
    ensures
        t.valid(),
{
    let (micros, nanos) = clock_now();
    Timestamp { micros, sub_micro_nanos: nanos % 1000 }
}

/// A random token of `byte_len` random bytes, in URL-safe base64 without
/// padding.
pub fn generate_random_secure_token(byte_len: usize) -> (t: String)
    requires
        byte_len <= usize::MAX / 4,
    ensures
        exists|bytes: Seq<u8>| bytes.len() == byte_len && t@ == base64_url_no_pad(bytes),
        t@.len() == encoded_len_no_pad(byte_len as nat),
        forall|i: int| 0 <= i < t@.len() ==> is_url_safe_base64(#[trigger] t@[i]),
{
    let mut bytes: Vec<u8> = Vec::new();
    for _i in 0..byte_len
        invariant
            bytes@.len() == _i,
    {
        bytes.push(0);
    }
    fill_random(&mut bytes);
    let t = encode_url_safe(bytes.as_slice());
    proof {
        lemma_base64_url_no_pad(bytes@);
    }
    t
}

/// A stored refresh token.
#[derive(Debug)]
pub struct RefreshToken {
    pub id: u128,
    pub user_id: u128,
    /// `sha256_hex` of the token the client holds.
    pub token_hash: String,
    pub ip_address: Option<IpAddress>,
    pub user_agent: Option<String>,
    /// Microseconds since the epoch.
    pub expires_at: i64,
    pub revoked_at: Option<i64>,
    pub replaced_by_token_id: Option<u128>,
    pub created_at: i64,
}

/// The row of a refresh token to be inserted.
#[derive(Debug)]
pub struct NewRefreshToken {
    pub id: u128,
    pub user_id: u128,
    pub token_hash: String,
    pub ip_address: Option<IpAddress>,
    pub user_agent: Option<String>,
    /// Microseconds since the epoch.
    pub expires_at: i64,
}

/// A refresh token as handed out: the secret for the client, and the row that
/// stores its digest.
#[derive(Debug)]
pub struct IssuedToken {
    pub token: String,
    pub row: NewRefreshToken,
}

/// The text of an optional string, as a value.
pub open spec fn opt_text(o: Option<String>) -> Option<Seq<char>> {
    match o {
        Some(s) => Some(s@),
        None => None,
    }
}

/// The row storing `token` for `user_id`: the token's digest, the client's
/// address and agent, and an expiry one week after `now`.
pub fn new_refresh_token(
    id: u128,
    user_id: u128,
    token: &str,
    ip_address: Option<IpAddress>,
    user_agent: Option<String>,
    now: i64,
) -> (r: NewRefreshToken)
    requires
        now <= i64::MAX - REFRESH_TOKEN_LIFETIME_MICROS,
    ensures
        r.id == id,
        r.user_id == user_id,
        r.token_hash@ == sha256_hex(token@),
        r.ip_address == ip_address,
        opt_text(r.user_agent) == opt_text(user_agent),
        r.expires_at == now + REFRESH_TOKEN_LIFETIME_MICROS,
{
    NewRefreshToken {
        id,
        user_id,
        token_hash: digest(token),
        ip_address,
        user_agent,
        expires_at: now + REFRESH_TOKEN_LIFETIME_MICROS,
    }
}

/// `r` is a refresh token issued at `now` for `user_id`, `ip_address` and
/// `user_agent`: a secret encoding 32 bytes in 43 URL-safe base64 characters,
/// and the row that stores its digest under a fresh random id for that user,
/// address and agent, expiring one week after `now` (cut to whole
/// microseconds, as the database stores it).
pub open spec fn issued_at(
    r: IssuedToken,
    user_id: u128,
    ip_address: Option<IpAddress>,
    user_agent: Option<Seq<char>>,
    now: Timestamp,
) -> bool {
    &&& exists|bytes: Seq<u8>|
        bytes.len() == REFRESH_TOKEN_BYTES && r.token@ == base64_url_no_pad(bytes)
    &&& r.token@.len() == 43
    &&& forall|i: int| 0 <= i < r.token@.len() ==> is_url_safe_base64(#[trigger] r.token@[i])
    &&& r.row.token_hash@ == sha256_hex(r.token@)
    &&& r.row.user_id == user_id
    &&& is_v4_uuid(r.row.id)
    &&& r.row.ip_address == ip_address
    &&& opt_text(r.row.user_agent) == user_agent
    &&& r.row.expires_at == now.micros + REFRESH_TOKEN_LIFETIME_MICROS
}

/// A new refresh token for `user_id`, issued at `now` (see `issued_at`).
pub fn issue_refresh_token_at(
    user_id: u128,
    ip_address: Option<IpAddress>,
    user_agent: Option<String>,
    now: Timestamp,
) -> (r: IssuedToken)
    requires
        now.valid(),
    ensures
        issued_at(r, user_id, ip_address, opt_text(user_agent), now),
{
    let token = generate_random_secure_token(REFRESH_TOKEN_BYTES);
    let id = new_uuid();
    let row = new_refresh_token(id, user_id, token.as_str(), ip_address, user_agent, now.micros);
    IssuedToken { token, row }
}

/// A new refresh token for `user_id`, issued now: a random secret of 32 bytes
/// (43 URL-safe base64 characters), and the row that stores its digest under
/// a fresh random id, expiring one week from the current instant (see
/// `issued_at`).
pub fn issue_refresh_token(
    user_id: u128,
    ip_address: Option<IpAddress>,
    user_agent: Option<String>,
) -> (r: IssuedToken)
    ensures
        exists|now: Timestamp|
            now.valid() && #[trigger] issued_at(r, user_id, ip_address, opt_text(user_agent), now),
{
    issue_refresh_token_at(user_id, ip_address, user_agent, now_timestamp())
}

} // verus!

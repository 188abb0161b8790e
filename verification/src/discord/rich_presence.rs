use vstd::prelude::*;
use crate::discord::c_string::{NulError, has_nul, is_nul_error_of, to_c_string, utf8_bytes};

verus! {

/// Defines the data displayed on the rich presence screen on a user's profile.
#[derive(Default, Clone, Hash, PartialEq, Debug)]
pub struct RichPresence {
    /// The user's current party status. Maximum of 128 bytes.
    pub state: Option<String>,
    /// What the player is currently doing. Maximum of 128 bytes.
    pub details: Option<String>,
    /// Time of game start, in nanoseconds since the UNIX epoch. Including will show time as "elapsed".
    pub start_time: Option<u64>,
    /// Time of game end, in nanoseconds since the UNIX epoch. Including will show time as "remaining".
    pub end_time: Option<u64>,
    /// Name of the uploaded image for the large profile artwork. Maximum of 32 bytes.
    pub large_image_key: Option<String>,
    /// Tooltip for the large image. Maximum of 128 bytes.
    pub large_image_text: Option<String>,
    /// Name of the uploaded image for the small profile artwork. Maximum of 32 bytes.
    pub small_image_key: Option<String>,
    /// Tooltip for the small image. Maximum of 128 bytes.
    pub small_image_text: Option<String>,
    /// ID of the player's party, lobby, or group. Maximum of 128 bytes.
    pub party_id: Option<String>,
    /// Current size of the player's party, lobby, or group.
    pub party_size: Option<u32>,
    /// Maximum size of the player's party, lobby, or group.
    pub party_max: Option<u32>,
    /// Unique hashed string for Spectate button. Maximum of 128 bytes.
    pub spectate_secret: Option<String>,
    /// Unique hashed string for chat invitations and Ask to Join. Maximum of 128 bytes.
    pub join_secret: Option<String>,
}

/// The fields of the C library's presence record: a string field is absent
/// (a null pointer) or a string free of NUL bytes; numbers absent are 0.
pub struct DiscordRichPresence {
    pub state: Option<String>,
    pub details: Option<String>,
    /// Seconds since the UNIX epoch.
    pub start_timestamp: i64,
    /// Seconds since the UNIX epoch.
    pub end_timestamp: i64,
    pub large_image_key: Option<String>,
    pub large_image_text: Option<String>,
    pub small_image_key: Option<String>,
    pub small_image_text: Option<String>,
    pub party_id: Option<String>,
    pub party_size: i32,
    pub party_max: i32,
    /// Deprecated by the library; always absent.
    pub match_secret: Option<String>,
    pub join_secret: Option<String>,
    pub spectate_secret: Option<String>,
    /// Deprecated by the library; always 0.
    pub instance: i8,
}

/// The string field `o` cannot be handed to C.
pub open spec fn field_fails(o: Option<String>) -> bool {
    o matches Some(s) && has_nul(utf8_bytes(s@))
}

/// The bytes of the string field `o`.
pub open spec fn field_bytes(o: Option<String>) -> Seq<u8> {
    match o {
        Some(s) => utf8_bytes(s@),
        None => Seq::empty(),
    }
}

/// The bytes of the first string field, in the order the record is filled, that holds a NUL byte.
pub open spec fn first_failing_field(p: RichPresence) -> Option<Seq<u8>> {
    if field_fails(p.state) {
        Some(field_bytes(p.state))
    } else if field_fails(p.details) {
        Some(field_bytes(p.details))
    } else if field_fails(p.large_image_key) {
        Some(field_bytes(p.large_image_key))
    } else if field_fails(p.large_image_text) {
        Some(field_bytes(p.large_image_text))
    } else if field_fails(p.small_image_key) {
        Some(field_bytes(p.small_image_key))
    } else if field_fails(p.small_image_text) {
        Some(field_bytes(p.small_image_text))
    } else if field_fails(p.party_id) {
        Some(field_bytes(p.party_id))
    } else if field_fails(p.join_secret) {
        Some(field_bytes(p.join_secret))
    } else if field_fails(p.spectate_secret) {
        Some(field_bytes(p.spectate_secret))
    } else {
        None
    }
}

/// Whole seconds since the UNIX epoch of a time in nanoseconds, 0 when absent.
pub open spec fn unix_seconds(t: Option<u64>) -> i64 {
    match t {
        Some(ns) => (ns / 1_000_000_000) as i64,
        None => 0,
    }
}

/// A count as the C library's `int`: the same bits, 0 when absent.
pub open spec fn c_count(n: Option<u32>) -> i32 {
    match n {
        Some(x) => x as i32,
        None => 0,
    }
}

/// The record that a presence free of NUL bytes becomes.
pub open spec fn wrapped(p: RichPresence) -> DiscordRichPresence {
    DiscordRichPresence {
        state: p.state,
        details: p.details,
        start_timestamp: unix_seconds(p.start_time),
        end_timestamp: unix_seconds(p.end_time),
        large_image_key: p.large_image_key,
        large_image_text: p.large_image_text,
        small_image_key: p.small_image_key,
        small_image_text: p.small_image_text,
        party_id: p.party_id,
        party_size: c_count(p.party_size),
        party_max: c_count(p.party_max),
        match_secret: None,
        join_secret: p.join_secret,
        spectate_secret: p.spectate_secret,
        instance: 0,
    }
}

fn c_field(o: Option<String>) -> (r: Result<Option<String>, NulError>)
    ensures
        r is Ok <==> !field_fails(o),
        r matches Ok(v) ==> v == o,
        r matches Err(e) ==> is_nul_error_of(field_bytes(o), e),
{
    match o {
        Some(s) => match to_c_string(s) {
            Ok(t) => Ok(Some(t)),
            Err(e) => Err(e),
        },
        None => Ok(None),
    }
}

fn seconds(t: Option<u64>) -> (r: i64)
    ensures
        r == unix_seconds(t),
{
    match t {
        Some(ns) => (ns / 1_000_000_000) as i64,
        None => 0,
    }
}

fn count(n: Option<u32>) -> (r: i32)
    ensures
        r == c_count(n),
{
    match n {
        Some(x) => x as i32,
        None => 0,
    }
}

impl RichPresence {
    /// The record that the C library takes, or the error of the first string
    /// field (state, details, large image key and text, small image key and
    /// text, party id, join secret, spectate secret) that holds a NUL byte.
    pub fn wrap(self) -> (r: Result<DiscordRichPresence, NulError>)
        ensures
            r is Ok <==> first_failing_field(self) is None,
            r matches Ok(d) ==> d == wrapped(self),
            r matches Err(e) ==> first_failing_field(self) matches Some(b) && is_nul_error_of(b, e),
    {
        let state = c_field(self.state)?;
        let details = c_field(self.details)?;
        let start_timestamp = seconds(self.start_time);
        let end_timestamp = seconds(self.end_time);
        let large_image_key = c_field(self.large_image_key)?;
        let large_image_text = c_field(self.large_image_text)?;
        let small_image_key = c_field(self.small_image_key)?;
        let small_image_text = c_field(self.small_image_text)?;
        let party_id = c_field(self.party_id)?;
        let party_size = count(self.party_size);
        let party_max = count(self.party_max);
        let join_secret = c_field(self.join_secret)?;
        let spectate_secret = c_field(self.spectate_secret)?;
        Ok(DiscordRichPresence {
            state,
            details,
            start_timestamp,
            end_timestamp,
            large_image_key,
            large_image_text,
            small_image_key,
            small_image_text,
            party_id,
            party_size,
            party_max,
            match_secret: None,
            join_secret,
            spectate_secret,
            instance: 0,
        })
    }
}

/// The string fields of `p` in the order the C record lists them.
pub open spec fn string_fields(p: RichPresence) -> Seq<Option<String>> {
    seq![
        p.state,
        p.details,
        p.large_image_key,
        p.large_image_text,
        p.small_image_key,
        p.small_image_text,
        p.party_id,
        p.join_secret,
        p.spectate_secret,
    ]
}

/// A presence converts exactly when none of its string fields holds a NUL
/// byte; otherwise the error is about the first such field in the record's order.
pub proof fn lemma_wrap_fails_on_first_nul(p: RichPresence)
    ensures
        first_failing_field(p) is None <==> forall|k: int|
            0 <= k < 9 ==> !field_fails(#[trigger] string_fields(p)[k]),
        first_failing_field(p) matches Some(b) ==> exists|k: int|
            0 <= k < 9 && field_fails(#[trigger] string_fields(p)[k]) && field_bytes(
                string_fields(p)[k],
            ) == b && forall|j: int| 0 <= j < k ==> !field_fails(string_fields(p)[j]),
        first_failing_field(p) matches Some(b) ==> has_nul(b),
{
    let f = string_fields(p);
    assert(f[0] == p.state && f[1] == p.details && f[2] == p.large_image_key && f[3]
        == p.large_image_text && f[4] == p.small_image_key && f[5] == p.small_image_text && f[6]
        == p.party_id && f[7] == p.join_secret && f[8] == p.spectate_secret);
    if first_failing_field(p) is None {
        assert forall|k: int| 0 <= k < 9 implies !field_fails(#[trigger] f[k]) by {
            if k == 0 {} else if k == 1 {} else if k == 2 {} else if k == 3 {} else if k == 4 {
            } else if k == 5 {} else if k == 6 {} else if k == 7 {} else {}
        }
    }
    if field_fails(p.state) {
        assert(field_fails(f[0]));
    } else if field_fails(p.details) {
        assert(field_fails(f[1]));
    } else if field_fails(p.large_image_key) {
        assert(field_fails(f[2]));
    } else if field_fails(p.large_image_text) {
        assert(field_fails(f[3]));
    } else if field_fails(p.small_image_key) {
        assert(field_fails(f[4]));
    } else if field_fails(p.small_image_text) {
        assert(field_fails(f[5]));
    } else if field_fails(p.party_id) {
        assert(field_fails(f[6]));
    } else if field_fails(p.join_secret) {
        assert(field_fails(f[7]));
    } else if field_fails(p.spectate_secret) {
        assert(field_fails(f[8]));
    }
}

/// A converted presence keeps every string field as it was, drops the
/// deprecated ones, gives times as the whole seconds they fall in, and
/// counts as the same 32 bits.
pub proof fn lemma_wrap_keeps_fields(p: RichPresence)
    ensures
        string_fields(p) == seq![
            wrapped(p).state,
            wrapped(p).details,
            wrapped(p).large_image_key,
            wrapped(p).large_image_text,
            wrapped(p).small_image_key,
            wrapped(p).small_image_text,
            wrapped(p).party_id,
            wrapped(p).join_secret,
            wrapped(p).spectate_secret,
        ],
        wrapped(p).match_secret is None,
        wrapped(p).instance == 0,
        p.start_time matches Some(t) ==> wrapped(p).start_timestamp * 1_000_000_000 <= t
            < (wrapped(p).start_timestamp + 1) * 1_000_000_000,
        p.start_time is None ==> wrapped(p).start_timestamp == 0,
        p.end_time matches Some(t) ==> wrapped(p).end_timestamp * 1_000_000_000 <= t
            < (wrapped(p).end_timestamp + 1) * 1_000_000_000,
        p.end_time is None ==> wrapped(p).end_timestamp == 0,
        p.party_size matches Some(x) ==> (x <= i32::MAX ==> wrapped(p).party_size == x) && (x
            > i32::MAX ==> wrapped(p).party_size == x - 0x1_0000_0000),
        p.party_size is None ==> wrapped(p).party_size == 0,
        p.party_max matches Some(x) ==> (x <= i32::MAX ==> wrapped(p).party_max == x) && (x
            > i32::MAX ==> wrapped(p).party_max == x - 0x1_0000_0000),
        p.party_max is None ==> wrapped(p).party_max == 0,
{
    assert(string_fields(p) =~= seq![
        wrapped(p).state,
        wrapped(p).details,
        wrapped(p).large_image_key,
        wrapped(p).large_image_text,
        wrapped(p).small_image_key,
        wrapped(p).small_image_text,
        wrapped(p).party_id,
        wrapped(p).join_secret,
        wrapped(p).spectate_secret,
    ]);
    if let Some(x) = p.party_size {
        assert(x <= i32::MAX ==> (x as i32) == x) by (bit_vector);
        assert(x > i32::MAX ==> (x as i32) == x - 0x1_0000_0000) by (bit_vector);
    }
    if let Some(x) = p.party_max {
        assert(x <= i32::MAX ==> (x as i32) == x) by (bit_vector);
        assert(x > i32::MAX ==> (x as i32) == x - 0x1_0000_0000) by (bit_vector);
    }
}

} // verus!

use vstd::prelude::*;
use vstd::string::*;
use vstd::utf8::encode_utf8;

use crate::json::JsonValue;
use crate::model::account::{in_chrono_range, utc_now, UtcTime};
use crate::text::chars_of;

verus! {

/// The kind of client a request comes from: the vendor's coding CLI, or a direct API call.
#[derive(Clone, Copy, Debug, PartialEq, Eq, Structural)]
pub enum ClientType {
    CodeCli,
    Api,
}

/// The text of the first item of `items` that has a string member `text`.
pub open spec fn first_text(items: Seq<JsonValue>) -> Option<Seq<char>>
    decreases items.len(),
{
    if items.len() == 0 {
        None
    } else {
        match items[0].text_at("text"@) {
            Some(t) => Some(t),
            None => first_text(items.drop_first()),
        }
    }
}

/// The text a content field holds: a string as it is, or the first text of an array of
/// blocks; empty for anything else.
pub open spec fn content_text(v: Option<JsonValue>) -> Seq<char> {
    match v {
        Some(JsonValue::String(s)) => s@,
        Some(JsonValue::Array(items)) => match first_text(items@) {
            Some(t) => t,
            None => Seq::empty(),
        },
        _ => Seq::empty(),
    }
}

/// The text of the first message: the content of the first item of `messages`, when
/// that item is an object.
pub open spec fn first_message_text(body: JsonValue) -> Seq<char> {
    match body.lookup("messages"@) {
        Some(JsonValue::Array(msgs)) => {
            if msgs@.len() > 0 && msgs@[0].is_object_value() {
                content_text(msgs@[0].lookup("content"@))
            } else {
                Seq::empty()
            }
        },
        _ => Seq::empty(),
    }
}

/// The text that identifies an API conversation: the system prompt, or the first
/// message when the system prompt gives no text.
pub open spec fn conversation_text(body: JsonValue) -> Seq<char> {
    let system = content_text(body.lookup("system"@));
    if system.len() == 0 {
        first_message_text(body)
    } else {
        system
    }
}

/// The `metadata.user_id` string of a request body, when there is one.
pub open spec fn metadata_user_id(body: JsonValue) -> Option<Seq<char>> {
    match body.lookup("metadata"@) {
        Some(m) => m.text_at("user_id"@),
        None => None,
    }
}

/// Whether `pattern` occurs in `s` at position `i`.
pub open spec fn occurs_at(s: Seq<char>, pattern: Seq<char>, i: int) -> bool {
    0 <= i && i + pattern.len() <= s.len() && s.subrange(i, i + pattern.len()) == pattern
}

/// Whether `i` is the last position where `pattern` occurs in `s`.
pub open spec fn is_last_occurrence(s: Seq<char>, pattern: Seq<char>, i: int) -> bool {
    occurs_at(s, pattern, i) && forall|j: int| i < j ==> !#[trigger] occurs_at(s, pattern, j)
}

/// The marker of the older `user_id` format, in front of the session id.
pub open spec fn session_marker() -> Seq<char> {
    "_session_"@
}

/// The session id of a coding CLI request: the non-empty `session_id` of the
/// `user_id` read as JSON (`parsed`), or else what follows the last `_session_` in
/// `user_id`.
pub open spec fn cli_session(user_id: Seq<char>, parsed: Option<JsonValue>) -> Option<Seq<char>> {
    let from_json = match parsed {
        Some(v) => v.text_at("session_id"@),
        None => None,
    };
    if from_json is Some && from_json->0.len() > 0 {
        from_json
    } else if exists|i: int| occurs_at(user_id, session_marker(), i) {
        let i = choose|i: int| is_last_occurrence(user_id, session_marker(), i);
        Some(user_id.subrange(i + session_marker().len(), user_id.len() as int))
    } else {
        None
    }
}

/// The lowercase hexadecimal digit for `n` (below sixteen).
pub open spec fn hex_digit(n: int) -> char {
    if n < 10 {
        ('0' as int + n) as char
    } else {
        ('a' as int + (n - 10)) as char
    }
}

/// The lowercase hexadecimal text of `bytes`: two digits per byte, high half first.
pub open spec fn hex_lower(bytes: Seq<u8>) -> Seq<char>
    decreases bytes.len(),
{
    if bytes.len() == 0 {
        Seq::empty()
    } else {
        hex_lower(bytes.drop_last()) + seq![
            hex_digit(bytes.last() as int / 16),
            hex_digit(bytes.last() as int % 16),
        ]
    }
}

/// The hexadecimal text of `bytes` has two characters per byte, each a lowercase
/// hexadecimal digit.
pub proof fn lemma_hex_lower_len(bytes: Seq<u8>)
    ensures
        hex_lower(bytes).len() == 2 * bytes.len(),
        forall|i: int| 0 <= i < hex_lower(bytes).len() ==> is_lower_hex(#[trigger] hex_lower(bytes)[i]),
    decreases bytes.len(),
{
    if bytes.len() > 0 {
        lemma_hex_lower_len(bytes.drop_last());
        let h = bytes.last() as int;
        assert(0 <= h / 16 < 16 && 0 <= h % 16 < 16);
        let prev = hex_lower(bytes.drop_last());
        let tail = seq![hex_digit(h / 16), hex_digit(h % 16)];
        assert(hex_lower(bytes) == prev + tail);
        assert forall|i: int| 0 <= i < hex_lower(bytes).len() implies is_lower_hex(#[trigger] hex_lower(bytes)[i]) by {
            if i < prev.len() {
                assert(hex_lower(bytes)[i] == prev[i]);
            } else {
                assert(hex_lower(bytes)[i] == tail[i - prev.len()]);
            }
        }
    }
}

/// What SHA-256 makes of `data`.
pub uninterp spec fn sha256_digest(data: Seq<u8>) -> Seq<u8>;

/// The SHA-256 digest of `data`, from `sha2::Sha256::digest`: it is the digest of
/// `data` and, as SHA-256 digests are, 32 bytes long.
#[verifier::external_body]
fn sha256(data: &[u8]) -> (r: Vec<u8>)
    ensures
        r@ == sha256_digest(data@),
        r@.len() == 32,
{
    <sha2::Sha256 as sha2::Digest>::digest(data).to_vec()
}

/// `bytes` in lowercase hexadecimal, from `hex::encode`: each byte gives its high and
/// then its low half as a digit of `0123456789abcdef`.
#[verifier::external_body]
fn hex_encode(bytes: &[u8]) -> (r: String)
    ensures
        r@ == hex_lower(bytes@),
{
    hex::encode(bytes)
}

/// What `chrono` writes for the time `secs`/`nanos` (UTC) with the format `fmt`.
pub uninterp spec fn utc_formatted(secs: i64, nanos: u32, fmt: Seq<char>) -> Seq<char>;

/// The time `secs`/`nanos` (UTC) written with `fmt`, from
/// `chrono::DateTime::from_timestamp` and `format`: that text, for a time `chrono`
/// represents and the hour-window format (which writes without failing).
#[verifier::external_body]
fn format_utc(secs: i64, nanos: u32, fmt: &str) -> (r: String)
    requires
        in_chrono_range(UtcTime { secs, nanos }),
        fmt@ == hour_window_format(),
    ensures
        r@ == utc_formatted(secs, nanos, fmt@),
{
    match chrono::DateTime::from_timestamp(secs, nanos) {
        Some(t) => t.format(fmt).to_string(),
        None => String::new(),
    }
}

/// The format of an hour window: `YYYY-MM-DDTHH`.
pub open spec fn hour_window_format() -> Seq<char> {
    "%Y-%m-%dT%H"@
}

/// The hour window of the time `now`.
pub open spec fn hour_window(now: UtcTime) -> Seq<char> {
    utc_formatted(now.secs, now.nanos, hour_window_format())
}

/// The hour window of the time `now`, as `chrono` writes it.
pub fn hour_window_of(now: &UtcTime) -> (r: String)
    requires
        in_chrono_range(*now),
    ensures
        r@ == hour_window(*now),
{
    format_utc(now.secs, now.nanos, "%Y-%m-%dT%H")
}

/// The session hash of an API conversation: the first 16 bytes of the SHA-256 of
/// `user agent|conversation text|hour window`, in lowercase hexadecimal.
pub open spec fn api_session_hash(user_agent: Seq<char>, content: Seq<char>, hour: Seq<char>) -> Seq<char> {
    hex_lower(sha256_digest(encode_utf8(user_agent + "|"@ + content + "|"@ + hour)).take(16))
}

/// The session id a request names: for a coding CLI client, the session of its
/// `metadata.user_id`; nothing for other clients.
pub open spec fn named_session(body: JsonValue, client_type: ClientType, parsed: Option<JsonValue>) -> Option<Seq<char>> {
    if client_type == ClientType::CodeCli {
        match metadata_user_id(body) {
            Some(u) => cli_session(u, parsed),
            None => None,
        }
    } else {
        None
    }
}

/// Whether `c` is a lowercase hexadecimal digit.
pub open spec fn is_lower_hex(c: char) -> bool {
    ('0' <= c && c <= '9') || ('a' <= c && c <= 'f')
}

/// The session hash of a request: for a coding CLI client with a `metadata.user_id`
/// that names a session, that session id; otherwise the hash of the API conversation
/// within the hour window `hour`. `parsed` is `metadata.user_id` read as JSON, if it
/// reads.
pub open spec fn session_hash_text(
    user_agent: Seq<char>,
    body: JsonValue,
    client_type: ClientType,
    parsed: Option<JsonValue>,
    hour: Seq<char>,
) -> Seq<char> {
    match named_session(body, client_type, parsed) {
        Some(s) => s,
        None => api_session_hash(user_agent, conversation_text(body), hour),
    }
}

/// A coding CLI request that names its session gets that session id as its hash,
/// whatever the hour.
pub proof fn lemma_named_session_ignores_hour(
    user_agent: Seq<char>,
    body: JsonValue,
    parsed: Option<JsonValue>,
    hour1: Seq<char>,
    hour2: Seq<char>,
)
    requires
        metadata_user_id(body) is Some,
        cli_session(metadata_user_id(body)->0, parsed) is Some,
    ensures
        session_hash_text(user_agent, body, ClientType::CodeCli, parsed, hour1)
            == cli_session(metadata_user_id(body)->0, parsed)->0,
        session_hash_text(user_agent, body, ClientType::CodeCli, parsed, hour1)
            == session_hash_text(user_agent, body, ClientType::CodeCli, parsed, hour2),
{
}

/// Requests from API clients are hashed from the user agent, the conversation text and
/// the hour window alone, whatever their `metadata` holds.
pub proof fn lemma_api_hash_ignores_metadata(
    user_agent: Seq<char>,
    body: JsonValue,
    parsed: Option<JsonValue>,
    hour: Seq<char>,
)
    ensures
        session_hash_text(user_agent, body, ClientType::Api, parsed, hour)
            == api_session_hash(user_agent, conversation_text(body), hour),
{
}

/// The conversation text of a body without a system prompt is the content of its first
/// message, when that content is a string, however many messages follow.
pub proof fn lemma_conversation_from_first_message(body: JsonValue, msgs: Vec<JsonValue>, content: String)
    requires
        body.lookup("system"@) is None,
        body.lookup("messages"@) == Some(JsonValue::Array(msgs)),
        msgs@.len() >= 1,
        msgs@[0].lookup("content"@) == Some(JsonValue::String(content)),
    ensures
        conversation_text(body) == content@,
{
}

/// The conversation text of a body without a system prompt, whose first message holds
/// blocks, is the text of the first of its blocks that has one, however many messages
/// follow.
pub proof fn lemma_conversation_from_first_message_blocks(
    body: JsonValue,
    msgs: Vec<JsonValue>,
    blocks: Vec<JsonValue>,
    text: Seq<char>,
)
    requires
        body.lookup("system"@) is None,
        body.lookup("messages"@) == Some(JsonValue::Array(msgs)),
        msgs@.len() >= 1,
        msgs@[0].lookup("content"@) == Some(JsonValue::Array(blocks)),
        blocks@.len() >= 1,
        blocks@[0].text_at("text"@) == Some(text),
    ensures
        conversation_text(body) == text,
{
}

/// A system prompt with text is the conversation text, whatever the messages hold.
pub proof fn lemma_conversation_from_system(body: JsonValue, system: String)
    requires
        body.lookup("system"@) == Some(JsonValue::String(system)),
        system@.len() > 0,
    ensures
        conversation_text(body) == system@,
{
}

/// The text of the first item of `items` that has a string member `text`.
fn first_text_of(items: &Vec<JsonValue>) -> (r: Option<&String>)
    ensures
        match r {
            Some(t) => first_text(items@) == Some(t@),
            None => first_text(items@) is None,
        },
{
    let n = items.len();
    let mut i: usize = 0;
    assert(items@.subrange(0, n as int) =~= items@);
    while i < n
        invariant
            n == items.len(),
            i <= n,
            first_text(items@.subrange(i as int, n as int)) == first_text(items@),
        decreases n - i,
    {
        proof {
            let t = items@.subrange(i as int, n as int);
            assert(t.drop_first() =~= items@.subrange(i + 1, n as int));
            assert(t[0] == items@[i as int]);
        }
        match items[i].str_at("text") {
            Some(t) => {
                return Some(t);
            },
            None => {},
        }
        i = i + 1;
    }
    None
}

/// The text a content field holds.
fn content_text_of(v: Option<&JsonValue>) -> (r: String)
    ensures
        r@ == content_text(match v {
            Some(x) => Some(*x),
            None => None,
        }),
{
    match v {
        Some(JsonValue::String(s)) => s.clone(),
        Some(JsonValue::Array(items)) => match first_text_of(items) {
            Some(t) => t.clone(),
            None => String::new(),
        },
        _ => String::new(),
    }
}

/// The text that identifies an API conversation: the system prompt, or else the first
/// message.
pub fn conversation_text_of(body: &JsonValue) -> (r: String)
    ensures
        r@ == conversation_text(*body),
{
    let system = content_text_of(body.get("system"));
    if !system.as_str().is_empty() {
        return system;
    }
    match body.get("messages") {
        Some(JsonValue::Array(msgs)) => {
            if msgs.len() > 0 && msgs[0].is_object() {
                content_text_of(msgs[0].get("content"))
            } else {
                String::new()
            }
        },
        _ => String::new(),
    }
}

/// The `metadata.user_id` of a coding CLI request, which the caller reads as JSON
/// for `generate_session_hash`; nothing for other clients.
pub fn session_user_id(body: &JsonValue, client_type: ClientType) -> (r: Option<String>)
    ensures
        match r {
            Some(u) => client_type == ClientType::CodeCli && metadata_user_id(*body) == Some(u@),
            None => client_type != ClientType::CodeCli || metadata_user_id(*body) is None,
        },
{
    if client_type != ClientType::CodeCli {
        return None;
    }
    match body.get("metadata") {
        Some(m) => match m.str_at("user_id") {
            Some(u) => Some(u.clone()),
            None => None,
        },
        None => None,
    }
}

/// The last position where `pattern` occurs in `s`.
fn find_last(s: &Vec<char>, pattern: &Vec<char>) -> (r: Option<usize>)
    ensures
        match r {
            Some(i) => is_last_occurrence(s@, pattern@, i as int),
            None => forall|j: int| !#[trigger] occurs_at(s@, pattern@, j),
        },
{
    if pattern.len() > s.len() {
        return None;
    }
    let mut i: usize = s.len() - pattern.len();
    loop
        invariant
            pattern.len() <= s.len(),
            i <= s.len() - pattern.len(),
            forall|j: int| i < j ==> !#[trigger] occurs_at(s@, pattern@, j),
        decreases i,
    {
        let mut k: usize = 0;
        let mut matched = true;
        while k < pattern.len()
            invariant
                i + pattern.len() <= s.len(),
                k <= pattern.len(),
                matched ==> forall|m: int| 0 <= m < k ==> s@[i + m] == pattern@[m],
                !matched ==> !occurs_at(s@, pattern@, i as int),
            decreases pattern.len() - k,
        {
            if matched && s[i + k] != pattern[k] {
                assert(s@.subrange(i as int, i + pattern.len())[k as int] != pattern@[k as int]);
                matched = false;
            }
            k = k + 1;
        }
        if matched {
            assert(s@.subrange(i as int, i + pattern.len()) =~= pattern@);
            return Some(i);
        }
        if i == 0 {
            assert forall|j: int| !#[trigger] occurs_at(s@, pattern@, j) by {
                if j == 0 {
                    assert(!occurs_at(s@, pattern@, 0));
                }
            }
            return None;
        }
        i = i - 1;
    }
}

/// The positions where a pattern last occurs are one and the same.
proof fn lemma_last_occurrence_unique(s: Seq<char>, pattern: Seq<char>, i: int, j: int)
    requires
        is_last_occurrence(s, pattern, i),
        is_last_occurrence(s, pattern, j),
    ensures
        i == j,
{
    if i < j {
        assert(!occurs_at(s, pattern, j));
    } else if j < i {
        assert(!occurs_at(s, pattern, i));
    }
}

/// The session id of a coding CLI request whose `metadata.user_id` is `user_id`,
/// read as JSON into `parsed` (nothing when it does not read).
pub fn cli_session_of(user_id: &str, parsed: &Option<JsonValue>) -> (r: Option<String>)
    ensures
        match r {
            Some(s) => cli_session(user_id@, *parsed) == Some(s@),
            None => cli_session(user_id@, *parsed) is None,
        },
{
    match parsed {
        Some(v) => match v.str_at("session_id") {
            Some(sid) => {
                if !sid.as_str().is_empty() {
                    return Some(sid.clone());
                }
            },
            None => {},
        },
        None => {},
    }
    let cs = chars_of(user_id);
    let marker = chars_of("_session_");
    proof {
        reveal_strlit("_session_");
        assert(marker@.len() == 9);
    }
    match find_last(&cs, &marker) {
        Some(i) => {
            proof {
                assert(is_last_occurrence(user_id@, session_marker(), i as int));
                assert(occurs_at(user_id@, session_marker(), i as int));
                assert(i + session_marker().len() <= user_id@.len());
                assert(session_marker().len() == 9);
                assert(i + 9 <= cs.len());
                let c = choose|c: int| is_last_occurrence(user_id@, session_marker(), c);
                lemma_last_occurrence_unique(user_id@, session_marker(), c, i as int);
            }
            Some(String::from_str(user_id.substring_char(i + 9, cs.len())))
        },
        None => None,
    }
}

/// The session hash of an API conversation within the hour window `hour`.
pub fn api_session_hash_of(user_agent: &str, content: &str, hour: &str) -> (r: String)
    ensures
        r@ == api_session_hash(user_agent@, content@, hour@),
        r@.len() == 32,
        forall|i: int| 0 <= i < r@.len() ==> is_lower_hex(#[trigger] r@[i]),
{
    let mut raw = String::from_str(user_agent);
    raw.append("|");
    raw.append(content);
    raw.append("|");
    raw.append(hour);
    let digest = sha256(raw.as_str().as_bytes());
    let mut head: Vec<u8> = Vec::new();
    let mut i: usize = 0;
    while i < 16
        invariant
            i <= 16,
            digest@.len() == 32,
            head@ == digest@.take(i as int),
        decreases 16 - i,
    {
        head.push(digest[i]);
        assert(digest@.take(i + 1) =~= digest@.take(i as int).push(digest@[i as int]));
        i = i + 1;
    }
    proof { lemma_hex_lower_len(head@); }
    hex_encode(head.as_slice())
}

/// The session hash of a request within the hour window `hour`. `parsed_user_id` is
/// the request's `metadata.user_id` (see `session_user_id`) read as JSON, or nothing
/// when there is none or it does not read.
pub fn session_hash_at(
    user_agent: &str,
    body: &JsonValue,
    client_type: ClientType,
    parsed_user_id: &Option<JsonValue>,
    hour: &str,
) -> (r: String)
    ensures
        r@ == session_hash_text(user_agent@, *body, client_type, *parsed_user_id, hour@),
        named_session(*body, client_type, *parsed_user_id) is None ==> r@.len() == 32
            && forall|i: int| 0 <= i < r@.len() ==> is_lower_hex(#[trigger] r@[i]),
        client_type != ClientType::CodeCli ==> r@.len() == 32,
{
    match session_user_id(body, client_type) {
        Some(u) => match cli_session_of(u.as_str(), parsed_user_id) {
            Some(s) => {
                return s;
            },
            None => {},
        },
        None => {},
    }
    let content = conversation_text_of(body);
    api_session_hash_of(user_agent, content.as_str(), hour)
}

/// The session hash of a request, within the current hour window.
/// `parsed_user_id` is the request's `metadata.user_id` (see `session_user_id`) read as
/// JSON, or nothing when there is none or it does not read.
pub fn generate_session_hash(
    user_agent: &str,
    body: &JsonValue,
    client_type: ClientType,
    parsed_user_id: &Option<JsonValue>,
) -> (r: String)
    ensures
        exists|now: UtcTime|
            in_chrono_range(now) && r@ == session_hash_text(
                user_agent@,
                *body,
                client_type,
                *parsed_user_id,
                #[trigger] hour_window(now),
            ),
        named_session(*body, client_type, *parsed_user_id) is None ==> r@.len() == 32
            && forall|i: int| 0 <= i < r@.len() ==> is_lower_hex(#[trigger] r@[i]),
        client_type != ClientType::CodeCli ==> r@.len() == 32,
{
    let now = utc_now();
    let hour = hour_window_of(&now);
    session_hash_at(user_agent, body, client_type, parsed_user_id, hour.as_str())
}

} // verus!

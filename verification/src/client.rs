use reqwest::header::{HeaderMap, HeaderName, HeaderValue};
use vstd::prelude::*;

verus! {

use crate::codec::{
    aes128_cbc_pkcs7,
    aes128_cbc_pkcs7_encrypt,
    base64_encode,
    base64_standard,
    json_quote,
    json_string_literal,
};
use crate::json::{json_object, json_object_text, keys_ascending};
use crate::text::{reverse_str, seq_lt};
use crate::models::SegmentDay;
use vstd::utf8::encode_utf8;

/// `reqwest::Client`, carried through the library unopened.
#[verifier::external_type_specification]
#[verifier::external_body]
pub struct ExHttpClient(reqwest::Client);

/// `reqwest::Client::clone`: the client is one `Arc` of its shared state, and
/// its derived `Clone` copies that `Arc`, so the clone is the same handle on
/// the same connection pool and cookie store.
pub assume_specification[ <reqwest::Client as Clone>::clone ](c: &reqwest::Client) -> (r:
    reqwest::Client)
    ensures
        r == *c,
;

/// A logged-in session with the booking service: the HTTP client that holds
/// the CAS cookies, the service's token and the user's id and name.
#[derive(Clone)]
pub struct ZjuClient {
    pub client: reqwest::Client,
    pub jwt: String,
    pub uid: String,
    pub name: String,
}

/// What a `ZjuClient` stands for in contracts: its HTTP client handle, its
/// token, user id and name.
pub struct ClientView {
    pub http: reqwest::Client,
    pub jwt: Seq<char>,
    pub uid: Seq<char>,
    pub name: Seq<char>,
}

impl View for ZjuClient {
    type V = ClientView;

    open spec fn view(&self) -> ClientView {
        ClientView { http: self.client, jwt: self.jwt@, uid: self.uid@, name: self.name@ }
    }
}

/// A POST request to the booking service with a JSON body.
pub struct JsonPost {
    pub url: String,
    pub body: String,
}

/// The reply of the booking service as the logic reads it: the `code` member
/// when it is an integer that fits `i64`, the text of the `msg` member as
/// `serde_json` displays it (`null` when absent), and `msg` when it is a string.
pub struct ApiReply {
    pub code: Option<i64>,
    pub msg_text: String,
    pub msg_str: Option<String>,
}

/// `reqwest::header::HeaderValue::from_str(s).is_ok()`: a header value is
/// accepted exactly when every byte is a tab or at least 32 and not 127.
#[verifier::external_body]
fn header_value_accepted(s: &str) -> (r: bool)
    ensures
        r == header_value_valid(s@),
{
    reqwest::header::HeaderValue::from_str(s).is_ok()
}

/// The characters whose UTF-8 bytes an HTTP header value accepts: the tab and
/// everything from the space upwards except DEL (every byte of a character
/// above U+007F is at least 0x80).
pub open spec fn header_value_valid(s: Seq<char>) -> bool {
    forall|i: int|
        0 <= i < s.len() ==> (s[i] == '\t' || ((s[i] as u32) >= 32 && (s[i] as u32) != 127))
}

/// `bearer` followed by the token, as the service expects it.
pub open spec fn bearer(jwt: Seq<char>) -> Seq<char> {
    "bearer"@ + jwt
}

/// The authorization header value: the bearer token, or `bearerINVALID` when
/// the token holds a character that a header value cannot carry.
pub open spec fn authorization_value(jwt: Seq<char>) -> Seq<char> {
    if header_value_valid(bearer(jwt)) {
        bearer(jwt)
    } else {
        "bearerINVALID"@
    }
}

/// The browser user agent that every request carries.
pub open spec fn user_agent_text() -> Seq<char> {
    "Mozilla/5.0 (Windows NT 10.0; Win64; x64) AppleWebKit/537.36 (KHTML, like Gecko) Chrome/145.0.0.0 Safari/537.36 Edg/145.0.0.0"@
}

/// The browser user agent that every request carries.
pub fn user_agent() -> (r: String)
    ensures
        r@ == user_agent_text(),
{
    string_of(
        "Mozilla/5.0 (Windows NT 10.0; Win64; x64) AppleWebKit/537.36 (KHTML, like Gecko) Chrome/145.0.0.0 Safari/537.36 Edg/145.0.0.0",
    )
}

/// `reqwest::header::HeaderMap`, whose contents `header_entries` describes.
#[verifier::external_type_specification]
#[verifier::external_body]
#[verifier::reject_recursive_types(T)]
pub struct ExHeaderMap<T>(HeaderMap<T>);

/// `reqwest::header::HeaderValue`, carried unopened.
#[verifier::external_type_specification]
#[verifier::external_body]
pub struct ExHeaderValue(HeaderValue);

/// What a header map holds: each header name (in lowercase) and its value's bytes.
pub uninterp spec fn header_entries(m: HeaderMap) -> Map<Seq<char>, Seq<u8>>;

/// A header name made of lowercase letters and `-`, which
/// `HeaderName::from_bytes` accepts and keeps as it is.
pub open spec fn header_name_token(name: Seq<char>) -> bool {
    &&& 0 < name.len() <= 64
    &&& forall|i: int| 0 <= i < name.len() ==> ('a' <= #[trigger] name[i] <= 'z' || name[i] == '-')
}

/// `HeaderMap::new`: an empty map.
#[verifier::external_body]
fn new_header_map() -> (r: HeaderMap)
    ensures
        header_entries(r).dom() == Set::<Seq<char>>::empty(),
{
    HeaderMap::new()
}

/// `HeaderMap::insert` with the name from `HeaderName::from_bytes` and the
/// value from `HeaderValue::from_str`: the name now maps to the value's bytes,
/// replacing what it held; the other names are kept. Both conversions succeed
/// on what `requires` admits, and the map holds far fewer entries than the
/// size at which `insert` panics.
#[verifier::external_body]
fn insert_header(m: &mut HeaderMap, name: &str, value: &str)
    requires
        header_name_token(name@),
        header_value_valid(value@),
        header_entries(*old(m)).dom().finite(),
        header_entries(*old(m)).dom().len() < 1024,
    ensures
        header_entries(*final(m)) == header_entries(*old(m)).insert(name@, encode_utf8(value@)),
{
    match (HeaderName::from_bytes(name.as_bytes()), HeaderValue::from_str(value)) {
        (Ok(n), Ok(v)) => {
            m.insert(n, v);
        },
        _ => {},
    }
}

/// The headers that every request to the booking service carries.
pub open spec fn zju_header_entries(jwt: Seq<char>) -> Map<Seq<char>, Seq<u8>> {
    Map::empty().insert("accept"@, encode_utf8("application/json, text/plain, */*"@)).insert(
        "content-type"@,
        encode_utf8("application/json"@),
    ).insert("origin"@, encode_utf8("https://booking.lib.zju.edu.cn"@)).insert(
        "referer"@,
        encode_utf8("https://booking.lib.zju.edu.cn/h5/index.html"@),
    ).insert("user-agent"@, encode_utf8(user_agent_text())).insert(
        "x-requested-with"@,
        encode_utf8("XMLHttpRequest"@),
    ).insert("lang"@, encode_utf8("zh"@)).insert(
        "authorization"@,
        encode_utf8(authorization_value(jwt)),
    )
}

/// Every request carries the session's token as `bearer<jwt>` in its
/// `authorization` header whenever each character of the token is a tab or
/// from the space upwards other than DEL, whatever the token's length; only a
/// token that a header value cannot carry is replaced by `bearerINVALID`.
pub proof fn law_authorization_header_carries_token(jwt: Seq<char>)
    ensures
        (forall|i: int|
            0 <= i < jwt.len() ==> (jwt[i] == '\t' || ((jwt[i] as u32) >= 32 && (jwt[i] as u32)
                != 127))) ==> zju_header_entries(jwt)["authorization"@] == encode_utf8(
            "bearer"@ + jwt,
        ),
        !(forall|i: int|
            0 <= i < jwt.len() ==> (jwt[i] == '\t' || ((jwt[i] as u32) >= 32 && (jwt[i] as u32)
                != 127))) ==> zju_header_entries(jwt)["authorization"@] == encode_utf8(
            "bearerINVALID"@,
        ),
{
    reveal_strlit("bearer");
    let b = "bearer"@ + jwt;
    let ok = forall|i: int|
        0 <= i < jwt.len() ==> (jwt[i] == '\t' || ((jwt[i] as u32) >= 32 && (jwt[i] as u32)
            != 127));
    if ok {
        assert forall|i: int| 0 <= i < b.len() implies (b[i] == '\t' || ((b[i] as u32) >= 32 && (
        b[i] as u32) != 127)) by {
            if i >= 6 {
                assert(b[i] == jwt[i - 6]);
            }
        }
        assert(header_value_valid(bearer(jwt)));
    } else {
        let k = choose|k: int|
            0 <= k < jwt.len() && !(jwt[k] == '\t' || ((jwt[k] as u32) >= 32 && (jwt[k] as u32)
                != 127));
        assert(b[k + 6] == jwt[k]);
        assert(!header_value_valid(bearer(jwt)));
    }
}

/// A JSON member whose value is a string.
pub open spec fn str_member(key: Seq<char>, value: Seq<char>) -> (Seq<char>, Seq<char>) {
    (key, json_string_literal(value))
}

/// The AES key of a day: the date's eight digits followed by the same
/// digits reversed.
pub open spec fn aes_key_text(date: Seq<char>) -> Seq<char> {
    date + date.reverse()
}

/// For a date of eight ASCII characters (such as `20240301`) the AES key is
/// sixteen bytes long, so encrypting on that day cannot fail, and it reads the
/// same backwards.
pub proof fn law_aes_key_of_ascii_date(date: Seq<char>)
    requires
        date.len() == 8,
        vstd::utf8::is_ascii_chars(date),
    ensures
        encode_utf8(aes_key_text(date)).len() == 16,
        aes_key_text(date).reverse() == aes_key_text(date),
{
    let key = aes_key_text(date);
    assert(vstd::utf8::is_ascii_chars(key)) by {
        assert forall|i: int| 0 <= i < key.len() implies '\0' <= #[trigger] key[i] <= '\u{7f}' by {
            if i < 8 {
                assert(key[i] == date[i]);
            } else {
                assert(key[i] == date[15 - i]);
            }
        }
    }
    vstd::utf8::is_ascii_chars_encode_utf8(key);
    assert(key.reverse() =~= key);
}

/// The message with which encrypting fails.
pub open spec fn aes_failure_text() -> Seq<char> {
    "AES 加密操作失败"@
}

/// Encrypting `payload` on day `date` can be done: the day's key is sixteen
/// bytes long and the payload's bytes fit in memory.
pub open spec fn aes_can_encrypt(date: Seq<char>, payload: Seq<char>) -> bool {
    encode_utf8(aes_key_text(date)).len() == 16 && encode_utf8(payload).len() <= isize::MAX
}

/// `r` is what encrypting `payload` on day `date` gives: its cipher text where
/// that can be done, else the failure message.
pub open spec fn aes_encrypt_result(r: Result<String, String>, date: Seq<char>, payload: Seq<
    char,
>) -> bool {
    match r {
        Ok(t) => aes_can_encrypt(date, payload) && t@ == aes_payload_cipher(date, payload)
            && aes_payload_bytes(date, payload).len() == padded_len(encode_utf8(payload).len()),
        Err(e) => !aes_can_encrypt(date, payload) && e@ == aes_failure_text(),
    }
}

/// The AES initialisation vector that the booking service uses.
pub open spec fn aes_iv_text() -> Seq<char> {
    "ZZWBKJ_ZHIHUAWEI"@
}

/// The AES-128-CBC ciphertext of `payload`'s UTF-8 bytes on day `date`, after
/// PKCS#7 padding, under the day's key and the fixed IV.
pub open spec fn aes_payload_bytes(date: Seq<char>, payload: Seq<char>) -> Seq<u8> {
    aes128_cbc_pkcs7(encode_utf8(aes_key_text(date)), encode_utf8(aes_iv_text()), encode_utf8(payload))
}

/// The `aesjson` text for `payload` on day `date`: its AES ciphertext in
/// standard base64.
pub open spec fn aes_payload_cipher(date: Seq<char>, payload: Seq<char>) -> Seq<char> {
    base64_standard(aes_payload_bytes(date, payload))
}

/// PKCS#7 pads a plaintext to the next whole block of sixteen bytes, adding a
/// full block where it already ends on one: the length of the ciphertext.
pub open spec fn padded_len(n: nat) -> nat {
    (n / 16 + 1) * 16
}

/// The JSON text of the booking payload that `confirm_booking` encrypts.
pub open spec fn booking_payload(seat_id: Seq<char>, segment_id: Seq<char>) -> Seq<char> {
    json_object(seq![str_member("seat_id"@, seat_id), str_member("segment"@, segment_id)])
}

/// `r` is the booking request for seat `seat_id` in segment `segment_id` on
/// day `date` by the user with token `jwt`: the encrypted payload as `aesjson`
/// beside the bearer token, where the payload can be encrypted on that day,
/// else the failure message.
pub open spec fn confirm_request_result(
    r: Result<JsonPost, String>,
    jwt: Seq<char>,
    date: Seq<char>,
    seat_id: Seq<char>,
    segment_id: Seq<char>,
) -> bool {
    let payload = booking_payload(seat_id, segment_id);
    match r {
        Ok(req) => aes_can_encrypt(date, payload) && req.url@
            == "https://booking.lib.zju.edu.cn/api/Seat/confirm"@ && req.body@ == json_object(
            seq![
                str_member("aesjson"@, aes_payload_cipher(date, payload)),
                str_member("authorization"@, bearer(jwt)),
            ],
        ),
        Err(e) => !aes_can_encrypt(date, payload) && e@ == aes_failure_text(),
    }
}

fn string_of(s: &str) -> (r: String)
    ensures
        r@ == s@,
{
    s.to_owned()
}

fn str_pair(key: &str, value: &str) -> (r: (String, String))
    ensures
        r.0@ == key@,
        r.1@ == json_string_literal(value@),
{
    (string_of(key), json_quote(value))
}

fn concat2(a: &str, b: &str) -> (r: String)
    ensures
        r@ == a@ + b@,
{
    let mut r = string_of(a);
    r.append(b);
    r
}

/// Two members whose keys ascend in character order.
proof fn lemma_keys_ascend2(k0: &str, k1: &str, f: Seq<(Seq<char>, Seq<char>)>)
    requires
        f.len() == 2,
        f[0].0 == k0@,
        f[1].0 == k1@,
        seq_lt(k0@, k1@),
    ensures
        keys_ascending(f),
{
}

/// Six members whose keys ascend in character order.
proof fn lemma_keys_ascend6(
    k0: &str,
    k1: &str,
    k2: &str,
    k3: &str,
    k4: &str,
    k5: &str,
    f: Seq<(Seq<char>, Seq<char>)>,
)
    requires
        f.len() == 6,
        f[0].0 == k0@,
        f[1].0 == k1@,
        f[2].0 == k2@,
        f[3].0 == k3@,
        f[4].0 == k4@,
        f[5].0 == k5@,
        seq_lt(k0@, k1@),
        seq_lt(k1@, k2@),
        seq_lt(k2@, k3@),
        seq_lt(k3@, k4@),
        seq_lt(k4@, k5@),
    ensures
        keys_ascending(f),
{
}

/// Five members whose keys ascend in character order.
proof fn lemma_keys_ascend5(
    k0: &str,
    k1: &str,
    k2: &str,
    k3: &str,
    k4: &str,
    f: Seq<(Seq<char>, Seq<char>)>,
)
    requires
        f.len() == 5,
        f[0].0 == k0@,
        f[1].0 == k1@,
        f[2].0 == k2@,
        f[3].0 == k3@,
        f[4].0 == k4@,
        seq_lt(k0@, k1@),
        seq_lt(k1@, k2@),
        seq_lt(k2@, k3@),
        seq_lt(k3@, k4@),
    ensures
        keys_ascending(f),
{
}

impl ZjuClient {
    /// The bearer token text `bearer<jwt>`.
    pub fn bearer_text(&self) -> (r: String)
        ensures
            r@ == bearer(self.jwt@),
    {
        concat2("bearer", self.jwt.as_str())
    }

    /// The headers of every request to the booking service.
    pub fn get_headers(&self) -> (r: HeaderMap)
        ensures
            header_entries(r) == zju_header_entries(self.jwt@),
    {
        let mut h = new_header_map();
        let auth = self.bearer_text();
        let value = if header_value_accepted(auth.as_str()) {
            auth
        } else {
            proof {
                reveal_strlit("bearerINVALID");
            }
            string_of("bearerINVALID")
        };
        proof {
            reveal_strlit("accept");
            reveal_strlit("application/json, text/plain, */*");
            reveal_strlit("content-type");
            reveal_strlit("application/json");
            reveal_strlit("origin");
            reveal_strlit("https://booking.lib.zju.edu.cn");
            reveal_strlit("referer");
            reveal_strlit("https://booking.lib.zju.edu.cn/h5/index.html");
            reveal_strlit("user-agent");
            reveal_strlit(
                "Mozilla/5.0 (Windows NT 10.0; Win64; x64) AppleWebKit/537.36 (KHTML, like Gecko) Chrome/145.0.0.0 Safari/537.36 Edg/145.0.0.0",
            );
            reveal_strlit("x-requested-with");
            reveal_strlit("XMLHttpRequest");
            reveal_strlit("lang");
            reveal_strlit("zh");
            reveal_strlit("authorization");
        }
        insert_header(&mut h, "accept", "application/json, text/plain, */*");
        insert_header(&mut h, "content-type", "application/json");
        insert_header(&mut h, "origin", "https://booking.lib.zju.edu.cn");
        insert_header(&mut h, "referer", "https://booking.lib.zju.edu.cn/h5/index.html");
        let ua = user_agent();
        insert_header(&mut h, "user-agent", ua.as_str());
        insert_header(&mut h, "x-requested-with", "XMLHttpRequest");
        insert_header(&mut h, "lang", "zh");
        insert_header(&mut h, "authorization", value.as_str());
        h
    }

    /// The request for the overview of bookable dates and places on `date`.
    pub fn quick_select_request(&self, date: &str) -> (r: JsonPost)
        ensures
            r.url@ == "https://booking.lib.zju.edu.cn/reserve/index/quickSelect"@,
            r.body@ == json_object(
                seq![
                    str_member("authorization"@, bearer(self.jwt@)),
                    ("categoryIds"@, "[\"1\"]"@),
                    str_member("date"@, date@),
                    str_member("id"@, "1"@),
                    ("members"@, "0"@),
                ],
            ),
    {
        let bearer_s = self.bearer_text();
        let mut f: Vec<(String, String)> = Vec::new();
        f.push(str_pair("authorization", bearer_s.as_str()));
        f.push((string_of("categoryIds"), string_of("[\"1\"]")));
        f.push(str_pair("date", date));
        f.push(str_pair("id", "1"));
        f.push((string_of("members"), string_of("0")));
        assert(f.deep_view() =~= seq![
            str_member("authorization"@, bearer(self.jwt@)),
            ("categoryIds"@, "[\"1\"]"@),
            str_member("date"@, date@),
            str_member("id"@, "1"@),
            ("members"@, "0"@),
        ]);
        proof {
            reveal_strlit("authorization");
            reveal_strlit("categoryIds");
            reveal_strlit("date");
            reveal_strlit("id");
            reveal_strlit("members");
            reveal_with_fuel(seq_lt, 4);
            lemma_keys_ascend5("authorization", "categoryIds", "date", "id", "members", f.deep_view());
        }
        let body = json_object_text(&f);
        JsonPost { url: string_of("https://booking.lib.zju.edu.cn/reserve/index/quickSelect"), body }
    }

    /// The request for the time segments of area `area_id`.
    pub fn segment_request(&self, area_id: &str) -> (r: JsonPost)
        ensures
            r.url@ == "https://booking.lib.zju.edu.cn/api/Seat/date"@,
            r.body@ == json_object(
                seq![
                    str_member("authorization"@, bearer(self.jwt@)),
                    str_member("build_id"@, area_id@),
                ],
            ),
    {
        let bearer_s = self.bearer_text();
        let mut f: Vec<(String, String)> = Vec::new();
        f.push(str_pair("authorization", bearer_s.as_str()));
        f.push(str_pair("build_id", area_id));
        assert(f.deep_view() =~= seq![
            str_member("authorization"@, bearer(self.jwt@)),
            str_member("build_id"@, area_id@),
        ]);
        proof {
            reveal_strlit("authorization");
            reveal_strlit("build_id");
            reveal_with_fuel(seq_lt, 4);
            lemma_keys_ascend2("authorization", "build_id", f.deep_view());
        }
        let body = json_object_text(&f);
        JsonPost { url: string_of("https://booking.lib.zju.edu.cn/api/Seat/date"), body }
    }

    /// The request for the seats of `area_id` in segment `segment_id` on
    /// `date` between `start` and `end`.
    pub fn free_seats_request(
        &self,
        area_id: &str,
        segment_id: &str,
        date: &str,
        start: &str,
        end: &str,
    ) -> (r: JsonPost)
        ensures
            r.url@ == "https://booking.lib.zju.edu.cn/api/Seat/seat"@,
            r.body@ == json_object(
                seq![
                    str_member("area"@, area_id@),
                    str_member("authorization"@, bearer(self.jwt@)),
                    str_member("day"@, date@),
                    str_member("endTime"@, end@),
                    str_member("segment"@, segment_id@),
                    str_member("startTime"@, start@),
                ],
            ),
    {
        let bearer_s = self.bearer_text();
        let mut f: Vec<(String, String)> = Vec::new();
        f.push(str_pair("area", area_id));
        f.push(str_pair("authorization", bearer_s.as_str()));
        f.push(str_pair("day", date));
        f.push(str_pair("endTime", end));
        f.push(str_pair("segment", segment_id));
        f.push(str_pair("startTime", start));
        assert(f.deep_view() =~= seq![
            str_member("area"@, area_id@),
            str_member("authorization"@, bearer(self.jwt@)),
            str_member("day"@, date@),
            str_member("endTime"@, end@),
            str_member("segment"@, segment_id@),
            str_member("startTime"@, start@),
        ]);
        proof {
            reveal_strlit("area");
            reveal_strlit("authorization");
            reveal_strlit("day");
            reveal_strlit("endTime");
            reveal_strlit("segment");
            reveal_strlit("startTime");
            reveal_with_fuel(seq_lt, 4);
            lemma_keys_ascend6("area", "authorization", "day", "endTime", "segment", "startTime", f.deep_view());
        }
        let body = json_object_text(&f);
        JsonPost { url: string_of("https://booking.lib.zju.edu.cn/api/Seat/seat"), body }
    }

    /// The request for the user's reservations.
    pub fn subscriptions_request(&self) -> (r: JsonPost)
        ensures
            r.url@ == "https://booking.lib.zju.edu.cn/api/index/subscribe"@,
            r.body@ == json_object(seq![str_member("authorization"@, bearer(self.jwt@))]),
    {
        let bearer_s = self.bearer_text();
        let mut f: Vec<(String, String)> = Vec::new();
        f.push(str_pair("authorization", bearer_s.as_str()));
        let body = json_object_text(&f);
        assert(f.deep_view() =~= seq![str_member("authorization"@, bearer(self.jwt@))]);
        JsonPost { url: string_of("https://booking.lib.zju.edu.cn/api/index/subscribe"), body }
    }

    /// The request that cancels reservation `record_id`.
    pub fn cancel_booking_request(&self, record_id: &str) -> (r: JsonPost)
        ensures
            r.url@ == "https://booking.lib.zju.edu.cn/api/Space/cancel"@,
            r.body@ == json_object(
                seq![
                    str_member("authorization"@, bearer(self.jwt@)),
                    str_member("id"@, record_id@),
                ],
            ),
    {
        let bearer_s = self.bearer_text();
        let mut f: Vec<(String, String)> = Vec::new();
        f.push(str_pair("authorization", bearer_s.as_str()));
        f.push(str_pair("id", record_id));
        assert(f.deep_view() =~= seq![
            str_member("authorization"@, bearer(self.jwt@)),
            str_member("id"@, record_id@),
        ]);
        proof {
            reveal_strlit("authorization");
            reveal_strlit("id");
            reveal_with_fuel(seq_lt, 4);
            lemma_keys_ascend2("authorization", "id", f.deep_view());
        }
        let body = json_object_text(&f);
        JsonPost { url: string_of("https://booking.lib.zju.edu.cn/api/Space/cancel"), body }
    }
}


impl ZjuClient {
    /// Encrypts `payload` for the booking service on day `date`: AES-128-CBC
    /// with PKCS#7 padding under the key `date` + reversed `date` and the fixed
    /// IV, in standard base64. The key must be 16 bytes long (an eight-digit
    /// date); building a cipher from another length panics.
    pub fn aes_encrypt_on(&self, date: &str, payload: &str) -> (r: String)
        requires
            encode_utf8(aes_key_text(date@)).len() == 16,
            encode_utf8(payload@).len() <= isize::MAX,
        ensures
            r@ == aes_payload_cipher(date@, payload@) && aes_payload_bytes(date@, payload@).len()
                == padded_len(encode_utf8(payload@).len()),
            r@.len() == 4 * ((padded_len(encode_utf8(payload@).len()) + 2) / 3),
    {
        let rev = reverse_str(date);
        let key = concat2(date, rev.as_str());
        let iv = "ZZWBKJ_ZHIHUAWEI";
        let kb = key.as_str().as_bytes();
        let ivb = iv.as_bytes();
        let pb = payload.as_bytes();
        proof {
            reveal_strlit("ZZWBKJ_ZHIHUAWEI");
            assert(ivb@.len() == 16) by {
                broadcast use vstd::string::is_ascii_spec_bytes;

                assert(vstd::string::is_ascii(iv));
            }
        }
        let ct = aes128_cbc_pkcs7_encrypt(kb, ivb, pb);
        proof {
            let n = pb@.len();
            let c = ct@.len();
            assert(c <= n + 16) by (nonlinear_arith)
                requires
                    c == (n / 16 + 1) * 16,
            ;
            assert(4 * ((c + 2) / 3) <= usize::MAX) by (nonlinear_arith)
                requires
                    c <= n + 16,
                    n <= isize::MAX,
            ;
        }
        base64_encode(ct.as_slice())
    }

    /// Encrypts `payload` under the key of day `date` (today's local date as
    /// `%Y%m%d`, which the caller reads from the clock), as `aes_encrypt_on`
    /// does. Fails with the failure message where the day's key is not sixteen
    /// bytes long (a date that is not eight ASCII characters) or the payload is
    /// too long.
    pub fn aes_encrypt(&self, date: &str, payload: &str) -> (r: Result<String, String>)
        ensures
            aes_encrypt_result(r, date@, payload@),
    {
        let rev = reverse_str(date);
        let key = concat2(date, rev.as_str());
        let kb = key.as_str().as_bytes();
        let pb = payload.as_bytes();
        if kb.len() == 16 && pb.len() <= usize::MAX / 2 {
            Ok(self.aes_encrypt_on(date, payload))
        } else {
            Err(string_of("AES 加密操作失败"))
        }
    }

    /// The booking request for seat `seat_id` in segment `segment_id` on day
    /// `date` (today's local date as `%Y%m%d`): the payload
    /// `{"seat_id":..,"segment":..}` encrypted as `aesjson`, next to the bearer
    /// token. Fails where `aes_encrypt` fails.
    pub fn confirm_booking_request(&self, date: &str, seat_id: &str, segment_id: &str) -> (r:
        Result<JsonPost, String>)
        ensures
            confirm_request_result(r, self.jwt@, date@, seat_id@, segment_id@),
    {
        let payload = self.booking_payload_text(seat_id, segment_id);
        let aesjson = match self.aes_encrypt(date, payload.as_str()) {
            Ok(t) => t,
            Err(e) => {
                return Err(e);
            },
        };
        let bearer_s = self.bearer_text();
        let mut f: Vec<(String, String)> = Vec::new();
        f.push(str_pair("aesjson", aesjson.as_str()));
        f.push(str_pair("authorization", bearer_s.as_str()));
        assert(f.deep_view() =~= seq![
            str_member(
                "aesjson"@,
                aes_payload_cipher(date@, booking_payload(seat_id@, segment_id@)),
            ),
            str_member("authorization"@, bearer(self.jwt@)),
        ]);
        proof {
            reveal_strlit("aesjson");
            reveal_strlit("authorization");
            reveal_with_fuel(seq_lt, 4);
            lemma_keys_ascend2("aesjson", "authorization", f.deep_view());
        }
        let body = json_object_text(&f);
        Ok(JsonPost { url: string_of("https://booking.lib.zju.edu.cn/api/Seat/confirm"), body })
    }

    /// The JSON text of the booking payload.
    pub fn booking_payload_text(&self, seat_id: &str, segment_id: &str) -> (r: String)
        ensures
            r@ == booking_payload(seat_id@, segment_id@),
    {
        let mut f: Vec<(String, String)> = Vec::new();
        f.push(str_pair("seat_id", seat_id));
        f.push(str_pair("segment", segment_id));
        assert(f.deep_view() =~= seq![
            str_member("seat_id"@, seat_id@),
            str_member("segment"@, segment_id@),
        ]);
        proof {
            reveal_strlit("seat_id");
            reveal_strlit("segment");
            reveal_with_fuel(seq_lt, 4);
            lemma_keys_ascend2("seat_id", "segment", f.deep_view());
        }
        json_object_text(&f)
    }
}


/// `Ok` when the reply's code is `expected`, else the failure text followed by
/// the reply's message.
pub open spec fn status_spec(reply_code: Option<i64>, msg: Seq<char>, expected: i64, failure: Seq<char>) -> Result<(), Seq<char>> {
    if reply_code == Some(expected) {
        Ok(())
    } else {
        Err(failure + msg)
    }
}

impl ApiReply {
    fn status(&self, expected: i64, failure: &str) -> (r: Result<(), String>)
        ensures
            r is Ok <==> self.code == Some(expected),
            r matches Err(e) ==> e@ == failure@ + self.msg_text@,
    {
        match self.code {
            Some(c) => {
                if c == expected {
                    return Ok(());
                }
            },
            None => {},
        }
        Err(concat2(failure, self.msg_text.as_str()))
    }

    /// The reply to the place overview: accepted when its code is 0.
    pub fn quick_select_status(&self) -> (r: Result<(), String>)
        ensures
            r is Ok <==> self.code == Some(0i64),
            r matches Err(e) ==> e@ == "获取区域总览失败: "@ + self.msg_text@,
    {
        self.status(0, "获取区域总览失败: ")
    }

    /// The reply to the segment query: accepted when its code is 1.
    pub fn segment_status(&self) -> (r: Result<(), String>)
        ensures
            r is Ok <==> self.code == Some(1i64),
            r matches Err(e) ==> e@ == "获取时间段失败: "@ + self.msg_text@,
    {
        self.status(1, "获取时间段失败: ")
    }

    /// The reply to the seat query: accepted when its code is 1.
    pub fn free_seats_status(&self) -> (r: Result<(), String>)
        ensures
            r is Ok <==> self.code == Some(1i64),
            r matches Err(e) ==> e@ == "获取具体座位失败: "@ + self.msg_text@,
    {
        self.status(1, "获取具体座位失败: ")
    }

    /// The reply to the reservation listing: accepted when its code is 1.
    pub fn subscriptions_status(&self) -> (r: Result<(), String>)
        ensures
            r is Ok <==> self.code == Some(1i64),
            r matches Err(e) ==> e@ == "获取预约列表失败: "@ + self.msg_text@,
    {
        self.status(1, "获取预约列表失败: ")
    }

    /// The reply to a booking: with code 1 the service's message when it is a
    /// string, else `成功`; otherwise a failure with the message.
    pub fn confirm_outcome(&self) -> (r: Result<String, String>)
        ensures
            r is Ok <==> self.code == Some(1i64),
            r matches Ok(m) ==> m@ == (match self.msg_str {
                Some(s) => s@,
                None => "成功"@,
            }),
            r matches Err(e) ==> e@ == "预约失败: "@ + self.msg_text@,
    {
        match self.status(1, "预约失败: ") {
            Ok(()) => match &self.msg_str {
                Some(s) => Ok(string_of(s.as_str())),
                None => Ok(string_of("成功")),
            },
            Err(e) => Err(e),
        }
    }

    /// The reply to a cancellation: with code 1 `取消预约成功`, otherwise a
    /// failure with the message.
    pub fn cancel_outcome(&self) -> (r: Result<String, String>)
        ensures
            r is Ok <==> self.code == Some(1i64),
            r matches Ok(m) ==> m@ == "取消预约成功"@,
            r matches Err(e) ==> e@ == "取消预约失败: "@ + self.msg_text@,
    {
        match self.status(1, "取消预约失败: ") {
            Ok(()) => Ok(string_of("取消预约成功")),
            Err(e) => Err(e),
        }
    }
}

/// The message when no segment day matches the target date.
pub open spec fn missing_day_message(target: Seq<char>) -> Seq<char> {
    "未找到指定日期 ("@ + target + ") 的开放时间段"@
}

/// Picks the first day whose `day` is `target_date` from the days that the
/// segment query returned; fails with a message naming the date when none
/// matches.
pub fn find_segment_day(days: Vec<SegmentDay>, target_date: &str) -> (r: Result<SegmentDay, String>)
    ensures
        r matches Ok(d) ==> exists|i: int|
            0 <= i < days@.len() && days@[i] == d && d.day@ == target_date@ && forall|j: int|
                0 <= j < i ==> days@[j].day@ != target_date@,
        r is Err <==> forall|j: int| 0 <= j < days@.len() ==> days@[j].day@ != target_date@,
        r matches Err(e) ==> e@ == missing_day_message(target_date@),
{
    let ghost orig = days@;
    let mut v = days;
    let target = string_of(target_date);
    let mut i: usize = 0;
    while i < v.len()
        invariant
            v@ == orig,
            orig == days@,
            target@ == target_date@,
            i <= v@.len(),
            forall|j: int| 0 <= j < i ==> v@[j].day@ != target_date@,
        decreases v@.len() - i,
    {
        if v[i].day == target {
            let d = v.remove(i);
            assert(orig[i as int] == d);
            assert(orig[i as int].day@ == target_date@);
            return Ok(d);
        }
        i = i + 1;
    }
    let mut msg = string_of("未找到指定日期 (");
    msg.append(target_date);
    msg.append(") 的开放时间段");
    Err(msg)
}

} // verus!

use zju_booking::client::{find_segment_day, ApiReply, ZjuClient};
use zju_booking::json::json_object_text;
use zju_booking::models::{FlexNum, SegmentDay, SegmentTime};

fn client(jwt: &str) -> ZjuClient {
    ZjuClient {
        client: reqwest::Client::new(),
        jwt: jwt.to_string(),
        uid: "u1".to_string(),
        name: "Alice".to_string(),
    }
}

fn reply(code: Option<i64>, msg_text: &str, msg_str: Option<&str>) -> ApiReply {
    ApiReply { code, msg_text: msg_text.to_string(), msg_str: msg_str.map(|s| s.to_string()) }
}

#[test]
fn flexnum_default_is_zero() {
    assert!(matches!(FlexNum::default(), FlexNum::Num(0)));
}

fn header(h: &reqwest::header::HeaderMap, name: &str) -> Vec<u8> {
    h.get(name).unwrap().as_bytes().to_vec()
}

#[test]
fn headers_carry_bearer_token() {
    let h = client("abc").get_headers();
    assert_eq!(h.len(), 8);
    assert_eq!(header(&h, "accept"), b"application/json, text/plain, */*".to_vec());
    assert_eq!(header(&h, "content-type"), b"application/json".to_vec());
    assert_eq!(header(&h, "origin"), b"https://booking.lib.zju.edu.cn".to_vec());
    assert_eq!(header(&h, "referer"), b"https://booking.lib.zju.edu.cn/h5/index.html".to_vec());
    assert!(header(&h, "user-agent").starts_with(b"Mozilla/5.0 (Windows NT 10.0; Win64; x64)"));
    assert_eq!(header(&h, "X-Requested-With"), b"XMLHttpRequest".to_vec());
    assert_eq!(header(&h, "lang"), b"zh".to_vec());
    assert_eq!(header(&h, "authorization"), b"bearerabc".to_vec());
}

#[test]
fn headers_replace_invalid_token() {
    let h = client("a\nb").get_headers();
    assert_eq!(header(&h, "authorization"), b"bearerINVALID".to_vec());
    let h = client("a\u{7f}").get_headers();
    assert_eq!(header(&h, "authorization"), b"bearerINVALID".to_vec());
    let h = client("a\tb é").get_headers();
    assert_eq!(header(&h, "authorization"), "bearera\tb é".as_bytes().to_vec());
}

#[test]
fn json_object_escapes_keys_and_keeps_values() {
    let fields = vec![
        ("a".to_string(), "\"x\"".to_string()),
        ("q\"k".to_string(), "[1]".to_string()),
    ];
    assert_eq!(json_object_text(&fields), "{\"a\":\"x\",\"q\\\"k\":[1]}");
    assert_eq!(json_object_text(&vec![]), "{}");
}

#[test]
fn quick_select_request_body() {
    let r = client("J").quick_select_request("2024-03-01");
    assert_eq!(r.url, "https://booking.lib.zju.edu.cn/reserve/index/quickSelect");
    assert_eq!(
        r.body,
        "{\"authorization\":\"bearerJ\",\"categoryIds\":[\"1\"],\"date\":\"2024-03-01\",\"id\":\"1\",\"members\":0}"
    );
    let v: serde_json::Value = serde_json::from_str(&r.body).unwrap();
    assert_eq!(v["members"], 0);
}

#[test]
fn segment_and_seat_request_bodies() {
    let c = client("J");
    let r = c.segment_request("12");
    assert_eq!(r.url, "https://booking.lib.zju.edu.cn/api/Seat/date");
    assert_eq!(r.body, "{\"authorization\":\"bearerJ\",\"build_id\":\"12\"}");
    let r = c.free_seats_request("12", "77", "2024-03-01", "08:00", "22:00");
    assert_eq!(r.url, "https://booking.lib.zju.edu.cn/api/Seat/seat");
    assert_eq!(
        r.body,
        "{\"area\":\"12\",\"authorization\":\"bearerJ\",\"day\":\"2024-03-01\",\"endTime\":\"22:00\",\"segment\":\"77\",\"startTime\":\"08:00\"}"
    );
    let r = c.subscriptions_request();
    assert_eq!(r.url, "https://booking.lib.zju.edu.cn/api/index/subscribe");
    assert_eq!(r.body, "{\"authorization\":\"bearerJ\"}");
    let r = c.cancel_booking_request("99");
    assert_eq!(r.url, "https://booking.lib.zju.edu.cn/api/Space/cancel");
    assert_eq!(r.body, "{\"authorization\":\"bearerJ\",\"id\":\"99\"}");
}

#[test]
fn request_bodies_escape_like_serde_json() {
    let c = client("j\"w\\t");
    let r = c.segment_request("a\u{1}b\n");
    let v: serde_json::Value = serde_json::from_str(&r.body).unwrap();
    assert_eq!(v["authorization"], "bearerj\"w\\t");
    assert_eq!(v["build_id"], "a\u{1}b\n");
    let mut m = serde_json::Map::new();
    m.insert("authorization".to_string(), serde_json::Value::String("bearerj\"w\\t".to_string()));
    m.insert("build_id".to_string(), serde_json::Value::String("a\u{1}b\n".to_string()));
    assert_eq!(r.body, serde_json::to_string(&serde_json::Value::Object(m)).unwrap());
}

#[test]
fn booking_payload_is_sorted_json() {
    let c = client("J");
    assert_eq!(c.booking_payload_text("123", "456"), "{\"seat_id\":\"123\",\"segment\":\"456\"}");
}

#[test]
fn aes_encrypt_on_known_day() {
    let c = client("J");
    let t = c.aes_encrypt_on("20240301", "{\"seat_id\":\"123\",\"segment\":\"456\"}");
    assert_eq!(t, "Uk23T2i9z/KOQr3d8x/3fugqG42HjyXuMoJkxEMXBGZvu+QKtgJbqvR9qhostw7S");
}

#[test]
fn aes_encrypt_known_day() {
    let c = client("J");
    let t = c.aes_encrypt("20240301", "{\"seat_id\":\"123\",\"segment\":\"456\"}");
    assert_eq!(t, Ok("Uk23T2i9z/KOQr3d8x/3fugqG42HjyXuMoJkxEMXBGZvu+QKtgJbqvR9qhostw7S".to_string()));
    // 36 payload bytes pad to 48 cipher bytes, which base64 writes in 64 characters.
    assert_eq!(t.unwrap().len(), 64);
}

#[test]
fn aes_encrypt_rejects_short_and_long_dates() {
    let c = client("J");
    assert_eq!(c.aes_encrypt("2024031", "{}"), Err("AES 加密操作失败".to_string()));
    assert_eq!(c.aes_encrypt("+102400301", "{}"), Err("AES 加密操作失败".to_string()));
    assert_eq!(c.aes_encrypt("2024年0301", "{}"), Err("AES 加密操作失败".to_string()));
}

#[test]
fn confirm_request_on_known_day() {
    let r = client("J").confirm_booking_request("20240301", "123", "456").unwrap();
    assert_eq!(r.url, "https://booking.lib.zju.edu.cn/api/Seat/confirm");
    assert_eq!(
        r.body,
        "{\"aesjson\":\"Uk23T2i9z/KOQr3d8x/3fugqG42HjyXuMoJkxEMXBGZvu+QKtgJbqvR9qhostw7S\",\"authorization\":\"bearerJ\"}"
    );
    let v: serde_json::Value = serde_json::from_str(&r.body).unwrap();
    assert_eq!(v["aesjson"].as_str().unwrap().len(), 64);
}

#[test]
fn confirm_request_fails_on_bad_date() {
    let r = client("J").confirm_booking_request("2024-03-01", "123", "456");
    assert_eq!(r.err(), Some("AES 加密操作失败".to_string()));
}

#[test]
fn reply_statuses() {
    assert!(reply(Some(0), "\"ok\"", Some("ok")).quick_select_status().is_ok());
    assert_eq!(
        reply(Some(1), "\"no\"", Some("no")).quick_select_status(),
        Err("获取区域总览失败: \"no\"".to_string())
    );
    assert!(reply(Some(1), "null", None).segment_status().is_ok());
    assert_eq!(reply(None, "null", None).segment_status(), Err("获取时间段失败: null".to_string()));
    assert_eq!(
        reply(Some(0), "\"x\"", Some("x")).free_seats_status(),
        Err("获取具体座位失败: \"x\"".to_string())
    );
    assert_eq!(
        reply(Some(2), "3", None).subscriptions_status(),
        Err("获取预约列表失败: 3".to_string())
    );
}

#[test]
fn confirm_and_cancel_outcomes() {
    assert_eq!(reply(Some(1), "\"预约成功\"", Some("预约成功")).confirm_outcome(), Ok("预约成功".to_string()));
    assert_eq!(reply(Some(1), "null", None).confirm_outcome(), Ok("成功".to_string()));
    assert_eq!(
        reply(Some(0), "\"已被预约\"", Some("已被预约")).confirm_outcome(),
        Err("预约失败: \"已被预约\"".to_string())
    );
    assert_eq!(reply(Some(1), "null", None).cancel_outcome(), Ok("取消预约成功".to_string()));
    assert_eq!(
        reply(Some(0), "\"err\"", Some("err")).cancel_outcome(),
        Err("取消预约失败: \"err\"".to_string())
    );
}

fn day(d: &str, first_id: &str) -> SegmentDay {
    SegmentDay {
        day: d.to_string(),
        times: vec![SegmentTime { id: first_id.to_string(), start: "08:00".to_string(), end: "22:00".to_string() }],
    }
}

#[test]
fn finds_segment_day() {
    let days = vec![day("2024-03-01", "a"), day("2024-03-02", "b"), day("2024-03-02", "c")];
    let d = find_segment_day(days, "2024-03-02").unwrap();
    assert_eq!(d.times[0].id, "b");
    let days = vec![day("2024-03-01", "a")];
    match find_segment_day(days, "2024-03-05") {
        Err(e) => assert_eq!(e, "未找到指定日期 (2024-03-05) 的开放时间段"),
        Ok(_) => panic!("found a day that is not there"),
    }
}

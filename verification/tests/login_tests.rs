use zju_booking::login::{cas_token_exec, execution_exec, LoginAction, LoginEvent, LoginFlow, LoginStage};
use zju_booking::rsa::{encrypt_password, is_hex_number, is_valid_modulus};

fn padded(hex: &str) -> String {
    format!("{:0>128}", hex)
}

#[test]
fn hex_numbers_follow_num_bigint() {
    for (s, ok) in [("ff", true), ("+ff", true), ("++1", false), ("+", false), ("", false), ("_1", false), ("1_f", true), ("xyz", false), ("10001", true), ("AbC", true), ("1 2", false)] {
        assert_eq!(is_hex_number(s), ok, "{}", s);
        assert_eq!(is_hex_number(s), num_bigint::BigUint::parse_bytes(s.as_bytes(), 16).is_some(), "{}", s);
    }
    assert!(is_valid_modulus("ff"));
    assert!(!is_valid_modulus("0"));
    assert!(!is_valid_modulus("0_0"));
    assert!(!is_valid_modulus("g"));
}

#[test]
fn password_is_rsa_encrypted_and_padded() {
    // 'a' = 97; 97^3 mod 255 = 28 = 0x1c; mod 256 = 33 = 0x21
    assert_eq!(encrypt_password("a", "3", "ff"), padded("1c"));
    assert_eq!(encrypt_password("a", "3", "100"), padded("21"));
    assert_eq!(encrypt_password("a", "0", "ff"), padded("1"));
    assert_eq!(encrypt_password("a", "3", "1"), padded("0"));
    assert_eq!(encrypt_password("a", "0", "1"), padded("0"));
    assert_eq!(encrypt_password("a", "1", &"f".repeat(140)), padded("61"));
    let long = encrypt_password(&"a".repeat(70), "1", &"f".repeat(141));
    assert_eq!(long, "61".repeat(70));
}

#[test]
fn extracts_execution_value() {
    let page = "<form><input type=\"hidden\" name=\"execution\" value=\"e1s1-abc\"/><input name=\"_eventId\"></form>";
    assert_eq!(execution_exec(page), Some("e1s1-abc".to_string()));
    assert_eq!(execution_exec("<form>no execution here</form>"), None);
    assert_eq!(execution_exec("name=\"execution\" value=\""), Some(String::new()));
}

#[test]
fn extracts_cas_token() {
    assert_eq!(cas_token_exec(&Some("https://booking.lib.zju.edu.cn/h5/#/cas/?cas=TOK123&x=1".to_string())), "TOK123");
    assert_eq!(cas_token_exec(&Some("https://x/?cas=TOK".to_string())), "TOK");
    assert_eq!(cas_token_exec(&Some("https://x/?ticket=1".to_string())), "");
    assert_eq!(cas_token_exec(&None), "");
}

fn location(s: &str) -> LoginEvent {
    LoginEvent::Location { location: Some(s.to_string()) }
}

fn start() -> LoginFlow {
    let (flow, action) = LoginFlow::begin("3220100001".to_string(), "a".to_string());
    match action {
        LoginAction::FetchPage { url } => assert_eq!(
            url,
            "https://zjuam.zju.edu.cn/cas/login?service=https%3A%2F%2Fbooking.lib.zju.edu.cn%2Fapi%2Fcas%2Fcas"
        ),
        _ => panic!("login must start with the login page"),
    }
    flow
}

fn past_key(flow: &mut LoginFlow) {
    let a = flow.step(LoginEvent::Page { text: "x name=\"execution\" value=\"EXEC\" y".to_string() });
    match a {
        LoginAction::FetchPublicKey { url } => assert_eq!(url, "https://zjuam.zju.edu.cn/cas/v2/getPubKey"),
        _ => panic!("expected the public key request"),
    }
    assert!(matches!(&flow.stage, LoginStage::AwaitKey { execution } if execution == "EXEC"));
    let a = flow.step(LoginEvent::PublicKey { modulus: Some("ff".to_string()), exponent: Some("3".to_string()) });
    match a {
        LoginAction::SubmitForm { url, form } => {
            assert!(url.starts_with("https://zjuam.zju.edu.cn/cas/login?service="));
            let expected: Vec<(String, String)> = vec![
                ("username".to_string(), "3220100001".to_string()),
                ("password".to_string(), padded("1c")),
                ("authcode".to_string(), String::new()),
                ("execution".to_string(), "EXEC".to_string()),
                ("_eventId".to_string(), "submit".to_string()),
            ];
            assert_eq!(form, expected);
        }
        _ => panic!("expected the login form"),
    }
}

fn finish_error(a: LoginAction) -> String {
    match a {
        LoginAction::Finish { outcome: Err(e) } => e,
        _ => panic!("expected the login to fail"),
    }
}

#[test]
fn login_flow_succeeds() {
    let mut flow = start();
    past_key(&mut flow);
    let a = flow.step(location("https://booking.lib.zju.edu.cn/api/cas/cas?ticket=ST-1"));
    assert!(matches!(a, LoginAction::FollowRedirect { ref url } if url == "https://booking.lib.zju.edu.cn/api/cas/cas?ticket=ST-1"));
    let a = flow.step(location("https://booking.lib.zju.edu.cn/h5/index.html#/cas/?cas=TOK123&x=1"));
    match a {
        LoginAction::PostJson { url, body } => {
            assert_eq!(url, "https://booking.lib.zju.edu.cn/api/cas/user");
            assert_eq!(body, "{\"cas\":\"TOK123\"}");
        }
        _ => panic!("expected the token exchange"),
    }
    let a = flow.step(LoginEvent::UserReply {
        code: Some(1),
        token: Some("JWT".to_string()),
        uid: Some("42".to_string()),
        name: None,
        msg_text: "\"ok\"".to_string(),
    });
    match a {
        LoginAction::Finish { outcome: Ok(s) } => {
            assert_eq!(s.jwt, "JWT");
            assert_eq!(s.uid, "42");
            assert_eq!(s.name, "");
        }
        _ => panic!("expected a session"),
    }
    assert!(matches!(flow.stage, LoginStage::Done));
}

#[test]
fn login_falls_back_to_cas_entry() {
    let mut flow = start();
    past_key(&mut flow);
    flow.step(location("https://booking/ticket"));
    let a = flow.step(LoginEvent::Location { location: None });
    assert!(matches!(a, LoginAction::FollowRedirect { ref url } if url == "https://booking.lib.zju.edu.cn/api/cas/cas"));
    let a = flow.step(location("https://b/?cas=T2"));
    assert!(matches!(a, LoginAction::PostJson { ref body, .. } if body == "{\"cas\":\"T2\"}"));
}

#[test]
fn login_without_cas_token_fails() {
    let mut flow = start();
    past_key(&mut flow);
    flow.step(location("https://booking/ticket"));
    flow.step(location("https://b/?cas=&x"));
    let a = flow.step(location("https://b/none"));
    assert_eq!(finish_error(a), "无法提取 CAS Token");
}

#[test]
fn login_errors() {
    let mut flow = start();
    assert_eq!(finish_error(flow.step(LoginEvent::Page { text: "nothing".to_string() })), "无法提取 execution");

    let mut flow = start();
    flow.step(LoginEvent::Page { text: "name=\"execution\" value=\"E\"".to_string() });
    let a = flow.step(LoginEvent::PublicKey { modulus: None, exponent: Some("3".to_string()) });
    assert_eq!(finish_error(a), "无 modulus");

    let mut flow = start();
    flow.step(LoginEvent::Page { text: "name=\"execution\" value=\"E\"".to_string() });
    let a = flow.step(LoginEvent::PublicKey { modulus: Some("ff".to_string()), exponent: None });
    assert_eq!(finish_error(a), "无 exponent");

    let mut flow = start();
    past_key(&mut flow);
    assert_eq!(finish_error(flow.step(LoginEvent::Location { location: None })), "未重定向");

    let mut flow = start();
    past_key(&mut flow);
    assert_eq!(finish_error(flow.step(location("https://zjuam.zju.edu.cn/cas/login?error"))), "账号或密码错误。");

    let mut flow = start();
    past_key(&mut flow);
    flow.step(location("https://b/t"));
    flow.step(location("https://b/?cas=T"));
    let a = flow.step(LoginEvent::UserReply {
        code: Some(0),
        token: None,
        uid: None,
        name: None,
        msg_text: "\"denied\"".to_string(),
    });
    assert_eq!(finish_error(a), "业务层认证被拒: \"denied\"");
}

#[test]
fn login_refuses_events_it_cannot_take() {
    let mut flow = start();
    assert!(!flow.accepts_event(&LoginEvent::Location { location: None }));
    assert!(flow.accepts_event(&LoginEvent::Page { text: String::new() }));
    flow.step(LoginEvent::Page { text: "name=\"execution\" value=\"E\"".to_string() });
    let bad_exp = LoginEvent::PublicKey { modulus: Some("ff".to_string()), exponent: Some("zz".to_string()) };
    assert!(!flow.accepts_event(&bad_exp));
    let zero_mod = LoginEvent::PublicKey { modulus: Some("00".to_string()), exponent: Some("3".to_string()) };
    assert!(!flow.accepts_event(&zero_mod));
    let missing = LoginEvent::PublicKey { modulus: None, exponent: Some("zz".to_string()) };
    assert!(flow.accepts_event(&missing));
    past_key_from_key_stage(&mut flow);
    flow.step(location("https://b/t"));
    flow.step(location("https://b/?cas=T"));
    let no_token = LoginEvent::UserReply { code: Some(1), token: None, uid: None, name: None, msg_text: "null".to_string() };
    assert!(!flow.accepts_event(&no_token));
    let refused = LoginEvent::UserReply { code: Some(0), token: None, uid: None, name: None, msg_text: "null".to_string() };
    assert!(flow.accepts_event(&refused));
}

fn past_key_from_key_stage(flow: &mut LoginFlow) {
    let a = flow.step(LoginEvent::PublicKey { modulus: Some("ff".to_string()), exponent: Some("3".to_string()) });
    assert!(matches!(a, LoginAction::SubmitForm { .. }));
}

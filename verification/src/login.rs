use vstd::prelude::*;

verus! {

use crate::codec::json_string_literal;
use crate::json::{json_object, json_object_text};
use crate::rsa::{encrypt_password, is_hex_number, is_valid_modulus, parse_hex, rsa_password_text};
use crate::text::{
    lemma_value_after_marker,
    contains_exec,
    contains_seq,
    split_first,
    split_first_exec,
    split_second,
    split_second_exec,
};

/// The CAS login page of the university, which redirects to the booking
/// service after a successful login.
pub open spec fn cas_login_url() -> Seq<char> {
    "https://zjuam.zju.edu.cn/cas/login?service=https%3A%2F%2Fbooking.lib.zju.edu.cn%2Fapi%2Fcas%2Fcas"@
}

/// Where the CAS server hands out its RSA public key.
pub open spec fn cas_pubkey_url() -> Seq<char> {
    "https://zjuam.zju.edu.cn/cas/v2/getPubKey"@
}

/// The booking service's CAS entry point, asked again when the ticket
/// redirect carries no token.
pub open spec fn booking_cas_url() -> Seq<char> {
    "https://booking.lib.zju.edu.cn/api/cas/cas"@
}

/// Where the booking service exchanges a CAS token for its own token.
pub open spec fn booking_user_url() -> Seq<char> {
    "https://booking.lib.zju.edu.cn/api/cas/user"@
}

/// The marker in the login page before the value of the hidden
/// `execution` field.
pub open spec fn execution_marker() -> Seq<char> {
    "name=\"execution\" value=\""@
}

/// The `execution` value of the login page: the text after the first marker,
/// up to the next marker, cut at the first `"`.
pub open spec fn execution_of(page: Seq<char>) -> Option<Seq<char>> {
    match split_second(page, execution_marker()) {
        Some(s) => Some(split_first(s, "\""@)),
        None => None,
    }
}

/// The CAS token in a redirect location: after the first `cas=`, up to the
/// next `cas=`, cut at the first `&`; empty when there is none.
pub open spec fn cas_token_of(location: Option<Seq<char>>) -> Seq<char> {
    match location {
        Some(l) => match split_second(l, "cas="@) {
            Some(s) => split_first(s, "&"@),
            None => Seq::empty(),
        },
        None => Seq::empty(),
    }
}

/// The login form that the CAS server receives.
pub open spec fn login_form(username: Seq<char>, encrypted: Seq<char>, execution: Seq<char>) -> Seq<
    (Seq<char>, Seq<char>),
> {
    seq![
        ("username"@, username),
        ("password"@, encrypted),
        ("authcode"@, Seq::empty()),
        ("execution"@, execution),
        ("_eventId"@, "submit"@),
    ]
}

/// Where a login stands.
pub enum LoginStage {
    /// The login page was asked for.
    AwaitPage,
    /// The public key was asked for; the page's `execution` value is kept.
    AwaitKey { execution: String },
    /// The login form was submitted.
    AwaitSubmit,
    /// The redirect after the login was followed.
    AwaitTicket,
    /// The booking service's CAS entry point was asked again.
    AwaitCasRetry,
    /// The CAS token was handed to the booking service.
    AwaitUser,
    /// The login has ended.
    Done,
}

/// What the CAS login asks its runner to do next; every request carries the
/// browser user agent, and redirects are not followed.
pub enum LoginAction {
    /// GET `url` and answer with `LoginEvent::Page`.
    FetchPage { url: String },
    /// GET `url` and answer with `LoginEvent::PublicKey`.
    FetchPublicKey { url: String },
    /// POST the URL-encoded `form` to `url` and answer with
    /// `LoginEvent::Location`.
    SubmitForm { url: String, form: Vec<(String, String)> },
    /// GET `url` and answer with `LoginEvent::Location`.
    FollowRedirect { url: String },
    /// POST the JSON `body` to `url` and answer with `LoginEvent::UserReply`.
    PostJson { url: String, body: String },
    /// The login has ended with the booking service's session or an error.
    Finish { outcome: Result<SessionTokens, String> },
}

/// What the runner observed in answer to an action.
pub enum LoginEvent {
    /// The text of a page.
    Page { text: String },
    /// The `modulus` and `exponent` members of the public key reply, when
    /// they are strings.
    PublicKey { modulus: Option<String>, exponent: Option<String> },
    /// The `location` header of a reply, when there is one and it is visible
    /// ASCII text.
    Location { location: Option<String> },
    /// The booking service's answer to the CAS token: `code` when it is an
    /// integer, `member.token`, `member.id` and `member.name` when they are
    /// strings, and the text of `msg` as `serde_json` displays it.
    UserReply {
        code: Option<i64>,
        token: Option<String>,
        uid: Option<String>,
        name: Option<String>,
        msg_text: String,
    },
}

/// The booking service's session after a login.
pub struct SessionTokens {
    pub jwt: String,
    pub uid: String,
    pub name: String,
}

/// A CAS login in progress.
pub struct LoginFlow {
    pub username: String,
    pub password: String,
    pub stage: LoginStage,
}

/// The order in which the stages are passed; `Done` comes last.
pub open spec fn stage_rank(s: LoginStage) -> nat {
    match s {
        LoginStage::AwaitPage => 0,
        LoginStage::AwaitKey { .. } => 1,
        LoginStage::AwaitSubmit => 2,
        LoginStage::AwaitTicket => 3,
        LoginStage::AwaitCasRetry => 4,
        LoginStage::AwaitUser => 5,
        LoginStage::Done => 6,
    }
}

/// The action ends the login with the error text `msg`.
pub open spec fn fails_with(a: LoginAction, msg: Seq<char>) -> bool {
    a matches LoginAction::Finish { outcome: Err(e) } && e@ == msg
}

/// The stage is `Done` and the action ends the login with `msg`.
pub open spec fn ends_with(new: LoginFlow, a: LoginAction, msg: Seq<char>) -> bool {
    new.stage is Done && fails_with(a, msg)
}

/// The action posts the CAS token `token` to the booking service.
pub open spec fn posts_token(new: LoginFlow, a: LoginAction, token: Seq<char>) -> bool {
    &&& new.stage is AwaitUser
    &&& a matches LoginAction::PostJson { url, body } && url@ == booking_user_url() && body@
        == json_object(seq![("cas"@, json_string_literal(token))])
}

/// Which events a stage can take without the login panicking: the event
/// answers the stage's action, the public key parses, and an accepted token
/// exchange carries a token.
pub open spec fn accepts(stage: LoginStage, event: LoginEvent) -> bool {
    match stage {
        LoginStage::AwaitPage => event is Page,
        LoginStage::AwaitKey { .. } => match event {
            LoginEvent::PublicKey { modulus, exponent } => (modulus is Some && exponent is Some)
                ==> {
                &&& parse_hex(exponent->0@) is Some
                &&& parse_hex(modulus->0@) matches Some(n) && n > 0
            },
            _ => false,
        },
        LoginStage::AwaitSubmit | LoginStage::AwaitTicket | LoginStage::AwaitCasRetry => event is Location,
        LoginStage::AwaitUser => match event {
            LoginEvent::UserReply { code, token, .. } => code == Some(1i64) ==> token is Some,
            _ => false,
        },
        LoginStage::Done => false,
    }
}

/// One step of the CAS login: from the stage before, the event, to the stage
/// after and the action.
pub open spec fn login_step(old: LoginFlow, event: LoginEvent, new: LoginFlow, a: LoginAction) -> bool {
    &&& new.username == old.username
    &&& new.password == old.password
    &&& match (old.stage, event) {
        (LoginStage::AwaitPage, LoginEvent::Page { text }) => match execution_of(text@) {
            None => ends_with(new, a, "无法提取 execution"@),
            Some(x) => {
                &&& new.stage matches LoginStage::AwaitKey { execution } && execution@ == x
                &&& a matches LoginAction::FetchPublicKey { url } && url@ == cas_pubkey_url()
            },
        },
        (LoginStage::AwaitKey { execution }, LoginEvent::PublicKey { modulus, exponent }) => {
            if modulus is None {
                ends_with(new, a, "无 modulus"@)
            } else if exponent is None {
                ends_with(new, a, "无 exponent"@)
            } else {
                &&& new.stage is AwaitSubmit
                &&& a matches LoginAction::SubmitForm { url, form } && url@ == cas_login_url()
                    && form.deep_view() == login_form(
                    old.username@,
                    rsa_password_text(
                        old.password@,
                        parse_hex(exponent->0@)->0,
                        parse_hex(modulus->0@)->0,
                    ),
                    execution@,
                )
            }
        },
        (LoginStage::AwaitSubmit, LoginEvent::Location { location }) => match location {
            None => ends_with(new, a, "未重定向"@),
            Some(l) => if contains_seq(l@, "login"@) {
                ends_with(new, a, "账号或密码错误。"@)
            } else {
                &&& new.stage is AwaitTicket
                &&& a matches LoginAction::FollowRedirect { url } && url@ == l@
            },
        },
        (LoginStage::AwaitTicket, LoginEvent::Location { location }) => {
            let t = cas_token_of(match location {
                Some(l) => Some(l@),
                None => None,
            });
            if t.len() > 0 {
                posts_token(new, a, t)
            } else {
                &&& new.stage is AwaitCasRetry
                &&& a matches LoginAction::FollowRedirect { url } && url@ == booking_cas_url()
            }
        },
        (LoginStage::AwaitCasRetry, LoginEvent::Location { location }) => {
            let t = cas_token_of(match location {
                Some(l) => Some(l@),
                None => None,
            });
            if t.len() > 0 {
                posts_token(new, a, t)
            } else {
                ends_with(new, a, "无法提取 CAS Token"@)
            }
        },
        (
            LoginStage::AwaitUser,
            LoginEvent::UserReply { code, token, uid, name, msg_text },
        ) => {
            &&& new.stage is Done
            &&& if code == Some(1i64) {
                &&& token is Some
                &&& a matches LoginAction::Finish { outcome: Ok(s) } && s.jwt@ == token->0@ && s.uid@ == (
                match uid {
                    Some(u) => u@,
                    None => Seq::empty(),
                }) && s.name@ == (match name {
                    Some(n) => n@,
                    None => Seq::empty(),
                })
            } else {
                fails_with(a, "业务层认证被拒: "@ + msg_text@)
            }
        },
        _ => false,
    }
}

fn string_of(s: &str) -> (r: String)
    ensures
        r@ == s@,
{
    s.to_owned()
}

fn finish_err(msg: &str) -> (r: LoginAction)
    ensures
        fails_with(r, msg@),
{
    LoginAction::Finish { outcome: Err(string_of(msg)) }
}

fn optional_text(s: &Option<String>) -> (r: String)
    ensures
        r@ == (match s {
            Some(t) => t@,
            None => Seq::empty(),
        }),
{
    match s {
        Some(t) => string_of(t.as_str()),
        None => String::new(),
    }
}

/// The CAS token in a redirect location, empty when there is none.
pub fn cas_token_exec(location: &Option<String>) -> (r: String)
    ensures
        r@ == cas_token_of(
            match location {
                Some(l) => Some(l@),
                None => None,
            },
        ),
{
    match location {
        Some(l) => {
            proof {
                reveal_strlit("cas=");
            }
            match split_second_exec(l.as_str(), "cas=") {
                Some(s) => split_first_exec(s.as_str(), "&"),
                None => String::new(),
            }
        },
        None => String::new(),
    }
}

/// The `execution` value of the login page.
pub fn execution_exec(page: &str) -> (r: Option<String>)
    ensures
        r matches Some(x) ==> execution_of(page@) == Some(x@),
        r is None ==> execution_of(page@) is None,
{
    proof {
        reveal_strlit("name=\"execution\" value=\"");
    }
    match split_second_exec(page, "name=\"execution\" value=\"") {
        Some(s) => Some(split_first_exec(s.as_str(), "\"")),
        None => None,
    }
}

impl LoginFlow {
    /// Starts a CAS login for `username`: the first action fetches the login page.
    pub fn begin(username: String, password: String) -> (r: (LoginFlow, LoginAction))
        ensures
            r.0.username == username,
            r.0.password == password,
            r.0.stage is AwaitPage,
            r.1 matches LoginAction::FetchPage { url } && url@ == cas_login_url(),
    {
        (
            LoginFlow { username, password, stage: LoginStage::AwaitPage },
            LoginAction::FetchPage {
                url: string_of(
                    "https://zjuam.zju.edu.cn/cas/login?service=https%3A%2F%2Fbooking.lib.zju.edu.cn%2Fapi%2Fcas%2Fcas",
                ),
            },
        )
    }

    /// Whether the login can take `event` now: it answers the current stage's
    /// action, and it is one that the login can go on from: a public key
    /// whose numbers parse, with a nonzero modulus, and a token exchange that
    /// was accepted only together with a token.
    pub fn accepts_event(&self, event: &LoginEvent) -> (r: bool)
        ensures
            r == accepts(self.stage, *event),
    {
        match (&self.stage, event) {
            (LoginStage::AwaitPage, LoginEvent::Page { .. }) => true,
            (LoginStage::AwaitKey { .. }, LoginEvent::PublicKey { modulus, exponent }) => match (
                modulus,
                exponent,
            ) {
                (Some(m), Some(e)) => is_hex_number(e.as_str()) && is_valid_modulus(m.as_str()),
                _ => true,
            },
            (LoginStage::AwaitSubmit, LoginEvent::Location { .. }) => true,
            (LoginStage::AwaitTicket, LoginEvent::Location { .. }) => true,
            (LoginStage::AwaitCasRetry, LoginEvent::Location { .. }) => true,
            (LoginStage::AwaitUser, LoginEvent::UserReply { code, token, .. }) => match code {
                Some(c) => *c != 1 || token.is_some(),
                None => true,
            },
            _ => false,
        }
    }

    fn post_token(&mut self, token: String) -> (a: LoginAction)
        ensures
            posts_token(*final(self), a, token@),
            final(self).username == old(self).username,
            final(self).password == old(self).password,
    {
        let mut f: Vec<(String, String)> = Vec::new();
        f.push((string_of("cas"), crate::codec::json_quote(token.as_str())));
        assert(f.deep_view() =~= seq![("cas"@, json_string_literal(token@))]);
        let body = json_object_text(&f);
        self.stage = LoginStage::AwaitUser;
        LoginAction::PostJson { url: string_of("https://booking.lib.zju.edu.cn/api/cas/user"), body }
    }

    /// Takes the runner's observation and returns the next action; see
    /// `login_step` for each stage.
    pub fn step(&mut self, event: LoginEvent) -> (a: LoginAction)
        requires
            accepts(old(self).stage, event),
        ensures
            login_step(*old(self), event, *final(self), a),
    {
        let mut stage = LoginStage::Done;
        std::mem::swap(&mut stage, &mut self.stage);
        match stage {
            LoginStage::AwaitPage => match event {
                LoginEvent::Page { text } => match execution_exec(text.as_str()) {
                    None => finish_err("无法提取 execution"),
                    Some(x) => {
                        self.stage = LoginStage::AwaitKey { execution: x };
                        LoginAction::FetchPublicKey {
                            url: string_of("https://zjuam.zju.edu.cn/cas/v2/getPubKey"),
                        }
                    },
                },
                _ => {
                    assert(false);
                    finish_err("")
                },
            },
            LoginStage::AwaitKey { execution } => match event {
                LoginEvent::PublicKey { modulus, exponent } => match modulus {
                    None => finish_err("无 modulus"),
                    Some(m) => match exponent {
                        None => finish_err("无 exponent"),
                        Some(e) => {
                            let enc = encrypt_password(self.password.as_str(), e.as_str(), m.as_str());
                            let mut form: Vec<(String, String)> = Vec::new();
                            form.push((string_of("username"), string_of(self.username.as_str())));
                            form.push((string_of("password"), enc));
                            form.push((string_of("authcode"), String::new()));
                            form.push((string_of("execution"), execution));
                            form.push((string_of("_eventId"), string_of("submit")));
                            assert(form.deep_view() =~= login_form(
                                self.username@,
                                rsa_password_text(
                                    self.password@,
                                    parse_hex(e@)->0,
                                    parse_hex(m@)->0,
                                ),
                                execution@,
                            ));
                            self.stage = LoginStage::AwaitSubmit;
                            LoginAction::SubmitForm {
                                url: string_of(
                                    "https://zjuam.zju.edu.cn/cas/login?service=https%3A%2F%2Fbooking.lib.zju.edu.cn%2Fapi%2Fcas%2Fcas",
                                ),
                                form,
                            }
                        },
                    },
                },
                _ => {
                    assert(false);
                    finish_err("")
                },
            },
            LoginStage::AwaitSubmit => match event {
                LoginEvent::Location { location } => match location {
                    None => finish_err("未重定向"),
                    Some(l) => {
                        if contains_exec(l.as_str(), "login") {
                            finish_err("账号或密码错误。")
                        } else {
                            self.stage = LoginStage::AwaitTicket;
                            LoginAction::FollowRedirect { url: l }
                        }
                    },
                },
                _ => {
                    assert(false);
                    finish_err("")
                },
            },
            LoginStage::AwaitTicket => match event {
                LoginEvent::Location { location } => {
                    let t = cas_token_exec(&location);
                    if t.as_str().is_empty() {
                        self.stage = LoginStage::AwaitCasRetry;
                        LoginAction::FollowRedirect {
                            url: string_of("https://booking.lib.zju.edu.cn/api/cas/cas"),
                        }
                    } else {
                        self.post_token(t)
                    }
                },
                _ => {
                    assert(false);
                    finish_err("")
                },
            },
            LoginStage::AwaitCasRetry => match event {
                LoginEvent::Location { location } => {
                    let t = cas_token_exec(&location);
                    if t.as_str().is_empty() {
                        finish_err("无法提取 CAS Token")
                    } else {
                        self.post_token(t)
                    }
                },
                _ => {
                    assert(false);
                    finish_err("")
                },
            },
            LoginStage::AwaitUser => match event {
                LoginEvent::UserReply { code, token, uid, name, msg_text } => {
                    let accepted = match code {
                        Some(c) => c == 1,
                        None => false,
                    };
                    if accepted {
                        let jwt = match token {
                            Some(t) => t,
                            None => {
                                assert(false);
                                String::new()
                            },
                        };
                        let s = SessionTokens {
                            jwt,
                            uid: optional_text(&uid),
                            name: optional_text(&name),
                        };
                        LoginAction::Finish { outcome: Ok(s) }
                    } else {
                        let mut msg = string_of("业务层认证被拒: ");
                        msg.append(msg_text.as_str());
                        LoginAction::Finish { outcome: Err(msg) }
                    }
                },
                _ => {
                    assert(false);
                    finish_err("")
                },
            },
            LoginStage::Done => {
                assert(false);
                finish_err("")
            },
        }
    }
}

/// Every step of a login moves it to a later stage, and it ends exactly when
/// it hands out its result; so a login takes at most six steps.
pub proof fn law_login_progresses(old: LoginFlow, event: LoginEvent, new: LoginFlow, a: LoginAction)
    requires
        login_step(old, event, new, a),
    ensures
        stage_rank(new.stage) > stage_rank(old.stage),
        new.stage is Done <==> a is Finish,
{
}

/// A login succeeds only when the booking service accepted the CAS token
/// (code 1), and the session's token is the one the service handed out.
pub proof fn law_login_success_needs_accepted_token(
    old: LoginFlow,
    event: LoginEvent,
    new: LoginFlow,
    a: LoginAction,
)
    requires
        login_step(old, event, new, a),
        a matches LoginAction::Finish { outcome: Ok(_) },
    ensures
        old.stage is AwaitUser,
        event matches LoginEvent::UserReply { code, token, .. } && code == Some(1i64) && (
        token matches Some(t) && a->Finish_outcome->Ok_0.jwt@ == t@),
{
    match (old.stage, event) {
        (LoginStage::AwaitUser, LoginEvent::UserReply { code, token, uid, name, msg_text }) => {
            if code != Some(1i64) {
                assert(fails_with(a, "业务层认证被拒: "@ + msg_text@));
            }
        },
        (LoginStage::AwaitPage, LoginEvent::Page { text }) => {},
        (LoginStage::AwaitKey { execution }, LoginEvent::PublicKey { modulus, exponent }) => {},
        (LoginStage::AwaitSubmit, LoginEvent::Location { location }) => {},
        (LoginStage::AwaitTicket, LoginEvent::Location { location }) => {},
        (LoginStage::AwaitCasRetry, LoginEvent::Location { location }) => {},
        _ => {},
    }
}

/// A redirect back to a login page after the form was submitted means wrong
/// credentials, and the login ends with that error.
pub proof fn law_login_rejects_redirect_to_login(
    old: LoginFlow,
    location: String,
    new: LoginFlow,
    a: LoginAction,
)
    requires
        login_step(old, LoginEvent::Location { location: Some(location) }, new, a),
        old.stage is AwaitSubmit,
        contains_seq(location@, "login"@),
    ensures
        new.stage is Done,
        fails_with(a, "账号或密码错误。"@),
{
}

/// The login page's `execution` value is read back exactly: when the page is
/// `prefix`, the marker `name="execution" value="`, the value, a quote and
/// the rest, the marker first occurs after `prefix`, and the value holds no
/// quote and no `=`, then the value extracted is `value`.
pub proof fn law_execution_value_is_read_back(prefix: Seq<char>, value: Seq<char>, rest: Seq<char>)
    requires
        !contains_seq(prefix + execution_marker().drop_last(), execution_marker()),
        forall|i: int| 0 <= i < value.len() ==> value[i] != '"' && value[i] != '=',
    ensures
        execution_of(prefix + execution_marker() + value + seq!['"'] + rest) == Some(value),
{
    reveal_strlit("name=\"execution\" value=\"");
    reveal_strlit("\"");
    let m = execution_marker();
    assert(m[4] == '=');
    assert("\""@ =~= seq!['"']);
    lemma_value_after_marker(prefix, m, 4, value, '"', rest);
}

/// The CAS token of a redirect is read back exactly: when the location is
/// `prefix`, `cas=`, the token, `&` and the rest, `cas=` first occurs after
/// `prefix`, and the token holds no `&` and no `=`, the token extracted is
/// `token`.
pub proof fn law_cas_token_is_read_back(prefix: Seq<char>, token: Seq<char>, rest: Seq<char>)
    requires
        !contains_seq(prefix + "cas=".view().drop_last(), "cas=".view()),
        forall|i: int| 0 <= i < token.len() ==> token[i] != '&' && token[i] != '=',
    ensures
        cas_token_of(Some(prefix + "cas=".view() + token + seq!['&'] + rest)) == token,
{
    reveal_strlit("cas=");
    reveal_strlit("&");
    let m = "cas=".view();
    assert(m[3] == '=');
    assert("&"@ =~= seq!['&']);
    lemma_value_after_marker(prefix, m, 3, token, '&', rest);
}

/// When the booking service accepts the CAS token, the login ends with the
/// session that its reply describes: the token it handed out, and the
/// member's id and name where the reply carries them as strings (empty text
/// only where it does not).
pub proof fn law_login_session_is_the_reply(
    old: LoginFlow,
    token: Option<String>,
    uid: Option<String>,
    name: Option<String>,
    msg_text: String,
    new: LoginFlow,
    a: LoginAction,
)
    requires
        old.stage is AwaitUser,
        login_step(
            old,
            LoginEvent::UserReply { code: Some(1i64), token, uid, name, msg_text },
            new,
            a,
        ),
    ensures
        token is Some,
        a matches LoginAction::Finish { outcome: Ok(s) },
        a->Finish_outcome->Ok_0.jwt@ == token->0@,
        uid matches Some(u) ==> a->Finish_outcome->Ok_0.uid@ == u@,
        uid is None ==> a->Finish_outcome->Ok_0.uid@.len() == 0,
        name matches Some(n) ==> a->Finish_outcome->Ok_0.name@ == n@,
        name is None ==> a->Finish_outcome->Ok_0.name@.len() == 0,
        new.stage is Done,
{
}

} // verus!

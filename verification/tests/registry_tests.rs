use zju_booking::client::ZjuClient;
use zju_booking::error::AppError;
use zju_booking::models::{DingTalkConfig, TaskInfo};
use zju_booking::registry::AppState;

fn client(jwt: &str, uid: &str, name: &str) -> ZjuClient {
    ZjuClient { client: reqwest::Client::new(), jwt: jwt.to_string(), uid: uid.to_string(), name: name.to_string() }
}

fn task(id: &str) -> TaskInfo {
    TaskInfo {
        id: id.to_string(),
        target_date: "2024-03-02".to_string(),
        start_time: "2024-03-01T08:00".to_string(),
        area_id: "12".to_string(),
        area_name: "二楼".to_string(),
        interval_sec: 5,
    }
}

#[test]
fn login_opens_session_that_resolves() {
    let mut s = AppState::new(None);
    assert!(s.cached_client("stu").is_none());
    let info = s.login("stu".to_string(), "tok".to_string(), Some(client("J1", "u1", "Alice"))).unwrap();
    assert_eq!((info.uid.as_str(), info.name.as_str()), ("u1", "Alice"));
    let c = s.get_client(Some("Bearer tok")).ok().unwrap();
    assert_eq!(c.jwt, "J1");
    let u = s.get_user_info(Some("Bearer tok")).ok().unwrap();
    assert_eq!(u.name, "Alice");
    assert!(matches!(s.get_client(Some("tok")), Err(AppError::Unauthorized)));
    assert!(matches!(s.get_client(Some("Bearer other")), Err(AppError::Unauthorized)));
    assert!(matches!(s.get_client(None), Err(AppError::Unauthorized)));
}

#[test]
fn second_login_reuses_pooled_client() {
    let mut s = AppState::new(None);
    assert!(s.login("stu".to_string(), "t0".to_string(), None).is_none());
    assert!(s.get_client(Some("Bearer t0")).is_err());
    s.login("stu".to_string(), "t1".to_string(), Some(client("J1", "u1", "Alice")));
    let info = s.login("stu".to_string(), "t2".to_string(), None).unwrap();
    assert_eq!(info.uid, "u1");
    assert_eq!(s.get_client(Some("Bearer t2")).ok().unwrap().jwt, "J1");
    assert_eq!(s.get_client(Some("Bearer t1")).ok().unwrap().jwt, "J1");
}

#[test]
fn logout_closes_only_that_session() {
    let mut s = AppState::new(None);
    s.login("stu".to_string(), "t1".to_string(), Some(client("J1", "u1", "Alice")));
    s.login("stu".to_string(), "t2".to_string(), None);
    s.logout(Some("Bearer t1"));
    assert!(matches!(s.get_client(Some("Bearer t1")), Err(AppError::Unauthorized)));
    assert!(s.get_client(Some("Bearer t2")).is_ok());
    assert!(s.cached_client("stu").is_some());
    s.logout(Some("t2"));
    assert!(s.get_client(Some("Bearer t2")).is_ok());
    s.logout(None);
}

#[test]
fn tasks_are_listed_and_deleted() {
    let mut s = AppState::new(None);
    s.add_task(task("a"));
    s.add_task(task("b"));
    let mut ids: Vec<String> = s.list_tasks().into_iter().map(|t| t.id).collect();
    ids.sort();
    assert_eq!(ids, vec!["a".to_string(), "b".to_string()]);
    assert!(s.delete_task("a").is_ok());
    assert_eq!(s.list_tasks().len(), 1);
    match s.delete_task("a") {
        Err(AppError::Business(m)) => assert_eq!(m, "找不到指定任务"),
        _ => panic!("a deleted task cannot be deleted again"),
    }
}

#[test]
fn dingtalk_config_is_cached() {
    let mut s = AppState::new(None);
    assert!(s.dingtalk_config().is_none());
    s.set_dingtalk_config(DingTalkConfig { webhook: "https://hook".to_string(), secret: None });
    assert_eq!(s.dingtalk_config().as_ref().unwrap().webhook, "https://hook");
}

#[test]
fn error_responses() {
    let cases = vec![
        (AppError::Unauthorized, 401u16, "未授权的访问或 Token 过期"),
        (AppError::Business("找不到指定任务".to_string()), 400, "找不到指定任务"),
        (AppError::Reqwest("timeout".to_string()), 500, "网络请求失败: timeout"),
        (AppError::Database("locked".to_string()), 500, "数据库持久化错误: locked"),
        (AppError::Internal("boom".to_string()), 500, "内部系统错误: boom"),
    ];
    for (e, status, msg) in cases {
        let (s, m) = e.response_parts();
        assert_eq!(s, status);
        assert_eq!(m, msg);
    }
    assert_eq!(AppError::Business("x".to_string()).message(), "业务处理异常: x");
}

#[test]
fn storage_failure_is_a_refusal() {
    let e = AppError::save_failed("disk full");
    let (status, msg) = e.response_parts();
    assert_eq!(status, 400);
    assert_eq!(msg, "数据库保存失败: disk full");
}

#[test]
fn fresh_login_replaces_pooled_client() {
    let mut s = AppState::new(None);
    s.login("stu".to_string(), "t1".to_string(), Some(client("J1", "u1", "Alice")));
    let info = s.login("stu".to_string(), "t2".to_string(), Some(client("J2", "u9", "Mallory"))).unwrap();
    assert_eq!((info.uid.as_str(), info.name.as_str()), ("u9", "Mallory"));
    assert_eq!(s.get_client(Some("Bearer t2")).ok().unwrap().jwt, "J2");
    assert_eq!(s.get_client(Some("Bearer t1")).ok().unwrap().jwt, "J2");
}

#[test]
fn token_keeps_resolving_through_other_operations() {
    let mut s = AppState::new(None);
    s.login("stu".to_string(), "t1".to_string(), Some(client("J1", "u1", "Alice")));
    s.add_task(task("a"));
    s.login("other".to_string(), "t2".to_string(), Some(client("J9", "u2", "Bob")));
    s.logout(Some("Bearer t2"));
    let _ = s.delete_task("a");
    s.set_dingtalk_config(DingTalkConfig { webhook: "w".to_string(), secret: None });
    s.pool_client("stu".to_string(), client("J3", "u1", "Alice"));
    assert_eq!(s.get_client(Some("Bearer t1")).ok().unwrap().jwt, "J3");
}

#[test]
fn listed_tasks_have_distinct_ids() {
    let mut s = AppState::new(None);
    s.add_task(task("a"));
    s.add_task(task("b"));
    s.add_task(task("a"));
    s.add_task(task("c"));
    let mut ids: Vec<String> = s.list_tasks().into_iter().map(|t| t.id).collect();
    ids.sort();
    assert_eq!(ids, vec!["a".to_string(), "b".to_string(), "c".to_string()]);
}

#[test]
fn last_dingtalk_update_wins() {
    let mut s = AppState::new(None);
    for (w, k) in [("w1", "k1"), ("w2", "k2"), ("w3", "k3")] {
        s.set_dingtalk_config(DingTalkConfig { webhook: w.to_string(), secret: Some(k.to_string()) });
    }
    let c = s.dingtalk_config().as_ref().unwrap();
    assert_eq!((c.webhook.as_str(), c.secret.as_deref()), ("w3", Some("k3")));
}

use todo_server::config::{AppError, NotifyTasks, ReplyData};
use todo_server::handler::todo_item::{
    cancel_notify, create_item, create_reply, delete_outcome, image_path, list_reply, notify,
    stamp_new_item, update_outcome, upload_log_line,
};
use todo_server::handler::users::{
    assign_uuid, create_user_check, create_user_reply, login, register_check, register_prepare,
    register_reply, Claims,
};
use todo_server::methods::my_decode;
use todo_server::models::todo_item::{CancelNotify, NewTodoItem, Notify, TodoItem};
use todo_server::models::users::{Login, NewUser, User};
use todo_server::text::parse_i64;
use todo_server::token::claims_payload;

fn user(uuid: &str, name: &str) -> User {
    User {
        uuid: uuid.to_string(),
        username: name.to_string(),
        password: "pw".to_string(),
        phone: None,
    }
}

fn new_item() -> NewTodoItem {
    NewTodoItem {
        owner: None,
        title: "buy milk".to_string(),
        content: "two bottles".to_string(),
        status: Some(false),
        create_at: None,
        start_time: 1700000000,
    }
}

#[test]
fn app_error_keeps_code_and_message() {
    let e = AppError::err(404, "gone".to_string());
    assert_eq!(e.code, 404);
    assert_eq!(e.msg, "gone");
}

#[test]
fn create_user_only_for_unused_names() {
    assert!(create_user_check(0).is_ok());
    let e = create_user_check(1).unwrap_err();
    assert_eq!((e.code, e.msg.as_str()), (500, "此用户已经存在"));
    let r = create_user_reply();
    assert_eq!((r.code, r.msg.as_str()), (200, "创建成功"));
    assert!(matches!(r.data, ReplyData::Nothing));
}

#[test]
fn login_without_match_is_refused() {
    let login_req = Login { username: "bob".to_string(), password: "bad".to_string() };
    let e = login(&Vec::new(), login_req).unwrap_err();
    assert_eq!((e.code, e.msg.as_str()), (500, "账号或者密码错误"));
}

#[test]
fn login_issues_token_for_first_match() {
    let rows = vec![user("first-id", "bob"), user("second-id", "bob")];
    let login_req = Login { username: "bob".to_string(), password: "pw".to_string() };
    let r = login(&rows, login_req).unwrap();
    assert_eq!((r.code, r.msg.as_str()), (200, "登录成功"));
    let token = match r.data {
        ReplyData::Token(t) => t,
        _ => panic!("login answers with a token"),
    };
    let expected = Claims {
        uuid: "first-id".to_string(),
        username: "bob".to_string(),
        password: "pw".to_string(),
        exp: 1000000000000,
    };
    assert_eq!(my_decode(&token).unwrap(), claims_payload(&expected));
}

#[test]
fn register_assigns_a_v4_uuid() {
    let u = register_prepare(NewUser {
        uuid: None,
        username: "eve".to_string(),
        password: "pw".to_string(),
        phone: Some("123".to_string()),
    });
    let id = u.uuid.clone().unwrap();
    let chars: Vec<char> = id.chars().collect();
    assert_eq!(chars.len(), 36);
    for (i, c) in chars.iter().enumerate() {
        if [8, 13, 18, 23].contains(&i) {
            assert_eq!(*c, '-');
        } else {
            assert!(c.is_ascii_digit() || ('a'..='f').contains(c));
        }
    }
    assert_eq!(chars[14], '4');
    assert!(['8', '9', 'a', 'b'].contains(&chars[19]));
    assert_eq!(u.username, "eve");
    assert_eq!(u.phone.as_deref(), Some("123"));
    let again = register_prepare(NewUser {
        uuid: Some("old".to_string()),
        username: "eve".to_string(),
        password: "pw".to_string(),
        phone: None,
    });
    assert_ne!(again.uuid, Some("old".to_string()));
    assert_ne!(again.uuid, u.uuid);
}

#[test]
fn assigned_uuid_replaces_the_submitted_one() {
    let u = assign_uuid(
        NewUser {
            uuid: Some("client-chosen".to_string()),
            username: "eve".to_string(),
            password: "pw".to_string(),
            phone: None,
        },
        "fresh-id".to_string(),
    );
    assert_eq!(u.uuid.as_deref(), Some("fresh-id"));
    assert_eq!(u.username, "eve");
    assert_eq!(u.password, "pw");
    assert_eq!(u.phone, None);
}

#[test]
fn register_only_for_unused_names() {
    assert!(register_check(0).is_ok());
    let e = register_check(2).unwrap_err();
    assert_eq!((e.code, e.msg.as_str()), (500, "用户已经存在"));
    let r = register_reply();
    assert_eq!((r.code, r.msg.as_str()), (200, "注册成功"));
}

#[test]
fn created_item_is_owned_and_stamped() {
    let stamped = stamp_new_item(new_item(), "owner-1".to_string(), "1700000000".to_string());
    assert_eq!(stamped.owner.as_deref(), Some("owner-1"));
    assert_eq!(stamped.create_at.as_deref(), Some("1700000000"));
    assert_eq!(stamped.title, "buy milk");
    assert_eq!(stamped.status, Some(false));

    let claims = Claims {
        uuid: "owner-2".to_string(),
        username: "u".to_string(),
        password: "p".to_string(),
        exp: 1,
    };
    let created = create_item(new_item(), &claims);
    assert_eq!(created.owner.as_deref(), Some("owner-2"));
    let stamp = parse_i64(created.create_at.as_deref().unwrap()).unwrap();
    assert!(stamp > 1600000000);
    assert_eq!(created.start_time, 1700000000);
    let r = create_reply();
    assert_eq!((r.code, r.msg.as_str()), (200, "创建成功"));
}

#[test]
fn list_answers_with_the_items() {
    let item = TodoItem {
        id: 3,
        owner: "o".to_string(),
        title: "t".to_string(),
        content: "c".to_string(),
        status: true,
        create_at: "1".to_string(),
        start_time: 2,
    };
    let r = list_reply(vec![item]);
    assert_eq!((r.code, r.msg.as_str()), (200, "请求成功"));
    match r.data {
        ReplyData::Lists(v) => {
            assert_eq!(v.len(), 1);
            assert_eq!(v[0].id, 3);
        }
        _ => panic!("list answers with the items"),
    }
}

#[test]
fn update_and_delete_depend_on_rows_touched() {
    let ok = update_outcome(1).unwrap();
    assert_eq!((ok.code, ok.msg.as_str()), (200, "更新成功"));
    let e = update_outcome(0).unwrap_err();
    assert_eq!((e.code, e.msg.as_str()), (500, "待办事项不存在"));
    let ok = delete_outcome(3).unwrap();
    assert_eq!((ok.code, ok.msg.as_str()), (200, "删除成功"));
    let e = delete_outcome(0).unwrap_err();
    assert_eq!((e.code, e.msg.as_str()), (500, "没有找到对应的id"));
}

fn notify_req(id: i32) -> Notify {
    Notify {
        id,
        phone: "1".to_string(),
        title: "t".to_string(),
        content: "c".to_string(),
        start_time: 0,
    }
}

#[test]
fn notify_then_cancel_finds_the_reminder() {
    let mut tasks: NotifyTasks<u32> = NotifyTasks::new();
    let r = notify(&mut tasks, &notify_req(7), 70);
    assert_eq!((r.code, r.msg.as_str()), (200, "添加消息通知成功"));
    notify(&mut tasks, &notify_req(8), 80);
    let (h, reply) = cancel_notify(&tasks, &CancelNotify { id: 7 });
    assert_eq!(*h, 70);
    assert_eq!((reply.code, reply.msg.as_str()), (200, "取消消息通知成功"));
    // the record stays after a cancel
    assert_eq!(*cancel_notify(&tasks, &CancelNotify { id: 7 }).0, 70);
    assert!(tasks.get(9).is_none());
}

#[test]
fn notify_again_replaces_the_reminder() {
    let mut tasks: NotifyTasks<u32> = NotifyTasks::new();
    notify(&mut tasks, &notify_req(1), 10);
    notify(&mut tasks, &notify_req(1), 11);
    assert_eq!(*cancel_notify(&tasks, &CancelNotify { id: 1 }).0, 11);
    assert_eq!(tasks.insert(1, 12), Some(11));
    assert_eq!(tasks.insert(2, 20), None);
    assert_eq!(tasks.get(2), Some(&20));
}

#[test]
fn uploads_are_stored_and_logged() {
    assert_eq!(image_path("cat.png"), "./src/imgs/cat.png");
    assert_eq!(
        upload_log_line("file", "cat.png", "image/png", 1024),
        "Length of `file` (`cat.png`: `image/png`) is 1024 bytes"
    );
}

#[test]
fn sign_up_keeps_names_unique() {
    let mut names: Vec<String> = vec!["alice".to_string(), "bob".to_string()];
    for candidate in ["alice", "carol", "carol", "bob", "dave"] {
        let existing = names.iter().filter(|n| n.as_str() == candidate).count();
        if create_user_check(existing).is_ok() {
            names.push(candidate.to_string());
        }
        if register_check(existing).is_ok() {
            assert!(!names[..names.len() - 1].contains(&candidate.to_string()));
        }
    }
    let mut sorted = names.clone();
    sorted.sort();
    sorted.dedup();
    assert_eq!(sorted.len(), names.len());
    assert_eq!(names, vec!["alice", "bob", "carol", "dave"]);
}

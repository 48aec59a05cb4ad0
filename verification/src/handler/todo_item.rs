use vstd::prelude::*;
use crate::config::{is_ok_reply, is_refusal, ok_reply, refusal, AppError, NotifyTasks, Reply, ReplyData};
use crate::handler::users::Claims;
use crate::methods::now;
use crate::models::todo_item::{CancelNotify, NewTodoItem, Notify, TodoItem};
use crate::text::{int_text, nat_text, u64_text};

verus! {

// ---------------------------------------------------------------------------
// create
// ---------------------------------------------------------------------------

/// A submitted item as it is stored: owned by `owner`, created at
/// `created_at`, everything else as submitted.
pub fn stamp_new_item(item: NewTodoItem, owner: String, created_at: String) -> (r: NewTodoItem)
    ensures
        r.owner matches Some(o) && o@ == owner@,
        r.create_at matches Some(t) && t@ == created_at@,
        r.title@ == item.title@,
        r.content@ == item.content@,
        r.status == item.status,
        r.start_time == item.start_time,
{
    let mut item = item;
    item.owner = Some(owner);
    item.create_at = Some(created_at);
    item
}

/// A submitted item as `create` stores it: owned by the account of the
/// token, stamped with the current time.
pub fn create_item(item: NewTodoItem, claims: &Claims) -> (r: NewTodoItem)
    ensures
        r.owner matches Some(o) && o@ == claims.uuid@,
        r.create_at matches Some(t) && exists|s: i64| s >= 0 && t@ == int_text(s as int),
        r.title@ == item.title@,
        r.content@ == item.content@,
        r.status == item.status,
        r.start_time == item.start_time,
{
    let created_at = now();
    stamp_new_item(item, claims.uuid.clone(), created_at)
}

/// The answer once `create` has stored the item.
pub fn create_reply() -> (r: Reply)
    ensures
        is_ok_reply(r, "创建成功"@),
{
    ok_reply("创建成功")
}

// ---------------------------------------------------------------------------
// list
// ---------------------------------------------------------------------------

/// The answer of `list`: the items found.
pub fn list_reply(lists: Vec<TodoItem>) -> (r: Reply)
    ensures
        r.code == 200,
        r.msg@ == "请求成功"@,
        r.data matches ReplyData::Lists(v) && v@ == lists@,
{
    Reply { code: 200, msg: String::from_str("请求成功"), data: ReplyData::Lists(lists) }
}

// ---------------------------------------------------------------------------
// update, delete
// ---------------------------------------------------------------------------

/// The answer of `update`, given how many items it changed.
pub fn update_outcome(rows: usize) -> (r: Result<Reply, AppError>)
    ensures
        r is Ok <==> rows > 0,
        r matches Ok(reply) ==> is_ok_reply(reply, "更新成功"@),
        r matches Err(e) ==> is_refusal(e, "待办事项不存在"@),
{
    if rows > 0 {
        Ok(ok_reply("更新成功"))
    } else {
        Err(refusal("待办事项不存在"))
    }
}

/// The answer of `delete`, given how many items it removed.
pub fn delete_outcome(rows: usize) -> (r: Result<Reply, AppError>)
    ensures
        r is Ok <==> rows > 0,
        r matches Ok(reply) ==> is_ok_reply(reply, "删除成功"@),
        r matches Err(e) ==> is_refusal(e, "没有找到对应的id"@),
{
    if rows > 0 {
        Ok(ok_reply("删除成功"))
    } else {
        Err(refusal("没有找到对应的id"))
    }
}

// ---------------------------------------------------------------------------
// notify, cancel_notify
// ---------------------------------------------------------------------------

/// `notify`: records the running reminder of item `info.id`, in place of any
/// recorded before for it.
pub fn notify<H>(tasks: &mut NotifyTasks<H>, info: &Notify, handle: H) -> (r: Reply)
    ensures
        final(tasks)@ == old(tasks)@.insert(info.id, handle),
        is_ok_reply(r, "添加消息通知成功"@),
{
    let _replaced = tasks.insert(info.id, handle);
    ok_reply("添加消息通知成功")
}

/// `cancel_notify`: the recorded reminder of item `info.id`, to be stopped,
/// with the answer. A reminder must have been recorded for the item. The
/// record itself stays.
pub fn cancel_notify<'a, H>(tasks: &'a NotifyTasks<H>, info: &CancelNotify) -> (r: (&'a H, Reply))
    requires
        tasks@.contains_key(info.id),
    ensures
        *r.0 == tasks@[info.id],
        is_ok_reply(r.1, "取消消息通知成功"@),
{
    let h = tasks.get(info.id).unwrap();
    (h, ok_reply("取消消息通知成功"))
}

// ---------------------------------------------------------------------------
// accept_imgs
// ---------------------------------------------------------------------------

/// Where an uploaded picture is stored: `./src/imgs/` and its file name.
pub fn image_path(file_name: &str) -> (p: String)
    ensures
        p@ == "./src/imgs/"@ + file_name@,
{
    let mut p = String::from_str("./src/imgs/");
    p.append(file_name);
    p
}

/// The line logged for an uploaded picture.
pub fn upload_log_line(name: &str, file_name: &str, content_type: &str, len: usize) -> (s: String)
    ensures
        s@ == "Length of `"@ + name@ + "` (`"@ + file_name@ + "`: `"@ + content_type@
            + "`) is "@ + nat_text(len as nat) + " bytes"@,
{
    let mut s = String::from_str("Length of `");
    s.append(name);
    s.append("` (`");
    s.append(file_name);
    s.append("`: `");
    s.append(content_type);
    s.append("`) is ");
    s.append(u64_text(len as u64).as_str());
    s.append(" bytes");
    s
}

} // verus!

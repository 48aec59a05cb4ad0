use vstd::prelude::*;

verus! {

/// A stored to-do item.
#[derive(Debug)]
pub struct TodoItem {
    pub id: i32,
    pub owner: String,
    pub title: String,
    pub content: String,
    pub status: bool,
    pub create_at: String,
    pub start_time: i64,
}

/// A to-do item as a client submits it; the service fills in the owner and
/// the creation time.
#[derive(Debug)]
pub struct NewTodoItem {
    pub owner: Option<String>,
    pub title: String,
    pub content: String,
    pub status: Option<bool>,
    pub create_at: Option<String>,
    pub start_time: i64,
}

/// New contents for an existing to-do item.
#[derive(Debug)]
pub struct UpdateTodoItem {
    pub id: i32,
    pub title: String,
    pub content: String,
    pub status: bool,
    pub start_time: i64,
}

/// Which items a listing returns: all of them, or those with the given status.
#[derive(Debug)]
pub struct QueryCondition {
    pub status: Option<bool>,
}

/// A request to be reminded of an item before it starts.
#[derive(Debug)]
pub struct Notify {
    pub id: i32,
    pub phone: String,
    pub title: String,
    pub content: String,
    pub start_time: i64,
}

/// A request to withdraw the reminder of an item.
#[derive(Debug)]
pub struct CancelNotify {
    pub id: i32,
}

} // verus!

use vstd::prelude::*;
use std::collections::HashMap;
use crate::models::todo_item::TodoItem;

verus! {

/// An error answered to a client: a status code and a message.
#[derive(Debug)]
pub struct AppError {
    pub code: i32,
    pub msg: String,
}

impl AppError {
    /// Builds an error from its code and message.
    pub fn err(code: i32, msg: String) -> (e: AppError)
        ensures
            e.code == code,
            e.msg@ == msg@,
    {
        AppError { code, msg }
    }
}

/// An error with code 500 and the given message.
pub open spec fn is_refusal(e: AppError, msg: Seq<char>) -> bool {
    e.code == 500 && e.msg@ == msg
}

/// What a successful answer carries besides its code and message.
#[derive(Debug)]
pub enum ReplyData {
    Nothing,
    Token(String),
    Lists(Vec<TodoItem>),
}

/// A successful answer to a client.
#[derive(Debug)]
pub struct Reply {
    pub code: i32,
    pub msg: String,
    pub data: ReplyData,
}

/// A successful answer with code 200, the given message and nothing else.
pub open spec fn is_ok_reply(r: Reply, msg: Seq<char>) -> bool {
    r.code == 200 && r.msg@ == msg && r.data is Nothing
}

/// A successful answer with code 200 and the message `msg`.
pub(crate) fn ok_reply(msg: &str) -> (r: Reply)
    ensures
        is_ok_reply(r, msg@),
{
    Reply { code: 200, msg: String::from_str(msg), data: ReplyData::Nothing }
}

/// A refusal with code 500 and the message `msg`.
pub(crate) fn refusal(msg: &str) -> (e: AppError)
    ensures
        is_refusal(e, msg@),
{
    AppError::err(500, String::from_str(msg))
}

/// The reminders that are running, by the id of the item each one is for.
pub struct NotifyTasks<H> {
    tasks: HashMap<i32, H>,
}

impl<H> View for NotifyTasks<H> {
    type V = Map<i32, H>;

    closed spec fn view(&self) -> Map<i32, H> {
        self.tasks@
    }
}

impl<H> NotifyTasks<H> {
    /// No reminder running.
    pub fn new() -> (t: NotifyTasks<H>)
        ensures
            t@ == Map::<i32, H>::empty(),
    {
        NotifyTasks { tasks: HashMap::new() }
    }

    /// Records the reminder of item `id`; one recorded before for the same
    /// item is handed back (and no longer recorded).
    pub fn insert(&mut self, id: i32, handle: H) -> (previous: Option<H>)
        ensures
            final(self)@ == old(self)@.insert(id, handle),
            match previous {
                Some(h) => old(self)@.contains_key(id) && h == old(self)@[id],
                None => !old(self)@.contains_key(id),
            },
    {
        broadcast use vstd::std_specs::hash::group_hash_axioms;

        self.tasks.insert(id, handle)
    }

    /// The reminder recorded for item `id`, if any.
    pub fn get(&self, id: i32) -> (found: Option<&H>)
        ensures
            match found {
                Some(h) => self@.contains_key(id) && *h == self@[id],
                None => !self@.contains_key(id),
            },
    {
        broadcast use vstd::std_specs::hash::group_hash_axioms;

        self.tasks.get(&id)
    }
}

/// Recording the reminder of an item and then looking that item up finds the
/// reminder just recorded; the reminders of all other items are untouched.
pub proof fn lemma_recorded_reminder_found<H>(before: Map<i32, H>, id: i32, handle: H)
    ensures
        before.insert(id, handle).contains_key(id),
        before.insert(id, handle)[id] == handle,
        forall|other: i32|
            other != id ==> (#[trigger] before.insert(id, handle).contains_key(other)
                <==> before.contains_key(other)),
        forall|other: i32|
            other != id && before.contains_key(other) ==> #[trigger] before.insert(
                id,
                handle,
            )[other] == before[other],
{
}

} // verus!

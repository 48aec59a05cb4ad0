pub mod todo_item;
pub mod users;

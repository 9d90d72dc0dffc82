pub mod chinese;
pub mod utc;

pub mod date;
pub mod ikigai_error;

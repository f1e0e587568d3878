pub mod hero;
pub mod routing;
pub mod session;
pub mod text;
pub mod todo;

pub mod command;
pub mod decimal;
mod le;
pub mod stream;
pub mod tag;
pub mod text;
pub mod value;

pub use command::{parse_command, Command};
pub use tag::TypeTag;
pub use text::same_text;
pub use value::Value;

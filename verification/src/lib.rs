pub mod lang;
pub mod text;
pub mod vm;

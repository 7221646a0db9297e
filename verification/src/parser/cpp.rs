pub mod alias;
pub mod cenum;
pub mod class;
pub mod comment;
pub mod ctype;
pub mod header;
pub mod member;
pub mod method;
pub mod namespace;
pub mod template;
pub mod variable;

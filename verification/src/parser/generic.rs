pub mod annotation;
pub mod class;
pub mod comment;
pub mod member;
pub mod method;
pub mod namespace;

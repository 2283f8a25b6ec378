pub mod ast;
pub mod check;
pub mod convert;
pub mod gd_type;
pub mod infer_type;
pub mod kinds;
pub mod parse;
pub mod resolve;
pub mod resolve_type;
pub mod rules;

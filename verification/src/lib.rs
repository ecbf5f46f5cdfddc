use vstd::prelude::*;

pub mod jvalue;
pub mod text;
pub mod pattern;
pub mod url_util;
pub mod page;
pub mod wc_handler;
pub mod js_css;

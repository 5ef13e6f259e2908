#![allow(unused_imports)]

use vstd::prelude::*;

pub mod build_diagram;
pub mod extract;
pub mod laws;
pub mod model;
pub mod parse;
pub mod strutil;
pub mod syntax;

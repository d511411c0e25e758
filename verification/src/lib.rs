#![allow(unused_imports)]

use vstd::prelude::*;

pub mod domain;
pub mod json;
pub mod lyrics;
pub mod provider;
pub mod queue;
pub mod queue_laws;
pub mod seqs;
pub mod text;
pub mod text_laws;
pub mod ui;
pub mod web_url;

verus! {

} // verus!

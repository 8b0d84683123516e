use vstd::prelude::*;

pub mod text;
pub mod expr;
pub mod answer;
pub mod verify;
pub mod offline;
pub mod ai;
pub mod config;
pub mod knowledge;
pub mod generate;
pub mod draft;
pub mod paper;
pub mod quality;
pub mod strset;
pub mod curriculum;
pub mod ebook;
pub mod local_paper;
pub mod appsj;
pub mod lesson_plan;
pub mod templates;
pub mod secret;
pub mod review;
pub mod pattern;
pub mod dzkbw;
pub mod store;
pub mod history;
pub mod bank;
pub mod contracts;
pub mod rework;
pub mod storage;
pub mod printing;
pub mod readback;

verus! {
} // verus!

//! Double theories and the open-tree composition algebra.

pub mod category;
pub mod discrete;
pub mod labels;
pub mod path;
pub mod tab;
pub mod tables;
pub mod theory;
pub mod tree;
pub mod user;

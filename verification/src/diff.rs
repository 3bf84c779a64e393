//! Helpers for walking two sequences side by side when they are compared.

pub mod check;
pub mod internal;
pub mod merge_join;
pub mod put_back;
pub mod zip_longest;

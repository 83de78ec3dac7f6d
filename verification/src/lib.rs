//! A singly-linked LIFO stack with verified push/pop/peek operations,
//! three iteration modes, and iterative (non-recursive) teardown.

pub mod stack;

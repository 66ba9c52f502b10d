pub mod bits;
pub mod bus;
pub mod hart;
pub mod instruction;
pub mod laws;
pub mod privilege;

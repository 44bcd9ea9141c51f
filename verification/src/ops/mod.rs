//! The operations of the stack, one module per family.

pub mod addr;
pub mod commission;
pub mod discovery;
pub mod fabrics;
pub mod interact;
pub mod window;

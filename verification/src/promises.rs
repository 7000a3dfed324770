//! What each operation is for, said of what goes into it and what comes out of it.
//!
//! Nothing here goes by the definitions that the operations are written with. A law speaks of the
//! contract of the operation itself, of the fields of the values that it takes and gives, and of
//! what Symphonia says of a medium; where it names a definition of this crate, another law here says
//! what that definition comes to.

pub mod decoding;
pub mod messages;
pub mod opening;
pub mod reading;
pub mod record;

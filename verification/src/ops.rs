//! The operation surface: scalar broadcasts, reductions, transposition and
//! diagonal construction, each declared as a capability trait a device type
//! implements, so that a call site resolves to the owning device's
//! implementation statically.
pub mod diagflat;
pub mod scalar;
pub mod sum;
pub mod transpose;

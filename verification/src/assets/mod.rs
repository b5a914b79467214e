//! Asset bookkeeping: the named asset pool, the loaders' state and the
//! project description.

pub mod io;
pub mod pool;
pub mod project;

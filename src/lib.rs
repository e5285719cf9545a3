//! A fixed-capacity worker pool that activates its workers lazily.
//!
//! The library holds the pool's bookkeeping and dispatch policy as verified
//! code, generic over the job type, the channel's sending and receiving
//! handles and the handle of a spawned thread. The code that owns real
//! threads and channels supplies those pieces and runs what the library
//! decides.

pub mod laws;
pub mod model;
pub mod pool;
pub mod worker;

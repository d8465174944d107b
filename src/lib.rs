//! A bootstrap allocator that serves byte allocations forward from the low
//! end of one fixed region and page allocations backward from its high end.
//!
//! ```text
//! [ bytes-used | avail-area | pages-used ]
//! |            | -->    <-- |            |
//! start      byte_pos    page_pos       end
//! ```
//!
//! `region` holds the abstract model: the state, the effect of each request
//! and the queries. `early` holds the executable allocator, whose every
//! operation is proved to follow that model. `laws` proves what holds of
//! every run: the cursors stay ordered, all-or-nothing reclamation, and where
//! the page side runs out.
pub mod early;
pub mod laws;
pub mod region;

pub use early::{AllocError, EarlyAllocator};

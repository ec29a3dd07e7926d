//! Dense matrix multiplication kernels over column-major buffers.
//!
//! The scalar type is generic: its arithmetic is handed in as closures, so the
//! same verified kernels serve `f64` (the usual case) or any other number type.
//! Every kernel writes each cell of the output exactly once, and its contract
//! says which sum each cell holds.
mod blocked;
mod direct;
mod dispatch;
mod dot;
mod laws;
mod layout;
mod parallel;
mod scalar;

pub use blocked::{blocked_acc, blocked_cell, rust_mm_blocked, tile_start, BLOCK_SIZE};
pub use direct::{direct_cell, rust_mm_optimized};
pub use dispatch::{is_small, rust_mm_auto, select_kernel, Kernel, THRESHOLD};
pub use dot::dot_from;
pub use laws::{is_exact_sum, lemma_kernels_agree_when_exact, lemma_zero_depth};
pub use layout::{
    col_major, lemma_offset_in_bounds, lemma_offset_injective, row_major, MatrixView,
};
pub use scalar::{apply2, apply3, is_function2, is_function3};

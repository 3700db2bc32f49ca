pub mod allocation;
pub mod altivec;
pub mod author;
pub mod bit_mask;
pub mod byte_order;
pub mod cargo_clippy;
pub mod constant_order;
pub mod consts;
pub mod counter_loop;
pub mod dump;
pub mod error;
pub mod fixtures;
pub mod hir;
pub mod int_plus_one;
pub mod lock;
pub mod locking;
pub mod loop_nest;
pub mod loops;
pub mod map_unit_fn;
pub mod memory;
pub mod messages;
pub mod mutex_atomic;
pub mod ordered_keys;
pub mod panic_params;
pub mod pointer;
pub mod reports;
pub mod scripter;
pub mod serde_api;
pub mod text;
pub mod undef_mask;
pub mod unit_expr;
pub mod used_after;

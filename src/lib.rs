//! Constant-product liquidity pool: the pricing and share-accounting core.
//!
//! Every operation reads a fresh reserve snapshot, computes what must move, and
//! validates that the outcome is admissible. Moving funds is left to the custody
//! layer, which receives the computed amounts as plain values.
pub mod errors;
pub mod instruction;
pub mod key;
pub mod liquidity;
pub mod math;
pub mod registry;
pub mod state;
pub mod swap;

pub use errors::ErrorCode;
pub use instruction::{handler, AddLiquidity, AddLiquidityOrders, MintTo, Transfer};
pub use liquidity::{add_liquidity, remove_liquidity, Deposit, Withdrawal};
pub use registry::PoolRegistry;
pub use state::{initialize_pool, Pool, Reserves};
pub use swap::{effective_amount_in, get_amount_out, swap, SwapOutcome};

//! Shared-memory ring channels for exchange market data, with verified cursor
//! arithmetic, fixed-size text fields and feed decisions.
use vstd::prelude::*;

pub mod dump;
pub mod error;
pub mod layout;
pub mod listing;
pub mod quot;
pub mod ring;
pub mod ring_laws;
pub mod shm_chan;
pub mod text;
pub mod v1;

pub use crate::error::ChannelError;
pub use crate::shm_chan::{ChannelConfig, ReaderStart, ShmInfo};
pub use crate::v1::{read_fixed, write_fixed};

verus! {

/// Channel capacity: one day of per-second data.
pub const CHANNEL_CAP: usize = 8640000;

pub const CH_KLINE_V1: &'static str = "CTPKlineV1";
pub const CH_TRADE_V1: &'static str = "CTPTradeV1";
pub const CH_ORDER_V1: &'static str = "CTPOrderV1";
pub const CH_SNAPSHOT_V1: &'static str = "CTPSnapshotV1";

pub const ORDER_STATUS_NEW: i32 = 1;
pub const ORDER_STATUS_PARTIAL: i32 = 2;
pub const ORDER_STATUS_FILLED: i32 = 3;
pub const ORDER_STATUS_CANCELLED: i32 = 4;

pub const SIDE_OPEN_LONG: i32 = 10;
pub const SIDE_CLOSE_LONG: i32 = 11;
pub const SIDE_OPEN_SHORT: i32 = 20;
pub const SIDE_CLOSE_SHORT: i32 = 21;

/// Spot.
pub const COIN_TYPE_SPOT: i32 = 300;
/// Margin.
pub const COIN_TYPE_MARGIN: i32 = 301;
/// Perpetual swap.
pub const COIN_TYPE_SWAP: i32 = 400;
/// Dated futures.
pub const COIN_TYPE_FUTURES: i32 = 401;
/// Option.
pub const COIN_TYPE_OPTION: i32 = 402;

/// Limit order.
pub const ORDER_TYPE_LIMIT: i32 = 1000;
/// Market order.
pub const ORDER_TYPE_MARKET: i32 = 1001;
/// Post-only order.
pub const ORDER_TYPE_POST_ONLY: i32 = 1002;
/// Fill or kill.
pub const ORDER_TYPE_FOK: i32 = 1003;
/// Immediate or cancel.
pub const ORDER_TYPE_IOC: i32 = 1004;
/// Market order, immediate or cancel.
pub const ORDER_TYPE_OPTIMAL_LIMIT_IOC: i32 = 1005;

/// Binance.
pub const EXCHID_BINANCE: i32 = 4000;
/// OKX.
pub const EXCHID_OKX: i32 = 4001;

} // verus!

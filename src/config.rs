//! Configuration records and the defaults of optional settings.
use vstd::prelude::*;
use vstd::string::StringExecFns;

verus! {

pub struct BybitConfig {
    pub api_key: Option<String>,
    pub api_secret: Option<String>,
    pub testnet: bool,
    pub ws_url: String,
    pub rest_url: String,
}

pub struct PerformanceConfig {
    pub enable_metrics: bool,
    pub metrics_port: u16,
    pub log_level: String,
    pub orderbook_depth: usize,
}

pub struct TelegramConfig {
    pub enabled: bool,
    pub bot_token: Option<String>,
    pub chat_id: Option<String>,
}

/// Periods over which the average true range is taken.
pub fn default_atr_period() -> (r: usize)
    ensures
        r == 14,
{
    14
}

/// Protective orders are placed on the exchange.
pub fn default_use_native_sltp() -> (r: bool)
    ensures
        r,
{
    true
}

/// Protective orders execute at market.
pub fn default_sltp_order_type() -> (r: String)
    ensures
        r@ == "Market"@,
{
    String::from_str("Market")
}

/// Protective orders trigger on the last traded price.
pub fn default_sltp_trigger_by() -> (r: String)
    ensures
        r@ == "LastPrice"@,
{
    String::from_str("LastPrice")
}

/// Positions are also watched locally, besides the exchange's protective orders.
pub fn default_keep_software_monitoring() -> (r: bool)
    ensures
        r,
{
    true
}

/// Depths at which imbalance is measured.
pub fn default_depth_levels() -> (r: Vec<usize>)
    ensures
        r@ == seq![5usize, 10usize, 20usize],
{
    vec![5, 10, 20]
}

/// Windows, in milliseconds, over which volume rates are measured.
pub fn default_delta_windows() -> (r: Vec<u64>)
    ensures
        r@ == seq![1000u64, 5000u64, 30000u64],
{
    vec![1000, 5000, 30000]
}

/// Whale threshold over the average order size, in millionths.
pub fn default_whale_threshold() -> (r: u32)
    ensures
        r == 3_000_000,
{
    3_000_000
}

/// The book validator is on.
pub fn default_validation_enabled() -> (r: bool)
    ensures
        r,
{
    true
}

/// Spread multiplier over the normal maximum, in millionths.
pub fn default_max_spread_multiplier() -> (r: u32)
    ensures
        r == 3_000_000,
{
    3_000_000
}

/// Liquidity multiplier over the normal minimum, in millionths.
pub fn default_min_liquidity_multiplier() -> (r: u32)
    ensures
        r == 250_000,
{
    250_000
}

/// Book data older than this, in milliseconds, is stale.
pub fn default_max_data_age_ms() -> (r: u64)
    ensures
        r == 5000,
{
    5000
}

/// Levels needed on each side of the book.
pub fn default_min_depth_levels() -> (r: usize)
    ensures
        r == 5,
{
    5
}

} // verus!

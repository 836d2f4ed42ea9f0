//! The decisions of the periodic monitoring cycle, apart from the I/O that carries them
//! out: when to open a position, when to close one, when to report, and how large an
//! order is.
use vstd::prelude::*;
use crate::fixed::SCALE;
use crate::strategy::{ExitReason, TradingSide};

verus! {

/// Cycles between two summaries.
pub const SUMMARY_INTERVAL: u32 = 60;

/// What the monitor remembers from one cycle to the next.
#[derive(Debug, Clone, Copy, PartialEq, Eq)]
pub struct MonitorState {
    /// Cycles left before another order may be placed.
    pub trade_cooldown: u64,
    /// Cycles since the last summary.
    pub summary_counter: u32,
}

/// What a cycle has learned from the book, the strategy and the position.
#[derive(Debug, Clone, Copy, PartialEq, Eq)]
pub struct CycleInput {
    pub has_position: bool,
    /// The strategy's signal clears its thresholds.
    pub should_trade: bool,
    /// The side the signal's bias trades on, if any.
    pub side: Option<TradingSide>,
    /// Exit condition of the open position at the current price, if any.
    pub exit: Option<ExitReason>,
    pub keep_software_monitoring: bool,
}

/// What a cycle should do.
#[derive(Debug, Clone, Copy, PartialEq, Eq)]
pub struct CyclePlan {
    /// Place an order on this side.
    pub open: Option<TradingSide>,
    /// Close the open position for this reason.
    pub close: Option<ExitReason>,
    /// Send the periodic summary.
    pub send_summary: bool,
}

impl MonitorState {
    pub fn new() -> (r: Self)
        ensures
            r == (MonitorState { trade_cooldown: 0, summary_counter: 0 }),
    {
        MonitorState { trade_cooldown: 0, summary_counter: 0 }
    }

    /// One cycle: the cooldown counts down; an order is placed when there is no position,
    /// no cooldown, a tradable signal and a side; a monitored position is closed on its
    /// exit condition; every `SUMMARY_INTERVAL` cycles a summary is sent.
    pub fn plan_cycle(&mut self, input: CycleInput) -> (r: CyclePlan)
        ensures
            final(self).trade_cooldown == if old(self).trade_cooldown > 0 { (old(self).trade_cooldown - 1) as u64 } else { 0 },
            r.open == if !input.has_position && final(self).trade_cooldown == 0 && input.should_trade {
                input.side
            } else {
                None::<TradingSide>
            },
            r.close == if input.has_position && input.keep_software_monitoring { input.exit } else { None::<ExitReason> },
            r.send_summary == (old(self).summary_counter as int + 1 >= SUMMARY_INTERVAL),
            final(self).summary_counter == if r.send_summary { 0 } else { (old(self).summary_counter + 1) as u32 },
    {
        if self.trade_cooldown > 0 {
            self.trade_cooldown = self.trade_cooldown - 1;
        }
        let open = if !input.has_position && self.trade_cooldown == 0 && input.should_trade {
            input.side
        } else {
            None
        };
        let close = if input.has_position && input.keep_software_monitoring {
            input.exit
        } else {
            None
        };
        let send_summary = self.summary_counter as u64 + 1 >= SUMMARY_INTERVAL as u64;
        self.summary_counter = if send_summary {
            0
        } else {
            self.summary_counter + 1
        };
        CyclePlan { open, close, send_summary }
    }

    /// After an order was placed, no other may be placed for `cooldown_cycles` cycles.
    pub fn order_placed(&mut self, cooldown_cycles: u64)
        ensures
            final(self).trade_cooldown == cooldown_cycles,
            final(self).summary_counter == old(self).summary_counter,
    {
        self.trade_cooldown = cooldown_cycles;
    }
}

/// Lots of an order worth `notional` at `price` (both in ticks times lots), rounded to the
/// nearest lot, scaled by `size_multiplier` (millionths, rounded down) and kept within
/// `[min_lots, max_lots]`.
pub open spec fn order_lots_of(notional: u64, price: u64, size_multiplier: u32, min_lots: u64, max_lots: u64) -> int {
    let base = (2 * notional + price) / (2 * price);
    let scaled = base * size_multiplier / (SCALE as int);
    if scaled < min_lots {
        min_lots as int
    } else if scaled > max_lots {
        max_lots as int
    } else {
        scaled
    }
}

pub fn order_lots(notional: u64, price: u64, size_multiplier: u32, min_lots: u64, max_lots: u64) -> (r: u64)
    requires
        price > 0,
        min_lots <= max_lots,
    ensures
        r == order_lots_of(notional, price, size_multiplier, min_lots, max_lots),
{
    let base: u128 = (2 * notional as u128 + price as u128) / (2 * price as u128);
    assert(base <= 2 * notional as u128 + price as u128) by {
        vstd::arithmetic::div_mod::lemma_div_is_ordered_by_denominator((2 * notional as u128 + price as u128) as int, 1, 2 * price as int);
    }
    assert(base * size_multiplier as u128 <= 0x3_0000_0000_0000_0000u128 * 0xFFFF_FFFFu128) by (nonlinear_arith)
        requires
            base <= 0x3_0000_0000_0000_0000u128,
            size_multiplier <= 0xFFFF_FFFFu32,
    ;
    let scaled: u128 = base * size_multiplier as u128 / 1_000_000;
    if scaled < min_lots as u128 {
        min_lots
    } else if scaled > max_lots as u128 {
        max_lots
    } else {
        scaled as u64
    }
}

} // verus!

use vstd::prelude::*;
use vstd::string::*;

use crate::errors::{AppError, AppResult};
use crate::events::{matches_asset, MarketEvent};
use crate::indicators::{lemma_ma_next_many_snoc, ma_next, ma_next_many, seeded, MovingAverage};
use crate::math::{lemma_sum_of_bound, spec_decimal, sum_of, MeanValue};
use crate::orders::{OrderIntent, OrderSide, OrderTif};
use crate::position_manager::{spec_net, FillEvent, PositionManager};
use crate::rate_limiter::{count_in, OrderRateLimiter};
use crate::strategy::{EventOutcome, Strategy, StrategyResponse};

verus! {

/// Largest event price the fixed-point slippage adjustment can carry
/// without leaving the representable range.
pub const MAX_EVENT_PRICE: i64 = 0x3fff_ffff_ffff_ffff;

/// Parameters of the moving-average crossover strategy.  Prices and sizes
/// are fixed-point (units of `10^-8`); windows are counts of observations.
#[derive(Debug, Clone)]
pub struct MaCrossoverParams {
    pub asset: String,
    pub short_window: usize,
    pub long_window: usize,
    pub trade_size: String,
    pub candle_interval: String,
    pub slippage_bps: u32,
    pub max_position: i64,
    pub max_order_rate_per_min: u32,
    pub bootstrap_candles: usize,
}

pub fn default_trade_size() -> (r: String)
    ensures
        r@ == "0.01"@,
{
    String::from_str("0.01")
}

pub fn default_interval() -> (r: String)
    ensures
        r@ == "1m"@,
{
    String::from_str("1m")
}

pub fn default_slippage_bps() -> (r: u32)
    ensures
        r == 5,
{
    5
}

/// Five hundredths, in fixed-point units.
pub fn default_max_position() -> (r: i64)
    ensures
        r == 5_000_000,
{
    5_000_000
}

pub fn default_order_rate_limit() -> (r: u32)
    ensures
        r == 30,
{
    30
}

pub fn default_bootstrap_candles() -> (r: usize)
    ensures
        r == 200,
{
    200
}

/// The direction last acted upon; it can diverge transiently from the
/// sign of the actual net position until a fill resynchronizes it.
#[derive(Debug, Clone, Copy, PartialEq, Eq, Structural)]
pub enum SignalSide {
    Long,
    Short,
    Flat,
}

/// The serializable state a crossover strategy needs to resume: both
/// indicator windows and the last acted-upon signal.
#[derive(Debug, Clone)]
pub struct MaCrossoverSnapshot {
    pub short_values: Vec<i64>,
    pub long_values: Vec<i64>,
    pub last_signal: SignalSide,
}

/// The sign of a comparison of two exact means: `Long` when the first
/// mean is greater, `Short` when smaller, `Flat` when equal.
pub open spec fn spec_signal(s_sum: int, s_cnt: int, l_sum: int, l_cnt: int) -> SignalSide {
    if s_sum * l_cnt > l_sum * s_cnt {
        SignalSide::Long
    } else if s_sum * l_cnt < l_sum * s_cnt {
        SignalSide::Short
    } else {
        SignalSide::Flat
    }
}

/// The order side that pursues a signal direction.  A flat signal never
/// reaches an order, so its mapping here is immaterial: every use is
/// guarded by the signal not being flat.
pub open spec fn side_of(sig: SignalSide) -> OrderSide {
    if sig is Long {
        OrderSide::Buy
    } else {
        OrderSide::Sell
    }
}

/// An order only reduces an existing position when it runs against the
/// sign of the current net.
pub open spec fn spec_reduce_only(side: OrderSide, net: int) -> bool {
    (side is Buy && net < 0) || (side is Sell && net > 0)
}

/// Reduce-only orders bypass the cap; an increasing order is admitted
/// only while the net position has not reached the cap on its side.
pub open spec fn spec_within_cap(side: OrderSide, net: int, cap: int, reduce_only: bool) -> bool {
    if reduce_only {
        true
    } else if side is Buy {
        net < cap
    } else {
        net > -cap
    }
}

/// The slippage-adjusted limit price: inflated by the basis-point offset
/// for buys, deflated for sells.
pub open spec fn spec_limit_px(price: int, bps: int, side: OrderSide) -> int {
    if side is Buy {
        (price * (10_000 + bps)) / 10_000
    } else {
        (price * (10_000 - bps)) / 10_000
    }
}

/// The sign of a net position, as a signal direction.
pub open spec fn spec_sign(net: int) -> SignalSide {
    if net > 0 {
        SignalSide::Long
    } else if net < 0 {
        SignalSide::Short
    } else {
        SignalSide::Flat
    }
}

/// Compares two exact means without rounding, by cross-multiplication.
fn crossover_signal(short: &MeanValue, long: &MeanValue) -> (r: SignalSide)
    requires
        1 <= short.count <= 0x7FFF_FFFF,
        1 <= long.count <= 0x7FFF_FFFF,
        -((short.count as int) * 0x8000_0000_0000_0000) <= short.sum <= (short.count as int)
            * 0x7fff_ffff_ffff_ffff,
        -((long.count as int) * 0x8000_0000_0000_0000) <= long.sum <= (long.count as int)
            * 0x7fff_ffff_ffff_ffff,
    ensures
        r == spec_signal(short.sum as int, short.count as int, long.sum as int, long.count as int),
{
    proof {
        assert(-0x4000_0000_0000_0000_0000_0000_0000_0000 <= (short.sum as int) * (
        long.count as int) <= 0x4000_0000_0000_0000_0000_0000_0000_0000) by (nonlinear_arith)
            requires
                1 <= short.count <= 0x7FFF_FFFF,
                1 <= long.count <= 0x7FFF_FFFF,
                -((short.count as int) * 0x8000_0000_0000_0000) <= short.sum <= (short.count as int)
                    * 0x7fff_ffff_ffff_ffff,
        ;
        assert(-0x4000_0000_0000_0000_0000_0000_0000_0000 <= (long.sum as int) * (
        short.count as int) <= 0x4000_0000_0000_0000_0000_0000_0000_0000) by (nonlinear_arith)
            requires
                1 <= short.count <= 0x7FFF_FFFF,
                1 <= long.count <= 0x7FFF_FFFF,
                -((long.count as int) * 0x8000_0000_0000_0000) <= long.sum <= (long.count as int)
                    * 0x7fff_ffff_ffff_ffff,
        ;
    }
    let lhs: i128 = short.sum * (long.count as i128);
    let rhs: i128 = long.sum * (short.count as i128);
    if lhs > rhs {
        SignalSide::Long
    } else if lhs < rhs {
        SignalSide::Short
    } else {
        SignalSide::Flat
    }
}

/// The moving-average crossover strategy: two windows over the same close
/// series; a change of the sign of their difference, relative to the last
/// acted-upon signal, asks for an order in the new direction, subject to
/// the rate limiter and the position cap.
pub struct MaCrossoverStrategy {
    pub params: MaCrossoverParams,
    pub short_ma: MovingAverage,
    pub long_ma: MovingAverage,
    pub last_signal: SignalSide,
    pub snapshot_key: String,
    pub bootstrapped: bool,
    pub rate_limiter: OrderRateLimiter,
}

impl MaCrossoverStrategy {
    pub open spec fn wf(&self) -> bool {
        &&& self.short_ma.wf()
        &&& self.long_ma.wf()
        &&& self.short_ma.period == self.params.short_window
        &&& self.long_ma.period == self.params.long_window
        &&& self.params.short_window < self.params.long_window
        &&& self.params.long_window <= 0x7FFF_FFFF
        &&& self.params.slippage_bps <= 10_000
        &&& self.params.max_position >= 0
        &&& self.rate_limiter.wf()
    }

    /// The short window after this price is pushed.
    pub open spec fn next_short(pre: Self, price: i64) -> Seq<i64> {
        ma_next(pre.short_ma.window@, pre.params.short_window as nat, price)
    }

    /// The long window after this price is pushed.
    pub open spec fn next_long(pre: Self, price: i64) -> Seq<i64> {
        ma_next(pre.long_ma.window@, pre.params.long_window as nat, price)
    }

    /// Whether both means exist once this price is pushed.
    pub open spec fn both_full_after(pre: Self, price: i64) -> bool {
        &&& Self::next_short(pre, price).len() == pre.params.short_window
        &&& pre.params.short_window > 0
        &&& Self::next_long(pre, price).len() == pre.params.long_window
    }

    /// The crossover signal once this price is pushed.
    pub open spec fn target_after(pre: Self, price: i64) -> SignalSide {
        spec_signal(
            sum_of(Self::next_short(pre, price)),
            pre.params.short_window as int,
            sum_of(Self::next_long(pre, price)),
            pre.params.long_window as int,
        )
    }

    /// The intent an admitted evaluation emits.
    pub open spec fn spec_intent(pre: Self, price: i64, net: int, i: OrderIntent) -> bool {
        let tgt = Self::target_after(pre, price);
        let side = side_of(tgt);
        &&& i.asset@ == pre.params.asset@
        &&& i.side == side
        &&& i.size@ == pre.params.trade_size@
        &&& i.limit_px@ == spec_decimal(
            spec_limit_px(price as int, pre.params.slippage_bps as int, side),
        )
        &&& i.tif is Ioc
        &&& i.reduce_only == spec_reduce_only(side, net)
        &&& i.cloid is None
        &&& i.client_tag@ == if tgt is Long {
            "ma_cross_Long"@
        } else {
            "ma_cross_Short"@
        }
    }

    /// The exact relation one evaluation step establishes: both windows
    /// advance by the price; a decision is attempted only when both means
    /// exist and the signal differs from the last acted-upon one and is
    /// not flat; the rate limiter is consulted exactly then; and an intent
    /// comes out exactly when the limiter grants and the cap admits.
    pub open spec fn evaluate_post(
        pre: Self,
        post: Self,
        price: i64,
        net: i64,
        now_ms: u64,
        out: Option<OrderIntent>,
    ) -> bool {
        let tgt = Self::target_after(pre, price);
        let active = Self::both_full_after(pre, price) && !(tgt is Flat) && tgt
            != pre.last_signal;
        let eff = if now_ms > pre.rate_limiter.latest {
            now_ms
        } else {
            pre.rate_limiter.latest
        };
        let granted = count_in(
            pre.rate_limiter.admitted@,
            eff - pre.rate_limiter.window_millis,
            eff as int,
        ) < pre.rate_limiter.max_per_minute;
        let side = side_of(tgt);
        let ro = spec_reduce_only(side, net as int);
        let accepted = granted && spec_within_cap(side, net as int, pre.params.max_position as int, ro);
        &&& post.params == pre.params
        &&& post.bootstrapped == pre.bootstrapped
        &&& post.snapshot_key == pre.snapshot_key
        &&& post.short_ma.period == pre.short_ma.period
        &&& post.long_ma.period == pre.long_ma.period
        &&& post.short_ma.window@ == Self::next_short(pre, price)
        &&& post.long_ma.window@ == Self::next_long(pre, price)
        &&& !active ==> (out is None && post.last_signal == pre.last_signal && post.rate_limiter
            == pre.rate_limiter)
        &&& active ==> {
            &&& post.rate_limiter.latest == eff
            &&& post.rate_limiter.max_per_minute == pre.rate_limiter.max_per_minute
            &&& post.rate_limiter.window_millis == pre.rate_limiter.window_millis
            &&& post.rate_limiter.admitted@ == if granted {
                pre.rate_limiter.admitted@.push(eff)
            } else {
                pre.rate_limiter.admitted@
            }
            &&& out is Some <==> accepted
            &&& (out matches Some(i) ==> Self::spec_intent(pre, price, net as int, i))
            &&& post.last_signal == if accepted {
                tgt
            } else {
                pre.last_signal
            }
        }
    }

    /// Whether an increasing order on this side stays under the cap.
    pub fn within_limits(&self, net_position: i64, side: &OrderSide, reduce_only: bool) -> (r:
        bool)
        requires
            self.params.max_position >= 0,
        ensures
            r == spec_within_cap(
                *side,
                net_position as int,
                self.params.max_position as int,
                reduce_only,
            ),
    {
        if reduce_only {
            return true;
        }
        match side {
            OrderSide::Buy => net_position < self.params.max_position,
            OrderSide::Sell => net_position > -self.params.max_position,
        }
    }

    /// The slippage-adjusted limit price, rendered canonically.
    pub fn limit_price(&self, price: i64, side: &OrderSide) -> (r: String)
        requires
            self.params.slippage_bps <= 10_000,
            0 <= price <= MAX_EVENT_PRICE,
        ensures
            r@ == spec_decimal(spec_limit_px(price as int, self.params.slippage_bps as int, *side)),
    {
        let bps = self.params.slippage_bps as i64;
        let mult: i64 = match side {
            OrderSide::Buy => 10_000 + bps,
            OrderSide::Sell => 10_000 - bps,
        };
        proof {
            assert(0 <= (price as int) * (mult as int) <= 0x7fff_ffff_ffff_ffffint * 10_000)
                by (nonlinear_arith)
                requires
                    0 <= price <= 0x3fff_ffff_ffff_ffff,
                    0 <= mult <= 20_000,
            ;
            vstd::arithmetic::div_mod::lemma_div_is_ordered(
                (price as int) * (mult as int),
                0x7fff_ffff_ffff_ffffint * 10_000,
                10_000,
            );
            vstd::arithmetic::div_mod::lemma_div_pos_is_pos((price as int) * (mult as int), 10_000);
        }
        let wide: i128 = (price as i128) * (mult as i128);
        let adjusted: i64 = (wide / 10_000) as i64;
        crate::math::format_decimal(adjusted)
    }

    /// The net position the ledger holds for this strategy's instrument.
    pub fn net_position(&self, positions: &PositionManager) -> (r: i64)
        ensures
            r == spec_net(positions.contents(), self.params.asset@),
    {
        positions.net_position(&self.params.asset)
    }

    /// One decision step on a price for this strategy's instrument.
    pub fn evaluate(&mut self, price: i64, net_position: i64, now_ms: u64) -> (r: Option<
        OrderIntent,
    >)
        requires
            old(self).wf(),
            0 <= price <= MAX_EVENT_PRICE,
        ensures
            final(self).wf(),
            Self::evaluate_post(*old(self), *final(self), price, net_position, now_ms, r),
    {
        let short_m = self.short_ma.update(price);
        let long_m = self.long_ma.update(price);
        let (short, long) = match (short_m, long_m) {
            (Some(s), Some(l)) => (s, l),
            _ => {
                return None;
            },
        };
        proof {
            lemma_sum_of_bound(self.short_ma.window@);
            lemma_sum_of_bound(self.long_ma.window@);
        }
        let target = crossover_signal(&short, &long);
        if target == self.last_signal || matches!(target, SignalSide::Flat) {
            return None;
        }
        if !self.rate_limiter.allow(now_ms) {
            return None;
        }
        let side = if matches!(target, SignalSide::Long) {
            OrderSide::Buy
        } else {
            OrderSide::Sell
        };
        let reduce_only = match side {
            OrderSide::Buy => net_position < 0,
            OrderSide::Sell => net_position > 0,
        };
        if !self.within_limits(net_position, &side, reduce_only) {
            return None;
        }
        let limit_px = self.limit_price(price, &side);
        let tag = if matches!(target, SignalSide::Long) {
            String::from_str("ma_cross_Long")
        } else {
            String::from_str("ma_cross_Short")
        };
        let intent = OrderIntent {
            asset: self.params.asset.clone(),
            side,
            size: self.params.trade_size.clone(),
            limit_px,
            tif: OrderTif::Ioc,
            reduce_only,
            client_tag: tag,
            cloid: None,
        };
        self.last_signal = target;
        Some(intent)
    }

    /// Resynchronizes the acted-upon signal with the sign of the actual
    /// net position; after a fill this is what keeps the state machine
    /// from drifting away from reality.
    pub fn sync_signal_from_positions(&mut self, positions: &PositionManager)
        ensures
            (*final(self) == MaCrossoverStrategy {
                last_signal: spec_sign(spec_net(positions.contents(), old(self).params.asset@)),
                ..*old(self)
            }),
    {
        let net = self.net_position(positions);
        self.last_signal = if net > 0 {
            SignalSide::Long
        } else if net < 0 {
            SignalSide::Short
        } else {
            SignalSide::Flat
        };
    }

    /// The state a restart needs: both windows and the last signal.
    pub fn build_snapshot(&self) -> (r: MaCrossoverSnapshot)
        ensures
            r.short_values@ == self.short_ma.window@,
            r.long_values@ == self.long_ma.window@,
            r.last_signal == self.last_signal,
    {
        MaCrossoverSnapshot {
            short_values: self.short_ma.values(),
            long_values: self.long_ma.values(),
            last_signal: self.last_signal,
        }
    }

    /// Replaces indicator windows and signal with a saved snapshot.
    pub fn restore_from_snapshot(&mut self, snapshot: &MaCrossoverSnapshot)
        ensures
            (*final(self) == MaCrossoverStrategy {
                short_ma: final(self).short_ma,
                long_ma: final(self).long_ma,
                last_signal: snapshot.last_signal,
                ..*old(self)
            }),
            final(self).short_ma.period == old(self).short_ma.period,
            final(self).long_ma.period == old(self).long_ma.period,
            final(self).short_ma.window@ == seeded(
                snapshot.short_values@,
                old(self).short_ma.period as nat,
            ),
            final(self).long_ma.window@ == seeded(
                snapshot.long_values@,
                old(self).long_ma.period as nat,
            ),
            old(self).wf() ==> final(self).wf(),
    {
        self.short_ma.seed(snapshot.short_values.as_slice());
        self.long_ma.seed(snapshot.long_values.as_slice());
        self.last_signal = snapshot.last_signal;
    }
}

/// What a successful construction guarantees: a well-formed strategy
/// carrying the given parameters (with too small a bootstrap count raised
/// to twice the long window), a fresh rate limiter, and the saved state
/// restored when a snapshot was given.
pub open spec fn spec_build_ok(
    params: MaCrossoverParams,
    saved: Option<&MaCrossoverSnapshot>,
    s: MaCrossoverStrategy,
) -> bool {
    &&& s.wf()
    &&& s.params.asset == params.asset
    &&& s.params.short_window == params.short_window
    &&& s.params.long_window == params.long_window
    &&& s.params.trade_size == params.trade_size
    &&& s.params.candle_interval == params.candle_interval
    &&& s.params.slippage_bps == params.slippage_bps
    &&& s.params.max_position == params.max_position
    &&& s.params.max_order_rate_per_min == params.max_order_rate_per_min
    &&& s.params.bootstrap_candles == if params.bootstrap_candles < params.long_window {
        params.long_window * 2
    } else {
        params.bootstrap_candles as int
    }
    &&& s.snapshot_key@ == "ma_crossover_"@ + params.asset@
    &&& s.bootstrapped == saved is Some
    &&& s.rate_limiter.admitted@.len() == 0
    &&& s.rate_limiter.times@.len() == 0
    &&& s.rate_limiter.latest == 0
    &&& s.rate_limiter.window_millis == 60_000
    &&& s.rate_limiter.max_per_minute == if params.max_order_rate_per_min >= 1 {
        params.max_order_rate_per_min as int
    } else {
        1
    }
    &&& (saved matches Some(snap) ==> s.short_ma.window@ == seeded(
        snap.short_values@,
        params.short_window as nat,
    ) && s.long_ma.window@ == seeded(snap.long_values@, params.long_window as nat)
        && s.last_signal == snap.last_signal)
    &&& (saved is None ==> s.short_ma.window@.len() == 0 && s.long_ma.window@.len() == 0
        && s.last_signal is Flat)
}

/// Builds a crossover strategy from validated parameters and, when a
/// snapshot from an earlier run exists, restores it immediately.
pub struct MaCrossoverBuilder;

impl MaCrossoverBuilder {
    /// Constructs the strategy, failing on a malformed configuration: the
    /// short window must be strictly smaller than the long one.  When too
    /// few bootstrap candles are configured, twice the long window is
    /// used.  A saved snapshot, when given, is restored and marks the
    /// strategy bootstrapped.
    pub fn build(params: MaCrossoverParams, saved: Option<&MaCrossoverSnapshot>) -> (r: AppResult<
        MaCrossoverStrategy,
    >)
        requires
            params.long_window <= 0x7FFF_FFFF,
            params.slippage_bps <= 10_000,
            params.max_position >= 0,
        ensures
            r is Ok <==> params.short_window < params.long_window,
            r matches Err(e) ==> e is Config,
            r matches Ok(s) ==> spec_build_ok(params, saved, s),
    {
        if params.short_window >= params.long_window {
            return Err(AppError::Config(String::from_str("short_window must be < long_window")));
        }
        let mut params = params;
        if params.bootstrap_candles < params.long_window {
            params.bootstrap_candles = params.long_window * 2;
        }
        let mut snapshot_key = String::from_str("ma_crossover_");
        snapshot_key.append(params.asset.as_str());
        let rate_limit = if params.max_order_rate_per_min >= 1 {
            params.max_order_rate_per_min
        } else {
            1
        };
        let short_ma = MovingAverage::new(params.short_window);
        let long_ma = MovingAverage::new(params.long_window);
        let mut strategy = MaCrossoverStrategy {
            short_ma,
            long_ma,
            params,
            last_signal: SignalSide::Flat,
            snapshot_key,
            bootstrapped: false,
            rate_limiter: OrderRateLimiter::new(60, rate_limit),
        };
        match saved {
            Some(snapshot) => {
                strategy.restore_from_snapshot(snapshot);
                strategy.bootstrapped = true;
            },
            None => {},
        }
        Ok(strategy)
    }
}

/// Restoring a saved snapshot into a freshly built strategy of the same
/// parameters reproduces the saved decision state exactly: the windows a
/// snapshot holds never exceed their periods, so seeding them back
/// truncates nothing, and the saved signal is installed verbatim.  Every
/// later decision is a function of this state and the inputs alone, so a
/// restored strategy repeats the decisions the saved one would have taken
/// on the same future events.
pub proof fn lemma_snapshot_round_trip(s: &MaCrossoverStrategy)
    requires
        s.wf(),
    ensures
        seeded(s.short_ma.window@, s.params.short_window as nat) == s.short_ma.window@,
        seeded(s.long_ma.window@, s.params.long_window as nat) == s.long_ma.window@,
{
    assert(seeded(s.short_ma.window@, s.params.short_window as nat) =~= s.short_ma.window@);
    assert(seeded(s.long_ma.window@, s.params.long_window as nat) =~= s.long_ma.window@);
}

impl Strategy for MaCrossoverStrategy {
    open spec fn inv(&self) -> bool {
        self.wf()
    }

    /// Only the configured instrument's events must carry representable
    /// prices; events for other instruments are ignored untouched.
    open spec fn event_ok(&self, event: &MarketEvent) -> bool {
        event.spec_asset() == self.params.asset@ ==> 0 <= event.spec_price() <= MAX_EVENT_PRICE
    }

    open spec fn event_post(
        pre: Self,
        post: Self,
        event: MarketEvent,
        positions: Map<Seq<char>, (Seq<char>, int, int)>,
        now_ms: u64,
        r: AppResult<EventOutcome>,
    ) -> bool {
        if event.spec_asset() != pre.params.asset@ {
            &&& post == pre
            &&& r matches Ok(EventOutcome::Acted(resp, persist)) && resp.intents@.len() == 0
                && !persist
        } else if !pre.bootstrapped && !(pre.short_ma.window@.len() == pre.params.short_window
            && pre.long_ma.window@.len() == pre.params.long_window) {
            &&& post == pre
            &&& r matches Ok(EventOutcome::NeedsBootstrap)
        } else {
            let started = MaCrossoverStrategy { bootstrapped: true, ..pre };
            let price = event.spec_price() as i64;
            let net = spec_net(positions, pre.params.asset@) as i64;
            r matches Ok(EventOutcome::Acted(resp, persist)) && (if resp.intents@.len() == 0 {
                Self::evaluate_post(started, post, price, net, now_ms, None) && !persist
            } else {
                resp.intents@.len() == 1 && Self::evaluate_post(
                    started,
                    post,
                    price,
                    net,
                    now_ms,
                    Some(resp.intents@[0]),
                ) && persist
            })
        }
    }

    open spec fn fill_post(
        pre: Self,
        post: Self,
        fill: FillEvent,
        positions: Map<Seq<char>, (Seq<char>, int, int)>,
        r: AppResult<EventOutcome>,
    ) -> bool {
        &&& post == MaCrossoverStrategy {
            last_signal: spec_sign(spec_net(positions, pre.params.asset@)),
            ..pre
        }
        &&& r matches Ok(EventOutcome::Acted(resp, persist)) && resp.intents@.len() == 0 && persist
    }

    open spec fn bootstrap_post(pre: Self, post: Self, closes: Seq<i64>) -> bool {
        &&& post.params == pre.params
        &&& post.snapshot_key == pre.snapshot_key
        &&& post.last_signal == pre.last_signal
        &&& post.rate_limiter == pre.rate_limiter
        &&& post.bootstrapped
        &&& post.short_ma.period == pre.short_ma.period
        &&& post.long_ma.period == pre.long_ma.period
        &&& post.short_ma.window@ == ma_next_many(
            pre.short_ma.window@,
            pre.params.short_window as nat,
            closes,
        )
        &&& post.long_ma.window@ == ma_next_many(
            pre.long_ma.window@,
            pre.params.long_window as nat,
            closes,
        )
    }

    fn id(&self) -> (r: &'static str) {
        "ma_crossover"
    }

    fn on_event(&mut self, event: &MarketEvent, positions: &PositionManager, now_ms: u64) -> (r:
        AppResult<EventOutcome>)
    {
        if !matches_asset(event, &self.params.asset) {
            return Ok(EventOutcome::Acted(StrategyResponse::idle(), false));
        }
        if !self.bootstrapped {
            if self.short_ma.is_ready() && self.long_ma.is_ready() {
                self.bootstrapped = true;
            } else {
                return Ok(EventOutcome::NeedsBootstrap);
            }
        }
        let ghost started = *self;
        proof {
            assert(started == MaCrossoverStrategy { bootstrapped: true, ..*old(self) });
        }
        let price = event.price();
        let net = self.net_position(positions);
        let outcome = self.evaluate(price, net, now_ms);
        let ghost gout = outcome;
        match outcome {
            Some(intent) => {
                let r = Ok(EventOutcome::Acted(StrategyResponse::with_intent(intent), true));
                proof {
                    assert(Self::evaluate_post(started, *self, price, net, now_ms, gout));
                    assert(Self::event_post(
                        *old(self),
                        *self,
                        *event,
                        positions.contents(),
                        now_ms,
                        r,
                    ));
                }
                r
            },
            None => {
                let r = Ok(EventOutcome::Acted(StrategyResponse::idle(), false));
                proof {
                    assert(Self::evaluate_post(started, *self, price, net, now_ms, gout));
                    assert(Self::event_post(
                        *old(self),
                        *self,
                        *event,
                        positions.contents(),
                        now_ms,
                        r,
                    ));
                }
                r
            },
        }
    }

    fn on_fill(&mut self, fill: &FillEvent, positions: &PositionManager) -> (r: AppResult<
        EventOutcome,
    >) {
        self.sync_signal_from_positions(positions);
        Ok(EventOutcome::Acted(StrategyResponse::idle(), true))
    }

    fn apply_bootstrap(&mut self, closes: &[i64]) {
        let mut i: usize = 0;
        while i < closes.len()
            invariant
                i <= closes@.len(),
                self.wf(),
                self.params == old(self).params,
                self.snapshot_key == old(self).snapshot_key,
                self.last_signal == old(self).last_signal,
                self.rate_limiter == old(self).rate_limiter,
                self.bootstrapped == old(self).bootstrapped,
                self.short_ma.period == old(self).short_ma.period,
                self.long_ma.period == old(self).long_ma.period,
                self.short_ma.window@ == ma_next_many(
                    old(self).short_ma.window@,
                    old(self).params.short_window as nat,
                    closes@.take(i as int),
                ),
                self.long_ma.window@ == ma_next_many(
                    old(self).long_ma.window@,
                    old(self).params.long_window as nat,
                    closes@.take(i as int),
                ),
            decreases closes@.len() - i,
        {
            proof {
                assert(closes@.take(i as int + 1) =~= closes@.take(i as int).push(
                    closes@[i as int],
                ));
                lemma_ma_next_many_snoc(
                    old(self).short_ma.window@,
                    old(self).params.short_window as nat,
                    closes@.take(i as int),
                    closes@[i as int],
                );
                lemma_ma_next_many_snoc(
                    old(self).long_ma.window@,
                    old(self).params.long_window as nat,
                    closes@.take(i as int),
                    closes@[i as int],
                );
            }
            let px = closes[i];
            self.short_ma.update(px);
            self.long_ma.update(px);
            i = i + 1;
        }
        proof {
            assert(closes@.take(closes@.len() as int) =~= closes@);
        }
        self.bootstrapped = true;
    }
}

} // verus!

use vstd::prelude::*;

use crate::errors::AppResult;
use crate::events::MarketEvent;
use crate::orders::OrderIntent;
use crate::position_manager::{FillEvent, PositionManager};

verus! {

/// A side effect a strategy asks for besides order intents.
#[derive(Debug, Clone)]
pub enum StrategyAction {
    Idle,
    Alert(String),
}

/// What a strategy hands back from one callback: order intents to submit
/// in emission order, and auxiliary actions.
#[derive(Debug, Clone)]
pub struct StrategyResponse {
    pub intents: Vec<OrderIntent>,
    pub actions: Vec<StrategyAction>,
}

impl StrategyResponse {
    /// A response that asks for nothing.
    pub fn idle() -> (r: Self)
        ensures
            r.intents@.len() == 0,
            r.actions@.len() == 0,
    {
        StrategyResponse { intents: Vec::new(), actions: Vec::new() }
    }

    /// A response carrying exactly one order intent.
    pub fn with_intent(intent: OrderIntent) -> (r: Self)
        ensures
            r.intents@.len() == 1,
            r.intents@[0] == intent,
            r.actions@.len() == 0,
    {
        let mut intents: Vec<OrderIntent> = Vec::new();
        intents.push(intent);
        StrategyResponse { intents, actions: Vec::new() }
    }
}

/// The result of one strategy callback: either the strategy must first be
/// bootstrapped from historical data, or it acted, saying whether its
/// state changed in a way that must be persisted before the next event.
pub enum EventOutcome {
    NeedsBootstrap,
    Acted(StrategyResponse, bool),
}

/// A trading strategy as a state machine: it consumes market and fill
/// events together with a read-only view of the position ledger and a
/// clock reading, and emits order intents.
///
/// Each implementation states its own exact behaviour through the
/// `inv`/`event_ok`/`event_post`/`fill_post` specification members, which
/// generic callers pass through unchanged.
pub trait Strategy: Sized {
    /// The implementation's internal invariant.
    spec fn inv(&self) -> bool;

    /// Which events the implementation accepts (representable prices and
    /// the like).
    spec fn event_ok(&self, event: &MarketEvent) -> bool;

    /// The exact relation an `on_event` call establishes.
    spec fn event_post(
        pre: Self,
        post: Self,
        event: MarketEvent,
        positions: Map<Seq<char>, (Seq<char>, int, int)>,
        now_ms: u64,
        r: AppResult<EventOutcome>,
    ) -> bool;

    /// The exact relation an `on_fill` call establishes.
    spec fn fill_post(
        pre: Self,
        post: Self,
        fill: FillEvent,
        positions: Map<Seq<char>, (Seq<char>, int, int)>,
        r: AppResult<EventOutcome>,
    ) -> bool;

    /// The exact relation a `apply_bootstrap` call establishes.
    spec fn bootstrap_post(pre: Self, post: Self, closes: Seq<i64>) -> bool;

    fn id(&self) -> &'static str;

    /// Reacts to one market event.
    fn on_event(&mut self, event: &MarketEvent, positions: &PositionManager, now_ms: u64) -> (r:
        AppResult<EventOutcome>)
        requires
            old(self).inv(),
            positions.wf(),
            old(self).event_ok(event),
        ensures
            final(self).inv(),
            Self::event_post(*old(self), *final(self), *event, positions.contents(), now_ms, r),
    ;

    /// Reacts to one confirmed fill; the ledger already reflects it.
    fn on_fill(&mut self, fill: &FillEvent, positions: &PositionManager) -> (r: AppResult<
        EventOutcome,
    >)
        requires
            old(self).inv(),
            positions.wf(),
        ensures
            final(self).inv(),
            Self::fill_post(*old(self), *final(self), *fill, positions.contents(), r),
    ;

    /// Feeds historical closes gathered for the strategy's warm-up.
    fn apply_bootstrap(&mut self, closes: &[i64])
        requires
            old(self).inv(),
        ensures
            final(self).inv(),
            Self::bootstrap_post(*old(self), *final(self), closes@),
    ;

    /// Periodic hook; by default a strategy does nothing on it.
    fn on_interval(&mut self, positions: &PositionManager, now_ms: u64) -> (r: AppResult<
        EventOutcome,
    >)
        requires
            old(self).inv(),
            positions.wf(),
        ensures
            final(self).inv(),
    {
        Ok(EventOutcome::Acted(StrategyResponse::idle(), false))
    }

    /// Shutdown hook; by default a strategy has nothing to release.
    fn shutdown(&mut self) -> (r: AppResult<()>)
        requires
            old(self).inv(),
        ensures
            final(self).inv(),
    {
        Ok(())
    }
}

} // verus!

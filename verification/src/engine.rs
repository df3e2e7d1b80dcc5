use vstd::prelude::*;

use crate::errors::AppResult;
use crate::events::MarketEvent;
use crate::position_manager::{fill_signed_size, spec_apply_fill, spec_net, FillEvent,
    PositionManager};
use crate::strategy::{EventOutcome, Strategy, StrategyResponse};

verus! {

/// What the market subscription hands the engine on one wait: an event,
/// a lag signal carrying the count of dropped events, or closure of the
/// stream.
pub enum FeedMessage {
    Event(MarketEvent),
    Lagged(u64),
    Closed,
}

/// What one market dispatch asks the surrounding loop to do: go on
/// (submitting the response's intents in order and persisting strategy
/// state when flagged), fetch bootstrap history first, or terminate.
pub enum EngineStep {
    Continue(StrategyResponse, bool),
    NeedsBootstrap,
    Stop,
}

/// What one fill dispatch asks the loop to do: act on the strategy's
/// outcome, or drop the closed fill channel and run fill-blind from now
/// on.
pub enum FillStep {
    Applied(EventOutcome),
    ChannelClosed,
}

/// The strategy-side reading of an engine step.
pub open spec fn strategy_result_of(r: AppResult<EngineStep>) -> AppResult<EventOutcome> {
    match r {
        Ok(EngineStep::Continue(resp, persist)) => Ok(EventOutcome::Acted(resp, persist)),
        Ok(EngineStep::NeedsBootstrap) => Ok(EventOutcome::NeedsBootstrap),
        Ok(EngineStep::Stop) => Ok(EventOutcome::NeedsBootstrap),
        Err(e) => Err(e),
    }
}

/// The strategy-side reading of a fill step.
pub open spec fn strategy_result_of_fill(r: AppResult<FillStep>) -> AppResult<EventOutcome> {
    match r {
        Ok(FillStep::Applied(outcome)) => Ok(outcome),
        Ok(FillStep::ChannelClosed) => Ok(EventOutcome::NeedsBootstrap),
        Err(e) => Err(e),
    }
}

/// The per-event dispatcher: it owns the strategy and the position
/// ledger, turns each message of either stream into the strategy's
/// decision, and hands the surrounding loop what to submit and whether to
/// keep running.  Fills are applied to the ledger before the strategy
/// observes them, so a fill handler always sees the post-fill net.
pub struct Engine<S: Strategy> {
    pub strategy: S,
    pub positions: PositionManager,
}

impl<S: Strategy> Engine<S> {
    pub open spec fn wf(&self) -> bool {
        self.strategy.inv() && self.positions.wf()
    }

    pub fn new(strategy: S, positions: PositionManager) -> (r: Self)
        requires
            strategy.inv(),
            positions.wf(),
        ensures
            r.wf(),
            r.strategy == strategy,
            r.positions == positions,
    {
        Engine { strategy, positions }
    }

    /// Dispatches one message of the market stream: closure stops the
    /// run, a lag signal is accepted data loss and the run goes on, and
    /// an event is handed to the strategy.  The ledger is never touched
    /// on this path.
    pub fn handle_market_event(&mut self, msg: &FeedMessage, now_ms: u64) -> (r: AppResult<
        EngineStep,
    >)
        requires
            old(self).wf(),
            msg matches FeedMessage::Event(e) ==> old(self).strategy.event_ok(&e),
        ensures
            final(self).wf(),
            final(self).positions == old(self).positions,
            msg is Closed ==> (r matches Ok(EngineStep::Stop) && *final(self) == *old(self)),
            msg is Lagged ==> (r matches Ok(EngineStep::Continue(resp, persist))
                && resp.intents@.len() == 0 && !persist && *final(self) == *old(self)),
            msg matches FeedMessage::Event(e) ==> S::event_post(
                old(self).strategy,
                final(self).strategy,
                *e,
                old(self).positions.contents(),
                now_ms,
                strategy_result_of(r),
            ),
    {
        match msg {
            FeedMessage::Closed => Ok(EngineStep::Stop),
            FeedMessage::Lagged(_skipped) => Ok(
                EngineStep::Continue(StrategyResponse::idle(), false),
            ),
            FeedMessage::Event(event) => {
                match self.strategy.on_event(event, &self.positions, now_ms) {
                    Ok(EventOutcome::NeedsBootstrap) => Ok(EngineStep::NeedsBootstrap),
                    Ok(EventOutcome::Acted(resp, persist)) => Ok(
                        EngineStep::Continue(resp, persist),
                    ),
                    Err(e) => Err(e),
                }
            },
        }
    }

    /// Feeds historical closes to the strategy after it asked for a
    /// bootstrap; the caller persists strategy state afterwards.
    pub fn bootstrap_strategy(&mut self, closes: &[i64])
        requires
            old(self).wf(),
        ensures
            final(self).wf(),
            final(self).positions == old(self).positions,
            S::bootstrap_post(old(self).strategy, final(self).strategy, closes@),
    {
        self.strategy.apply_bootstrap(closes);
    }

    /// Dispatches one message of the fill stream: a closed channel makes
    /// the run fill-blind but does not stop it; a fill is applied to the
    /// ledger first and then handed to the strategy, which therefore sees
    /// the post-fill net position.
    pub fn handle_fill(&mut self, fill: Option<&FillEvent>) -> (r: AppResult<FillStep>)
        requires
            old(self).wf(),
            fill matches Some(f) ==> f.size >= 0 && i64::MIN <= spec_net(
                old(self).positions.contents(),
                f.asset@,
            ) + fill_signed_size(f@) <= i64::MAX,
        ensures
            final(self).wf(),
            fill is None ==> (r matches Ok(FillStep::ChannelClosed) && *final(self) == *old(
                self,
            )),
            fill matches Some(f) ==> final(self).positions.contents() == spec_apply_fill(
                old(self).positions.contents(),
                f@,
            ) && S::fill_post(
                old(self).strategy,
                final(self).strategy,
                *f,
                final(self).positions.contents(),
                strategy_result_of_fill(r),
            ),
    {
        match fill {
            None => Ok(FillStep::ChannelClosed),
            Some(f) => {
                self.positions.apply_fill(f);
                match self.strategy.on_fill(f, &self.positions) {
                    Ok(outcome) => Ok(FillStep::Applied(outcome)),
                    Err(e) => Err(e),
                }
            },
        }
    }
}

} // verus!

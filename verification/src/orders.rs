use vstd::prelude::*;
use vstd::string::*;

verus! {

#[derive(Debug, Clone, Copy, PartialEq, Eq, Structural)]
pub enum OrderSide {
    Buy,
    Sell,
}

#[derive(Debug, Clone, Copy, PartialEq, Eq, Structural)]
pub enum OrderTif {
    Gtc,
    Ioc,
    Alo,
}

impl OrderTif {
    /// The wire name of the time-in-force flag.
    pub fn as_str(&self) -> (r: &'static str)
        ensures
            self is Gtc ==> r@ == "Gtc"@,
            self is Ioc ==> r@ == "Ioc"@,
            self is Alo ==> r@ == "Alo"@,
    {
        match self {
            OrderTif::Gtc => "Gtc",
            OrderTif::Ioc => "Ioc",
            OrderTif::Alo => "Alo",
        }
    }
}

/// An order a strategy wants submitted, with every numeric field already
/// rendered in its canonical decimal form.  The idempotency token `cloid`
/// is assigned at the submission boundary when a strategy leaves it empty,
/// so a retried submission cannot double-execute.
#[derive(Debug, Clone)]
pub struct OrderIntent {
    pub asset: String,
    pub side: OrderSide,
    pub size: String,
    pub limit_px: String,
    pub tif: OrderTif,
    pub reduce_only: bool,
    pub client_tag: String,
    pub cloid: Option<u128>,
}

impl OrderIntent {
    /// A short human-readable summary: tag, instrument and limit price.
    pub fn describe(&self) -> (r: String)
        ensures
            r@ == self.client_tag@ + seq![' '] + self.asset@ + seq![' '] + self.limit_px@,
    {
        proof {
            reveal_strlit(" ");
        }
        let mut out = self.client_tag.clone();
        out.append(" ");
        out.append(self.asset.as_str());
        out.append(" ");
        out.append(self.limit_px.as_str());
        proof {
            assert(out@ =~= self.client_tag@ + seq![' '] + self.asset@ + seq![' ']
                + self.limit_px@);
        }
        out
    }
}

/// Portfolio-wide guard consulted before an intent leaves the process.
/// The position cap itself is enforced per-strategy; this hook admits
/// everything, and its contract says so.
#[derive(Debug, Clone)]
pub struct RiskLimits {
    pub max_position: i64,
}

impl RiskLimits {
    pub fn allow(&self, _intent: &OrderIntent) -> (r: bool)
        ensures
            r,
    {
        true
    }
}

} // verus!

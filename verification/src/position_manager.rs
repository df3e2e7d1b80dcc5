use vstd::prelude::*;

use dashmap::DashMap;

verus! {

/// The net holding in one instrument.  `size` is the running signed net of
/// every applied fill (positive long, negative short); `entry_price` is the
/// price of the most recent fill that increased the magnitude of the
/// position, not a weighted average.
#[derive(Debug, Clone)]
pub struct Position {
    pub asset: String,
    pub size: i64,
    pub entry_price: i64,
}

impl View for Position {
    type V = (Seq<char>, int, int);

    open spec fn view(&self) -> (Seq<char>, int, int) {
        (self.asset@, self.size as int, self.entry_price as int)
    }
}

/// A confirmed execution reported by the fill stream.  `size` is an
/// unsigned magnitude; `is_buy` carries the direction.
#[derive(Debug, Clone)]
pub struct FillEvent {
    pub asset: String,
    pub price: i64,
    pub size: i64,
    pub is_buy: bool,
    pub cloid: Option<String>,
}

impl View for FillEvent {
    type V = (Seq<char>, int, int, bool);

    open spec fn view(&self) -> (Seq<char>, int, int, bool) {
        (self.asset@, self.price as int, self.size as int, self.is_buy)
    }
}

/// The signed contribution of a fill to its instrument's net position.
pub open spec fn fill_signed_size(f: (Seq<char>, int, int, bool)) -> int {
    if f.3 {
        f.2
    } else {
        -f.2
    }
}

#[verifier::external_type_specification]
#[verifier::external_body]
#[verifier::reject_recursive_types(K)]
#[verifier::reject_recursive_types(V)]
#[verifier::reject_recursive_types(S)]
pub struct ExDashMap<K, V, S>(DashMap<K, V, S>);

/// What the concurrent map holds: each instrument name to the position
/// triple stored under it.
pub uninterp spec fn ledger_contents(m: DashMap<String, Position>) -> Map<
    Seq<char>,
    (Seq<char>, int, int),
>;

/// A ledger model with no entries.
pub open spec fn empty_ledger() -> Map<Seq<char>, (Seq<char>, int, int)> {
    Map::empty()
}

/// Relies on dashmap::DashMap::new: it creates a map with no entries.
#[verifier::external_body]
fn dm_new() -> (r: DashMap<String, Position>)
    ensures
        ledger_contents(r) == empty_ledger(),
{
    DashMap::new()
}

/// Relies on dashmap::DashMap::get: it returns the value stored under the
/// key, or nothing when the key is absent.
#[verifier::external_body]
fn dm_get(m: &DashMap<String, Position>, key: &String) -> (r: Option<Position>)
    ensures
        match r {
            Some(p) => ledger_contents(*m).contains_key(key@) && p@ == ledger_contents(*m)[key@],
            None => !ledger_contents(*m).contains_key(key@),
        },
{
    m.get(key).map(|entry| entry.value().clone())
}

/// Relies on dashmap::DashMap::insert: it maps the key to the value,
/// replacing any earlier entry.  Only positions that record their own key
/// are admitted, so the stored-key invariant the iteration contract needs
/// can never be broken.
#[verifier::external_body]
fn dm_insert(m: &mut DashMap<String, Position>, key: String, value: Position)
    requires
        key@ == value@.0,
    ensures
        ledger_contents(*final(m)) == ledger_contents(*old(m)).insert(key@, value@),
{
    m.insert(key, value);
}

/// Relies on dashmap::DashMap::iter: it yields every entry exactly once,
/// in no promised order.  The clauses tie each yielded position back to
/// the map through its `asset` field, which is sound only of a map whose
/// every entry records the key it is stored under; the `requires` demands
/// exactly that.
#[verifier::external_body]
fn dm_values(m: &DashMap<String, Position>) -> (r: Vec<Position>)
    requires
        forall|k: Seq<char>|
            #[trigger] ledger_contents(*m).contains_key(k) ==> ledger_contents(*m)[k].0 == k,
    ensures
        r@.len() == ledger_contents(*m).dom().len(),
        forall|i: int|
            0 <= i < r@.len() ==> ledger_contents(*m).contains_key((#[trigger] r@[i])@.0)
                && ledger_contents(*m)[r@[i]@.0] == r@[i]@,
        forall|i: int, j: int| 0 <= i < j < r@.len() ==> (#[trigger] r@[i])@.0 != (#[trigger] r@[j])@.0,
        forall|k: Seq<char>|
            #[trigger] ledger_contents(*m).contains_key(k) ==> exists|i: int|
                0 <= i < r@.len() && (#[trigger] r@[i])@.0 == k,
{
    m.iter().map(|entry| entry.value().clone()).collect()
}

/// One application of a fill to the ledger model: the signed size is added
/// to the instrument's net (a fresh entry starts from zero), and the entry
/// price is overwritten exactly when the fill does not offset the existing
/// net position.
pub open spec fn spec_apply_fill(
    m: Map<Seq<char>, (Seq<char>, int, int)>,
    f: (Seq<char>, int, int, bool),
) -> Map<Seq<char>, (Seq<char>, int, int)> {
    let signed = fill_signed_size(f);
    if m.contains_key(f.0) {
        let cur = m[f.0];
        let offsetting = (cur.1 > 0 && !f.3) || (cur.1 < 0 && f.3);
        if offsetting {
            m.insert(f.0, (f.0, cur.1 + signed, cur.2))
        } else {
            m.insert(f.0, (f.0, cur.1 + signed, f.1))
        }
    } else {
        m.insert(f.0, (f.0, signed, f.1))
    }
}

/// The net position the ledger model holds for an instrument.
pub open spec fn spec_net(m: Map<Seq<char>, (Seq<char>, int, int)>, asset: Seq<char>) -> int {
    if m.contains_key(asset) {
        m[asset].1
    } else {
        0
    }
}

/// The ledger model after a whole sequence of fills, oldest first.
pub open spec fn spec_apply_fills(
    m: Map<Seq<char>, (Seq<char>, int, int)>,
    fills: Seq<(Seq<char>, int, int, bool)>,
) -> Map<Seq<char>, (Seq<char>, int, int)>
    decreases fills.len(),
{
    if fills.len() == 0 {
        m
    } else {
        spec_apply_fills(spec_apply_fill(m, fills.first()), fills.drop_first())
    }
}

/// The signed sum of the sizes of the fills that concern one instrument.
pub open spec fn spec_signed_total(
    fills: Seq<(Seq<char>, int, int, bool)>,
    asset: Seq<char>,
) -> int
    decreases fills.len(),
{
    if fills.len() == 0 {
        0
    } else {
        (if fills.first().0 == asset {
            fill_signed_size(fills.first())
        } else {
            0
        }) + spec_signed_total(fills.drop_first(), asset)
    }
}

/// After any sequence of fills, an instrument's net position equals its
/// previous net plus the signed sum of the fills on that instrument alone:
/// fills on other instruments never disturb it, whatever the interleaving.
pub proof fn lemma_net_is_signed_sum(
    m: Map<Seq<char>, (Seq<char>, int, int)>,
    fills: Seq<(Seq<char>, int, int, bool)>,
    asset: Seq<char>,
)
    ensures
        spec_net(spec_apply_fills(m, fills), asset) == spec_net(m, asset) + spec_signed_total(
            fills,
            asset,
        ),
    decreases fills.len(),
{
    if fills.len() > 0 {
        lemma_net_is_signed_sum(spec_apply_fill(m, fills.first()), fills.drop_first(), asset);
    }
}

/// One fill never disturbs another instrument's entry: presence and the
/// whole stored triple are exactly as before.  Together with
/// `lemma_net_is_signed_sum` this is the interleaving independence of the
/// ledger.
pub proof fn lemma_fill_leaves_other_instruments(
    m: Map<Seq<char>, (Seq<char>, int, int)>,
    f: (Seq<char>, int, int, bool),
    asset: Seq<char>,
)
    requires
        asset != f.0,
    ensures
        spec_apply_fill(m, f).contains_key(asset) == m.contains_key(asset),
        m.contains_key(asset) ==> spec_apply_fill(m, f)[asset] == m[asset],
{
}

/// Thread-safe ledger of per-instrument positions: the single fill path
/// writes, any number of readers snapshot, and entries for different
/// instruments live in independent shards of the underlying map.
pub struct PositionManager {
    inner: DashMap<String, Position>,
}

impl PositionManager {
    /// The ledger as a map from instrument name to position triple.
    pub closed spec fn contents(&self) -> Map<Seq<char>, (Seq<char>, int, int)> {
        ledger_contents(self.inner)
    }

    /// Every entry records the instrument it is stored under; the write
    /// path is the only way to fill the ledger, and it maintains this.
    pub closed spec fn wf(&self) -> bool {
        forall|k: Seq<char>|
            #[trigger] self.contents().contains_key(k) ==> self.contents()[k].0 == k
    }

    pub fn new() -> (r: Self)
        ensures
            r.contents() == Map::<Seq<char>, (Seq<char>, int, int)>::empty(),
            r.wf(),
    {
        PositionManager { inner: dm_new() }
    }

    /// The net position held for an instrument; zero when no fill has been
    /// seen for it.
    pub fn net_position(&self, asset: &String) -> (r: i64)
        ensures
            r == spec_net(self.contents(), asset@),
    {
        match dm_get(&self.inner, asset) {
            Some(p) => p.size,
            None => 0,
        }
    }

    /// Applies one confirmed fill: creates the entry on first contact,
    /// otherwise adds the signed size to the net and overwrites the entry
    /// price exactly when the fill does not offset the current net.
    pub fn apply_fill(&mut self, fill: &FillEvent)
        requires
            old(self).wf(),
            fill.size >= 0,
            i64::MIN <= spec_net(old(self).contents(), fill.asset@) + fill_signed_size(fill@)
                <= i64::MAX,
        ensures
            final(self).contents() == spec_apply_fill(old(self).contents(), fill@),
            final(self).wf(),
    {
        let signed: i64 = if fill.is_buy {
            fill.size
        } else {
            -fill.size
        };
        match dm_get(&self.inner, &fill.asset) {
            Some(cur) => {
                let offsetting = (cur.size > 0 && !fill.is_buy) || (cur.size < 0 && fill.is_buy);
                let entry = if offsetting {
                    cur.entry_price
                } else {
                    fill.price
                };
                let updated = Position {
                    asset: fill.asset.clone(),
                    size: cur.size + signed,
                    entry_price: entry,
                };
                dm_insert(&mut self.inner, fill.asset.clone(), updated);
            },
            None => {
                let created = Position {
                    asset: fill.asset.clone(),
                    size: signed,
                    entry_price: fill.price,
                };
                dm_insert(&mut self.inner, fill.asset.clone(), created);
            },
        }
        proof {
            assert(self.contents() =~= spec_apply_fill(old(self).contents(), fill@));
        }
    }

    /// A consistent copy of every position at the moment of the call, one
    /// entry per instrument, in no promised order.
    pub fn snapshot(&self) -> (r: Vec<Position>)
        requires
            self.wf(),
        ensures
            r@.len() == self.contents().dom().len(),
            forall|i: int|
                0 <= i < r@.len() ==> self.contents().contains_key((#[trigger] r@[i])@.0)
                    && self.contents()[r@[i]@.0] == r@[i]@,
            forall|i: int, j: int|
                0 <= i < j < r@.len() ==> (#[trigger] r@[i])@.0 != (#[trigger] r@[j])@.0,
            forall|k: Seq<char>|
                #[trigger] self.contents().contains_key(k) ==> exists|i: int|
                    0 <= i < r@.len() && (#[trigger] r@[i])@.0 == k,
    {
        proof {
            assert forall|k: Seq<char>|
                #[trigger] ledger_contents(self.inner).contains_key(k) implies ledger_contents(
                self.inner,
            )[k].0 == k by {
                assert(self.contents().contains_key(k));
            }
        }
        dm_values(&self.inner)
    }
}

} // verus!

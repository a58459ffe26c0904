//! The capacity packer: fan-out ("issue") and consolidation ("burn").
use crate::ledger::{min_capacity, min_occupied_capacity, LockScript};
use vstd::prelude::*;

verus! {

/// Capacity is counted in the ledger's smallest unit.
pub type Capacity = u64;

/// The most outputs one fan-out transaction may carry, change included.
pub const MAX_EXPLODE_OUTPUTS: usize = 5000;

/// Reference to an output of an earlier transaction.
#[derive(Clone, Copy, Debug)]
pub struct OutPoint {
    pub tx_hash: [u8; 32],
    pub index: u32,
}

/// An unspent cell of the sender's wallet.
#[derive(Clone, Copy, Debug)]
pub struct LiveCell {
    pub out_point: OutPoint,
    pub capacity: Capacity,
}

/// Whose lock script guards an output.
#[derive(Clone, Copy, Debug, PartialEq, Eq, Structural)]
pub enum Owner {
    Sender,
    Receiver,
}

/// An output cell not yet bound to a transaction; its data is always empty.
#[derive(Clone, Copy, Debug, PartialEq, Eq, Structural)]
pub struct CandidateOutput {
    pub capacity: Capacity,
    pub owner: Owner,
}

#[derive(Clone, Copy, Debug, PartialEq, Eq, Structural)]
pub enum DepType {
    Code,
    DepGroup,
}

/// Reference to the on-chain code that the lock script runs.
#[derive(Clone, Copy, Debug)]
pub struct CellDep {
    pub out_point: OutPoint,
    pub dep_type: DepType,
}

/// A single-input transaction without witnesses.
#[derive(Clone, Debug)]
pub struct UnsignedTransaction {
    pub input: LiveCell,
    pub outputs: Vec<CandidateOutput>,
    pub cell_dep: CellDep,
}

impl View for UnsignedTransaction {
    type V = (LiveCell, Seq<CandidateOutput>, CellDep);

    open spec fn view(&self) -> (LiveCell, Seq<CandidateOutput>, CellDep) {
        (self.input, self.outputs@, self.cell_dep)
    }
}

#[derive(Clone, Copy, Debug, PartialEq, Eq, Structural)]
pub enum PackError {
    /// The eligible cells could not fund `unfunded` of the requested outputs,
    /// which together need `shortfall` more capacity.
    InsufficientFunds { unfunded: usize, shortfall: u128 },
    /// Capacity arithmetic left the range of `u64`.
    CapacityOverflow,
    /// The number of cells to prepare does not fit a `usize`.
    CountOverflow,
}

/// Capacity of each fan-out output: twice the minimum, less one.
pub open spec fn target_of(min_capacity: nat) -> int {
    2 * min_capacity - 1
}

/// The capacity given to each fan-out output for a given minimum occupied
/// capacity; `None` where it does not fit a `u64` or the minimum is zero.
pub fn target_capacity(min_capacity: Capacity) -> (r: Option<Capacity>)
    ensures
        match r {
            Some(t) => min_capacity >= 1 && t == target_of(min_capacity as nat) && t >= min_capacity,
            None => min_capacity == 0 || target_of(min_capacity as nat) > u64::MAX,
        },
{
    if min_capacity == 0 || min_capacity > (u64::MAX - 1) / 2 + 1 {
        None
    } else {
        Some(min_capacity + (min_capacity - 1))
    }
}


/// Sum of the capacities of a sequence of outputs.
pub open spec fn total_capacity(s: Seq<CandidateOutput>) -> nat
    decreases s.len(),
{
    if s.len() == 0 {
        0
    } else {
        total_capacity(s.drop_last()) + s.last().capacity as nat
    }
}

/// `k` outputs of capacity `t` for the receiver.
pub open spec fn receiver_outputs(k: nat, t: Capacity) -> Seq<CandidateOutput> {
    Seq::new(k, |i: int| CandidateOutput { capacity: t, owner: Owner::Receiver })
}

/// The change output returning `change` to the sender, if there is any change.
pub open spec fn change_outputs(change: int) -> Seq<CandidateOutput> {
    if change > 0 {
        seq![CandidateOutput { capacity: change as u64, owner: Owner::Sender }]
    } else {
        seq![]
    }
}

pub open spec fn min_nat(a: nat, b: nat) -> nat {
    if a <= b { a } else { b }
}

/// How many receiver outputs of capacity `t` a funding cell of capacity `c`
/// pays for when `wanted` are still unfunded: as many as fit, as many as are
/// wanted, and no more than the cap, which leaves one place for change.
pub open spec fn receivers_for(c: nat, t: nat, wanted: nat) -> nat
    recommends
        t > 0,
{
    let k = min_nat(min_nat(c / t, wanted), MAX_EXPLODE_OUTPUTS as nat);
    if k == MAX_EXPLODE_OUTPUTS && c > k * t {
        (k - 1) as nat
    } else {
        k
    }
}

/// Gives back receiver outputs, one at a time, while the change they leave
/// is positive but below `change_min`, the least a change cell may hold.
pub open spec fn shrink_for_change(c: nat, t: nat, k: nat, change_min: nat) -> nat
    decreases k,
{
    if k > 0 && 0 < c - k * t && c - k * t < change_min {
        shrink_for_change(c, t, (k - 1) as nat, change_min)
    } else {
        k
    }
}

/// Receiver outputs that a funding cell of capacity `c` pays for, such that
/// its change is either nothing or at least `change_min`.
pub open spec fn cell_receivers(c: nat, t: nat, wanted: nat, change_min: nat) -> nat {
    shrink_for_change(c, t, receivers_for(c, t, wanted), change_min)
}

/// The outputs of the transaction that spends a funding cell of capacity `c`
/// into `k` receiver outputs of capacity `t`.
pub open spec fn cell_outputs(c: nat, t: Capacity, k: nat) -> Seq<CandidateOutput> {
    receiver_outputs(k, t) + change_outputs(c - k * t)
}

proof fn lemma_le_div(k: int, c: int, t: int)
    requires
        0 <= k,
        0 <= c,
        0 < t,
        k * t <= c,
    ensures
        k <= c / t,
{
    vstd::arithmetic::div_mod::lemma_fundamental_div_mod(c, t);
    vstd::arithmetic::div_mod::lemma_mod_pos_bound(c, t);
    let q = c / t;
    if k > q {
        assert((q + 1) * t <= k * t) by (nonlinear_arith)
            requires
                k >= q + 1,
                t > 0,
        ;
        assert(false) by (nonlinear_arith)
            requires
                (q + 1) * t <= k * t,
                k * t <= c,
                c == t * q + c % t,
                c % t < t,
        ;
    }
}

proof fn lemma_div_exact(k: int, c: int, t: int)
    requires
        0 <= k,
        0 < t,
        0 <= c - k * t < t,
    ensures
        k == c / t,
{
    vstd::arithmetic::div_mod::lemma_fundamental_div_mod_converse(c, t, k, c - k * t);
}

/// The outputs that one funding cell of capacity `capacity` pays for, when
/// `wanted` receiver outputs of capacity `target` are still unfunded.
fn explode_cell(capacity: Capacity, target: Capacity, wanted: usize, change_min: Capacity) -> (r: (
    Vec<CandidateOutput>,
    usize,
))
    requires
        target > 0,
    ensures
        r.1 == cell_receivers(capacity as nat, target as nat, wanted as nat, change_min as nat),
        r.0@ == cell_outputs(capacity as nat, target, r.1 as nat),
{
    let mut left: Capacity = capacity;
    let mut outputs: Vec<CandidateOutput> = Vec::new();
    let mut n: usize = 0;
    let mut stop = false;
    while !stop && n < wanted && n < MAX_EXPLODE_OUTPUTS
        invariant
            n == outputs.len(),
            n <= wanted,
            n <= MAX_EXPLODE_OUTPUTS,
            target > 0,
            left as int == capacity - n * target,
            outputs@ == receiver_outputs(n as nat, target),
            stop ==> left < target,
        decreases wanted - n + (if stop { 0int } else { 1int }),
    {
        if left >= target {
            left = left - target;
            outputs.push(CandidateOutput { capacity: target, owner: Owner::Receiver });
            assert(outputs@ =~= receiver_outputs((n + 1) as nat, target));
            assert(left as int == capacity - (n + 1) * target) by (nonlinear_arith)
                requires
                    left as int == capacity - n * target - target,
            ;
            n = n + 1;
            if left < target {
                stop = true;
            }
        } else {
            stop = true;
        }
    }
    proof {
        let c = capacity as int;
        let t = target as int;
        lemma_le_div(n as int, c, t);
        if stop {
            lemma_div_exact(n as int, c, t);
        }
    }
    if left > 0 && n == MAX_EXPLODE_OUTPUTS {
        outputs.pop();
        assert(outputs@ =~= receiver_outputs((n - 1) as nat, target));
        assert(left as int + target == capacity - (n - 1) * target) by (nonlinear_arith)
            requires
                left as int == capacity - n * target,
        ;
        left = left + target;
        n = n - 1;
    }
    let ghost k0 = n as nat;
    assert(k0 == receivers_for(capacity as nat, target as nat, wanted as nat));
    while left > 0 && left < change_min && n > 0
        invariant
            n == outputs.len(),
            n <= k0,
            left as int == capacity - n * target,
            outputs@ == receiver_outputs(n as nat, target),
            shrink_for_change(capacity as nat, target as nat, n as nat, change_min as nat) == shrink_for_change(
                capacity as nat,
                target as nat,
                k0,
                change_min as nat,
            ),
        decreases n,
    {
        outputs.pop();
        assert(outputs@ =~= receiver_outputs((n - 1) as nat, target));
        assert(left as int + target == capacity - (n - 1) * target) by (nonlinear_arith)
            requires
                left as int == capacity - n * target,
        ;
        left = left + target;
        n = n - 1;
    }
    if left > 0 {
        outputs.push(CandidateOutput { capacity: left, owner: Owner::Sender });
    }
    assert(outputs@ =~= cell_outputs(capacity as nat, target, n as nat));
    (outputs, n)
}


/// Whether a cell may fund new outputs: its capacity reaches the minimum
/// spendable threshold.
pub open spec fn eligible(cell: LiveCell, min_spendable: Capacity) -> bool {
    cell.capacity >= min_spendable
}

/// Receiver outputs that `cell` pays for when `wanted` are still unfunded.
pub open spec fn taken_by(cell: LiveCell, t: Capacity, wanted: nat, min_spendable: Capacity, change_min: Capacity) -> nat {
    if eligible(cell, min_spendable) {
        cell_receivers(cell.capacity as nat, t as nat, wanted, change_min as nat)
    } else {
        0
    }
}

/// Receiver outputs still unfunded after the first `i` cells were scanned.
pub open spec fn unfunded_after(
    cells: Seq<LiveCell>,
    t: Capacity,
    n: nat,
    min_spendable: Capacity, change_min: Capacity,
    i: nat,
) -> nat
    decreases i,
{
    if i == 0 {
        n
    } else {
        let r = unfunded_after(cells, t, n, min_spendable, change_min, (i - 1) as nat);
        (r - taken_by(cells[i - 1], t, r, min_spendable, change_min)) as nat
    }
}

/// The transactions built from the first `i` cells: one for each cell that
/// pays for at least one receiver output, in the cells' order.
pub open spec fn fan_out_upto(
    cells: Seq<LiveCell>,
    t: Capacity,
    n: nat,
    min_spendable: Capacity, change_min: Capacity,
    dep: CellDep,
    i: nat,
) -> Seq<(LiveCell, Seq<CandidateOutput>, CellDep)>
    decreases i,
{
    if i == 0 {
        seq![]
    } else {
        let prev = fan_out_upto(cells, t, n, min_spendable, change_min, dep, (i - 1) as nat);
        let r = unfunded_after(cells, t, n, min_spendable, change_min, (i - 1) as nat);
        let cell = cells[i - 1];
        let k = taken_by(cell, t, r, min_spendable, change_min);
        if k > 0 {
            prev.push((cell, cell_outputs(cell.capacity as nat, t, k), dep))
        } else {
            prev
        }
    }
}

/// The fan-out transactions for `n` receiver outputs of capacity `t`.
pub open spec fn fan_out_plan(
    cells: Seq<LiveCell>,
    t: Capacity,
    n: nat,
    min_spendable: Capacity, change_min: Capacity,
    dep: CellDep,
) -> Seq<(LiveCell, Seq<CandidateOutput>, CellDep)> {
    fan_out_upto(cells, t, n, min_spendable, change_min, dep, cells.len())
}

/// Receiver outputs left unfunded once every cell was scanned.
pub open spec fn fan_out_unfunded(cells: Seq<LiveCell>, t: Capacity, n: nat, min_spendable: Capacity, change_min: Capacity) -> nat {
    unfunded_after(cells, t, n, min_spendable, change_min, cells.len())
}

/// Whether `cell` may fund fan-out outputs.
pub fn can_explode(cell: &LiveCell, min_spendable: Capacity) -> (r: bool)
    ensures
        r == eligible(*cell, min_spendable),
{
    cell.capacity >= min_spendable
}

/// What a fan-out returns: the planned transactions when every receiver
/// output is funded, else `InsufficientFunds` with the number left unfunded.
pub open spec fn fan_out_outcome(
    cells: Seq<LiveCell>,
    t: Capacity,
    n: nat,
    min_spendable: Capacity, change_min: Capacity,
    dep: CellDep,
    r: Result<Vec<UnsignedTransaction>, PackError>,
) -> bool {
    let plan = fan_out_plan(cells, t, n, min_spendable, change_min, dep);
    let u = fan_out_unfunded(cells, t, n, min_spendable, change_min);
    match r {
        Ok(txs) => {
            &&& u == 0
            &&& txs@.len() == plan.len()
            &&& forall|j: int| 0 <= j < txs@.len() ==> #[trigger] txs@[j]@ == plan[j]
        },
        Err(e) => {
            &&& 0 < u <= n
            &&& e == PackError::InsufficientFunds { unfunded: u as usize, shortfall: (u * t) as u128 }
        },
    }
}

/// Capacity of each fan-out output for a receiver whose lock script has
/// `args_len` bytes of arguments, where it fits a `u64`.
pub open spec fn issue_target(args_len: nat) -> Option<Capacity> {
    let t = target_of(min_occupied_capacity(args_len));
    if t <= u64::MAX {
        Some(t as u64)
    } else {
        None
    }
}

/// What `issue` returns: the fan-out outcome for the receiver's target
/// capacity, with change held to the sender's minimum occupied capacity, or
/// `CapacityOverflow` where either leaves `u64`.
pub open spec fn issue_outcome(
    cells: Seq<LiveCell>,
    sender_args_len: nat,
    args_len: nat,
    n: nat,
    min_spendable: Capacity,
    dep: CellDep,
    r: Result<Vec<UnsignedTransaction>, PackError>,
) -> bool {
    let change_min = min_occupied_capacity(sender_args_len);
    match issue_target(args_len) {
        Some(t) => if change_min <= u64::MAX {
            fan_out_outcome(cells, t, n, min_spendable, change_min as u64, dep, r)
        } else {
            r matches Err(PackError::CapacityOverflow)
        },
        None => r matches Err(PackError::CapacityOverflow),
    }
}

/// Fans `cells` out into `outputs_count` new cells locked by `receiver`,
/// each holding twice its minimum occupied capacity less one; change goes
/// back to `sender` and never falls below what a cell locked by it occupies.
pub fn issue(
    cells: &Vec<LiveCell>,
    sender: &LockScript,
    receiver: &LockScript,
    outputs_count: usize,
    min_spendable: Capacity,
    dep: CellDep,
) -> (r: Result<Vec<UnsignedTransaction>, PackError>)
    ensures
        issue_outcome(cells@, sender.args@.len(), receiver.args@.len(), outputs_count as nat, min_spendable, dep, r),
{
    let m = match min_capacity(receiver) {
        Some(m) => m,
        None => {
            return Err(PackError::CapacityOverflow);
        },
    };
    let change_min = match min_capacity(sender) {
        Some(m) => m,
        None => {
            return Err(PackError::CapacityOverflow);
        },
    };
    match target_capacity(m) {
        Some(t) => explode(cells, t, outputs_count, min_spendable, change_min, dep),
        None => Err(PackError::CapacityOverflow),
    }
}

/// Fans `cells` out into `outputs_count` receiver outputs of capacity
/// `target` each. Cells are scanned in order; an ineligible cell is left
/// alone, and each eligible cell that pays for an output becomes the single
/// input of one transaction, with change back to the sender.
pub fn explode(
    cells: &Vec<LiveCell>,
    target: Capacity,
    outputs_count: usize,
    min_spendable: Capacity, change_min: Capacity,
    dep: CellDep,
) -> (r: Result<Vec<UnsignedTransaction>, PackError>)
    requires
        target > 0,
    ensures
        fan_out_outcome(cells@, target, outputs_count as nat, min_spendable, change_min, dep, r),
{
    let mut txs: Vec<UnsignedTransaction> = Vec::new();
    let mut wanted: usize = outputs_count;
    let mut i: usize = 0;
    while i < cells.len()
        invariant
            i <= cells.len(),
            target > 0,
            wanted <= outputs_count,
            wanted as nat == unfunded_after(cells@, target, outputs_count as nat, min_spendable, change_min, i as nat),
            txs@.len() == fan_out_upto(cells@, target, outputs_count as nat, min_spendable, change_min, dep, i as nat).len(),
            forall|j: int|
                0 <= j < txs@.len() ==> #[trigger] txs@[j]@ == fan_out_upto(
                    cells@,
                    target,
                    outputs_count as nat,
                    min_spendable, change_min,
                    dep,
                    i as nat,
                )[j],
        decreases cells.len() - i,
    {
        let cell = cells[i];
        if wanted > 0 && can_explode(&cell, min_spendable) {
            let (outputs, k) = explode_cell(cell.capacity, target, wanted, change_min);
            proof {
                lemma_shrink(
                    cell.capacity as nat,
                    target as nat,
                    receivers_for(cell.capacity as nat, target as nat, wanted as nat),
                    change_min as nat,
                );
            }
            if k > 0 {
                txs.push(UnsignedTransaction { input: cell, outputs, cell_dep: dep });
                wanted = wanted - k;
            }
        }
        i = i + 1;
    }
    if wanted > 0 {
        assert(wanted as int * target as int <= u128::MAX) by (nonlinear_arith)
            requires
                wanted <= u64::MAX,
                target <= u64::MAX,
        ;
        Err(PackError::InsufficientFunds { unfunded: wanted, shortfall: wanted as u128 * target as u128 })
    } else {
        Ok(txs)
    }
}


/// Total capacity of the eligible cells among the first `i`.
pub open spec fn eligible_total(cells: Seq<LiveCell>, min_spendable: Capacity, i: nat) -> nat
    decreases i,
{
    if i == 0 {
        0
    } else {
        eligible_total(cells, min_spendable, (i - 1) as nat) + if eligible(cells[i - 1], min_spendable) {
            cells[i - 1].capacity as nat
        } else {
            0
        }
    }
}

/// Total change returned to the sender by the transactions of the first `i` cells.
pub open spec fn change_upto(cells: Seq<LiveCell>, t: Capacity, n: nat, min_spendable: Capacity, change_min: Capacity, i: nat) -> nat
    decreases i,
{
    if i == 0 {
        0
    } else {
        let r = unfunded_after(cells, t, n, min_spendable, change_min, (i - 1) as nat);
        let cell = cells[i - 1];
        let k = taken_by(cell, t, r, min_spendable, change_min);
        change_upto(cells, t, n, min_spendable, change_min, (i - 1) as nat) + if k > 0 {
            (cell.capacity - k * t) as nat
        } else {
            0
        }
    }
}

/// What every fan-out transaction satisfies: its outputs hold exactly its
/// input's capacity, its input is eligible, it has at most the capped number
/// of outputs, each receiver output holds the target capacity, and change
/// holds at least `change_min`.
pub open spec fn fan_out_tx_sound(tx: (LiveCell, Seq<CandidateOutput>, CellDep), t: Capacity, min_spendable: Capacity, change_min: Capacity) -> bool {
    &&& total_capacity(tx.1) == tx.0.capacity
    &&& eligible(tx.0, min_spendable)
    &&& tx.1.len() <= MAX_EXPLODE_OUTPUTS
    &&& forall|o: int|
        0 <= o < tx.1.len() && (#[trigger] tx.1[o]).owner == Owner::Receiver ==> tx.1[o].capacity == t
    &&& forall|o: int|
        0 <= o < tx.1.len() && (#[trigger] tx.1[o]).owner == Owner::Sender ==> tx.1[o].capacity >= change_min
}

proof fn lemma_total_receivers(k: nat, t: Capacity)
    ensures
        total_capacity(receiver_outputs(k, t)) == k * t,
    decreases k,
{
    if k > 0 {
        let rs = receiver_outputs(k, t);
        assert(rs.drop_last() =~= receiver_outputs((k - 1) as nat, t));
        assert(rs.last().capacity == t);
        assert(total_capacity(rs) == total_capacity(rs.drop_last()) + t);
        lemma_total_receivers((k - 1) as nat, t);
        assert(k * t == (k - 1) * t + t) by (nonlinear_arith);
    } else {
        assert(receiver_outputs(k, t).len() == 0);
    }
}

proof fn lemma_mul_div_le(c: int, t: int)
    requires
        0 <= c,
        0 < t,
    ensures
        (c / t) * t <= c,
        0 <= c / t,
{
    vstd::arithmetic::div_mod::lemma_fundamental_div_mod(c, t);
    vstd::arithmetic::div_mod::lemma_mod_pos_bound(c, t);
    assert((c / t) * t == t * (c / t)) by (nonlinear_arith);
}

proof fn lemma_shrink(c: nat, t: nat, k: nat, change_min: nat)
    ensures
        shrink_for_change(c, t, k, change_min) <= k,
        shrink_for_change(c, t, k, change_min) > 0 ==> !(0 < c - shrink_for_change(c, t, k, change_min) * t
            && c - shrink_for_change(c, t, k, change_min) * t < change_min),
    decreases k,
{
    if k > 0 && 0 < c - k * t && c - k * t < change_min {
        lemma_shrink(c, t, (k - 1) as nat, change_min);
    }
}

proof fn lemma_cell_outputs(c: nat, t: Capacity, w: nat, change_min: Capacity)
    requires
        t > 0,
        c <= u64::MAX,
    ensures
        ({
            let k = cell_receivers(c, t as nat, w, change_min as nat);
            let out = cell_outputs(c, t, k);
            &&& k <= w
            &&& k * t <= c
            &&& total_capacity(out) == c
            &&& out.len() <= MAX_EXPLODE_OUTPUTS
            &&& forall|o: int|
                0 <= o < out.len() && (#[trigger] out[o]).owner == Owner::Receiver ==> out[o].capacity == t
            &&& forall|o: int|
                0 <= o < out.len() && (#[trigger] out[o]).owner == Owner::Sender ==> c - k * t > 0
            &&& k > 0 ==> forall|o: int|
                0 <= o < out.len() && (#[trigger] out[o]).owner == Owner::Sender ==> out[o].capacity
                    >= change_min
        }),
{
    let k0 = receivers_for(c, t as nat, w);
    let k = cell_receivers(c, t as nat, w, change_min as nat);
    lemma_shrink(c, t as nat, k0, change_min as nat);
    let q = c / (t as nat);
    lemma_mul_div_le(c as int, t as int);
    assert(k <= q);
    assert(k * t <= q * t) by (nonlinear_arith)
        requires
            k <= q,
            t > 0,
    ;
    assert(k0 * t <= q * t) by (nonlinear_arith)
        requires
            k0 <= q,
            t > 0,
    ;
    let rs = receiver_outputs(k, t);
    let ch = c - k * t;
    lemma_total_receivers(k, t);
    let out = cell_outputs(c, t, k);
    if ch > 0 {
        assert(out.drop_last() =~= rs);
    } else {
        assert(out =~= rs);
    }
}

proof fn lemma_fan_out_upto(
    cells: Seq<LiveCell>,
    t: Capacity,
    n: nat,
    min_spendable: Capacity, change_min: Capacity,
    dep: CellDep,
    i: nat,
)
    requires
        t > 0,
        i <= cells.len(),
    ensures
        unfunded_after(cells, t, n, min_spendable, change_min, i) <= n,
        (n - unfunded_after(cells, t, n, min_spendable, change_min, i)) * t + change_upto(cells, t, n, min_spendable, change_min, i)
            <= eligible_total(cells, min_spendable, i),
        forall|j: int|
            0 <= j < fan_out_upto(cells, t, n, min_spendable, change_min, dep, i).len() ==> fan_out_tx_sound(
                #[trigger] fan_out_upto(cells, t, n, min_spendable, change_min, dep, i)[j],
                t,
                min_spendable, change_min,
            ),
        forall|j: int, o: int|
            0 <= j < fan_out_upto(cells, t, n, min_spendable, change_min, dep, i).len() && 0 <= o
                < fan_out_upto(cells, t, n, min_spendable, change_min, dep, i)[j].1.len() && (#[trigger] fan_out_upto(
                cells,
                t,
                n,
                min_spendable, change_min,
                dep,
                i,
            )[j].1[o]).owner == Owner::Sender ==> change_upto(cells, t, n, min_spendable, change_min, i) > 0,
    decreases i,
{
    if i > 0 {
        let p = (i - 1) as nat;
        lemma_fan_out_upto(cells, t, n, min_spendable, change_min, dep, p);
        let prev = fan_out_upto(cells, t, n, min_spendable, change_min, dep, p);
        let cur = fan_out_upto(cells, t, n, min_spendable, change_min, dep, i);
        let r = unfunded_after(cells, t, n, min_spendable, change_min, p);
        let cell = cells[i - 1];
        let k = taken_by(cell, t, r, min_spendable, change_min);
        let c = cell.capacity as nat;
        lemma_cell_outputs(c, t, r, change_min);
        let e0 = eligible_total(cells, min_spendable, p);
        let ch0 = change_upto(cells, t, n, min_spendable, change_min, p);
        assert(unfunded_after(cells, t, n, min_spendable, change_min, i) == r - k);
        if eligible(cell, min_spendable) {
            assert(eligible_total(cells, min_spendable, i) == e0 + c);
        } else {
            assert(eligible_total(cells, min_spendable, i) == e0);
        }
        if k > 0 {
            assert(eligible(cell, min_spendable));
            assert(change_upto(cells, t, n, min_spendable, change_min, i) == ch0 + (c - k * t));
            assert((n - (r - k)) * t == (n - r) * t + k * t) by (nonlinear_arith);
            assert((n - r) * t + ch0 <= e0);
            assert(k * t <= c);
            assert((n - (r - k)) * t + (ch0 + (c - k * t)) <= e0 + c);
            assert((n - unfunded_after(cells, t, n, min_spendable, change_min, i)) * t + change_upto(
                cells,
                t,
                n,
                min_spendable,
                change_min,
                i,
            ) <= eligible_total(cells, min_spendable, i));
            assert forall|j: int| 0 <= j < prev.len() implies cur[j] == prev[j] by {}
            let out = cell_outputs(c, t, k);
            assert(cur[prev.len() as int] == (cell, out, dep));
        } else {
            assert(change_upto(cells, t, n, min_spendable, change_min, i) == ch0);
            assert(cur == prev);
            assert((n - unfunded_after(cells, t, n, min_spendable, change_min, i)) * t + change_upto(
                cells,
                t,
                n,
                min_spendable,
                change_min,
                i,
            ) <= eligible_total(cells, min_spendable, i));
        }
    }
}

/// Conservation: every fan-out transaction's outputs hold exactly the
/// capacity of its input; no fee is taken and no remainder is lost.
pub proof fn lemma_fan_out_conserves(
    cells: Seq<LiveCell>,
    t: Capacity,
    n: nat,
    min_spendable: Capacity, change_min: Capacity,
    dep: CellDep,
)
    requires
        t > 0,
    ensures
        forall|j: int|
            0 <= j < fan_out_plan(cells, t, n, min_spendable, change_min, dep).len() ==> total_capacity(
                (#[trigger] fan_out_plan(cells, t, n, min_spendable, change_min, dep)[j]).1,
            ) == fan_out_plan(cells, t, n, min_spendable, change_min, dep)[j].0.capacity,
{
    lemma_fan_out_upto(cells, t, n, min_spendable, change_min, dep, cells.len());
}

/// Every receiver output of a fan-out holds the target capacity, which for
/// a minimum occupied capacity `m` is `2 * m - 1`, never below `m`.
pub proof fn lemma_fan_out_target_capacity(
    cells: Seq<LiveCell>,
    m: Capacity,
    t: Capacity,
    n: nat,
    min_spendable: Capacity, change_min: Capacity,
    dep: CellDep,
)
    requires
        m >= 1,
        t == target_of(m as nat),
    ensures
        t >= m,
        forall|j: int, o: int|
            0 <= j < fan_out_plan(cells, t, n, min_spendable, change_min, dep).len() && 0 <= o
                < fan_out_plan(cells, t, n, min_spendable, change_min, dep)[j].1.len() && (#[trigger] fan_out_plan(
                cells,
                t,
                n,
                min_spendable, change_min,
                dep,
            )[j].1[o]).owner == Owner::Receiver ==> fan_out_plan(cells, t, n, min_spendable, change_min, dep)[j].1[o].capacity
                == t,
{
    lemma_fan_out_upto(cells, t, n, min_spendable, change_min, dep, cells.len());
    let plan = fan_out_plan(cells, t, n, min_spendable, change_min, dep);
    assert forall|j: int, o: int|
        0 <= j < plan.len() && 0 <= o < plan[j].1.len() && (#[trigger] plan[j].1[o]).owner == Owner::Receiver implies plan[j].1[o].capacity == t by {
        assert(fan_out_tx_sound(plan[j], t, min_spendable, change_min));
    }
}

/// No cell below the minimum spendable threshold is ever spent by a fan-out.
pub proof fn lemma_fan_out_eligible_inputs(
    cells: Seq<LiveCell>,
    t: Capacity,
    n: nat,
    min_spendable: Capacity, change_min: Capacity,
    dep: CellDep,
)
    requires
        t > 0,
    ensures
        forall|j: int|
            0 <= j < fan_out_plan(cells, t, n, min_spendable, change_min, dep).len() ==> (#[trigger] fan_out_plan(
                cells,
                t,
                n,
                min_spendable, change_min,
                dep,
            )[j]).0.capacity >= min_spendable,
{
    lemma_fan_out_upto(cells, t, n, min_spendable, change_min, dep, cells.len());
}

/// No fan-out transaction carries more than the capped number of outputs.
pub proof fn lemma_fan_out_output_cap(
    cells: Seq<LiveCell>,
    t: Capacity,
    n: nat,
    min_spendable: Capacity, change_min: Capacity,
    dep: CellDep,
)
    requires
        t > 0,
    ensures
        forall|j: int|
            0 <= j < fan_out_plan(cells, t, n, min_spendable, change_min, dep).len() ==> (#[trigger] fan_out_plan(
                cells,
                t,
                n,
                min_spendable, change_min,
                dep,
            )[j]).1.len() <= MAX_EXPLODE_OUTPUTS,
{
    lemma_fan_out_upto(cells, t, n, min_spendable, change_min, dep, cells.len());
}

/// Number of receiver outputs in `s`.
pub open spec fn receiver_count(s: Seq<CandidateOutput>) -> nat
    decreases s.len(),
{
    if s.len() == 0 {
        0
    } else {
        receiver_count(s.drop_last()) + if s.last().owner == Owner::Receiver {
            1nat
        } else {
            0nat
        }
    }
}

/// Number of receiver outputs over all transactions of `plan`.
pub open spec fn plan_receivers(plan: Seq<(LiveCell, Seq<CandidateOutput>, CellDep)>) -> nat
    decreases plan.len(),
{
    if plan.len() == 0 {
        0
    } else {
        plan_receivers(plan.drop_last()) + receiver_count(plan.last().1)
    }
}

proof fn lemma_receivers_in_outputs(k: nat, t: Capacity, change: int)
    ensures
        receiver_count(receiver_outputs(k, t)) == k,
        receiver_count(receiver_outputs(k, t) + change_outputs(change)) == k,
    decreases k,
{
    if k > 0 {
        assert(receiver_outputs(k, t).drop_last() =~= receiver_outputs((k - 1) as nat, t));
        lemma_receivers_in_outputs((k - 1) as nat, t, 0);
    }
    let rs = receiver_outputs(k, t);
    if change > 0 {
        assert((rs + change_outputs(change)).drop_last() =~= rs);
    } else {
        assert(rs + change_outputs(change) =~= rs);
    }
}

proof fn lemma_upto_receivers(
    cells: Seq<LiveCell>,
    t: Capacity,
    n: nat,
    min_spendable: Capacity,
    change_min: Capacity,
    dep: CellDep,
    i: nat,
)
    requires
        t > 0,
        i <= cells.len(),
    ensures
        plan_receivers(fan_out_upto(cells, t, n, min_spendable, change_min, dep, i)) == n - unfunded_after(
            cells,
            t,
            n,
            min_spendable,
            change_min,
            i,
        ),
    decreases i,
{
    if i > 0 {
        let p = (i - 1) as nat;
        lemma_upto_receivers(cells, t, n, min_spendable, change_min, dep, p);
        lemma_fan_out_upto(cells, t, n, min_spendable, change_min, dep, p);
        let prev = fan_out_upto(cells, t, n, min_spendable, change_min, dep, p);
        let r = unfunded_after(cells, t, n, min_spendable, change_min, p);
        let cell = cells[i - 1];
        let k = taken_by(cell, t, r, min_spendable, change_min);
        lemma_cell_outputs(cell.capacity as nat, t, r, change_min);
        if k > 0 {
            let cur = fan_out_upto(cells, t, n, min_spendable, change_min, dep, i);
            assert(cur.drop_last() =~= prev);
            lemma_receivers_in_outputs(k, t, cell.capacity - k * t);
        }
    }
}

/// A fan-out that succeeds gives the receiver exactly `n` new outputs.
pub proof fn lemma_fan_out_receives_exactly(
    cells: Seq<LiveCell>,
    t: Capacity,
    n: nat,
    min_spendable: Capacity,
    change_min: Capacity,
    dep: CellDep,
)
    requires
        t > 0,
        fan_out_unfunded(cells, t, n, min_spendable, change_min) == 0,
    ensures
        plan_receivers(fan_out_plan(cells, t, n, min_spendable, change_min, dep)) == n,
{
    lemma_upto_receivers(cells, t, n, min_spendable, change_min, dep, cells.len());
}

/// Change never falls below `change_min`: every output returned to the
/// sender holds at least what a cell locked by the sender occupies.
pub proof fn lemma_fan_out_change_min(
    cells: Seq<LiveCell>,
    t: Capacity,
    n: nat,
    min_spendable: Capacity,
    change_min: Capacity,
    dep: CellDep,
)
    requires
        t > 0,
    ensures
        forall|j: int, o: int|
            0 <= j < fan_out_plan(cells, t, n, min_spendable, change_min, dep).len() && 0 <= o
                < fan_out_plan(cells, t, n, min_spendable, change_min, dep)[j].1.len() && (#[trigger] fan_out_plan(
                cells,
                t,
                n,
                min_spendable,
                change_min,
                dep,
            )[j].1[o]).owner == Owner::Sender ==> fan_out_plan(cells, t, n, min_spendable, change_min, dep)[j].1[o].capacity
                >= change_min,
{
    lemma_fan_out_upto(cells, t, n, min_spendable, change_min, dep, cells.len());
    let plan = fan_out_plan(cells, t, n, min_spendable, change_min, dep);
    assert forall|j: int, o: int|
        0 <= j < plan.len() && 0 <= o < plan[j].1.len() && (#[trigger] plan[j].1[o]).owner == Owner::Sender implies plan[j].1[o].capacity >= change_min by {
        assert(fan_out_tx_sound(plan[j], t, min_spendable, change_min));
    }
}

/// When the eligible cells hold less than `n * t`, some receiver outputs
/// stay unfunded, so the fan-out fails with no transactions.
pub proof fn lemma_fan_out_insufficient(cells: Seq<LiveCell>, t: Capacity, n: nat, min_spendable: Capacity, change_min: Capacity)
    requires
        t > 0,
        eligible_total(cells, min_spendable, cells.len()) < n * t,
    ensures
        fan_out_unfunded(cells, t, n, min_spendable, change_min) > 0,
{
    let dep = arbitrary();
    lemma_fan_out_upto(cells, t, n, min_spendable, change_min, dep, cells.len());
}

/// `issue` fails, and so builds no transaction, whenever the eligible cells
/// hold less than `n` times the receiver's target capacity.
pub proof fn lemma_issue_insufficient(
    cells: Seq<LiveCell>,
    sender_args_len: nat,
    args_len: nat,
    n: nat,
    min_spendable: Capacity,
    dep: CellDep,
    r: Result<Vec<UnsignedTransaction>, PackError>,
)
    requires
        issue_outcome(cells, sender_args_len, args_len, n, min_spendable, dep, r),
        eligible_total(cells, min_spendable, cells.len()) < n * target_of(min_occupied_capacity(args_len)),
    ensures
        r is Err,
{
    if let Some(t) = issue_target(args_len) {
        if min_occupied_capacity(sender_args_len) <= u64::MAX {
            lemma_fan_out_insufficient(cells, t, n, min_spendable, min_occupied_capacity(sender_args_len) as u64);
        }
    }
}

/// When the eligible cells hold exactly `n * t` and the fan-out succeeds, no
/// transaction returns change to the sender.
pub proof fn lemma_fan_out_exact_no_change(
    cells: Seq<LiveCell>,
    t: Capacity,
    n: nat,
    min_spendable: Capacity, change_min: Capacity,
    dep: CellDep,
)
    requires
        t > 0,
        eligible_total(cells, min_spendable, cells.len()) == n * t,
        fan_out_unfunded(cells, t, n, min_spendable, change_min) == 0,
    ensures
        forall|j: int, o: int|
            0 <= j < fan_out_plan(cells, t, n, min_spendable, change_min, dep).len() && 0 <= o
                < fan_out_plan(cells, t, n, min_spendable, change_min, dep)[j].1.len() ==> (#[trigger] fan_out_plan(
                cells,
                t,
                n,
                min_spendable, change_min,
                dep,
            )[j].1[o]).owner == Owner::Receiver,
{
    lemma_fan_out_upto(cells, t, n, min_spendable, change_min, dep, cells.len());
}

/// The consolidation transactions: the first `count` cells, each moved
/// whole to the receiver.
pub open spec fn burn_plan(cells: Seq<LiveCell>, count: nat, dep: CellDep) -> Seq<
    (LiveCell, Seq<CandidateOutput>, CellDep),
> {
    Seq::new(
        min_nat(count, cells.len()),
        |i: int|
            (cells[i], seq![CandidateOutput { capacity: cells[i].capacity, owner: Owner::Receiver }], dep),
    )
}

/// Consolidates up to `outputs_count` of the sender's cells: each becomes
/// the single input of a transaction that hands its whole capacity to the
/// receiver.
pub fn burn(cells: &Vec<LiveCell>, outputs_count: usize, dep: CellDep) -> (r: Vec<UnsignedTransaction>)
    ensures
        r@.len() == burn_plan(cells@, outputs_count as nat, dep).len(),
        forall|j: int| 0 <= j < r@.len() ==> #[trigger] r@[j]@ == burn_plan(cells@, outputs_count as nat, dep)[j],
{
    let mut txs: Vec<UnsignedTransaction> = Vec::new();
    let mut i: usize = 0;
    while i < cells.len() && i < outputs_count
        invariant
            i <= cells.len(),
            i <= outputs_count,
            txs@.len() == i,
            forall|j: int| 0 <= j < i ==> #[trigger] txs@[j]@ == burn_plan(cells@, outputs_count as nat, dep)[j],
        decreases cells.len() - i,
    {
        let cell = cells[i];
        let output = CandidateOutput { capacity: cell.capacity, owner: Owner::Receiver };
        let outputs = vec![output];
        assert(outputs@ =~= seq![output]);
        txs.push(UnsignedTransaction { input: cell, outputs, cell_dep: dep });
        i = i + 1;
    }
    txs
}

/// Conservation: every consolidation transaction hands its input's whole
/// capacity to its single output.
pub proof fn lemma_burn_conserves(cells: Seq<LiveCell>, count: nat, dep: CellDep)
    ensures
        forall|j: int|
            0 <= j < burn_plan(cells, count, dep).len() ==> total_capacity(
                (#[trigger] burn_plan(cells, count, dep)[j]).1,
            ) == burn_plan(cells, count, dep)[j].0.capacity,
{
    let plan = burn_plan(cells, count, dep);
    assert forall|j: int| 0 <= j < plan.len() implies total_capacity((#[trigger] plan[j]).1) == plan[j].0.capacity by {
        assert(plan[j].1.drop_last() =~= Seq::<CandidateOutput>::empty());
        assert(total_capacity(Seq::<CandidateOutput>::empty()) == 0);
    }
}


/// Where the scripts' code lives: the code cell itself, and the transaction
/// whose first output groups it with its dependencies.
#[derive(Clone, Copy, Debug)]
pub struct SecpDeps {
    pub code: OutPoint,
    pub dep_group_tx_hash: [u8; 32],
}

pub open spec fn code_dep(secp: SecpDeps) -> CellDep {
    CellDep { out_point: secp.code, dep_type: DepType::Code }
}

pub open spec fn group_dep(secp: SecpDeps) -> CellDep {
    CellDep { out_point: OutPoint { tx_hash: secp.dep_group_tx_hash, index: 0 }, dep_type: DepType::DepGroup }
}

/// How the bench account's cells are brought to the number a run needs.
#[derive(Clone, Debug)]
pub enum Prepared {
    /// The bank fans cells out to the bench account.
    Issue(Vec<UnsignedTransaction>),
    /// The bench account hands surplus cells back to the bank.
    Burn(Vec<UnsignedTransaction>),
    /// The bench account already holds the number needed.
    Ready,
}

/// Brings the bench account (`alice`) to two cells per transaction of the
/// run: fans out from the bank when it has fewer, consolidates the surplus
/// back to the bank when it has more.
pub fn prepare(
    transactions: usize,
    bank: &Vec<LiveCell>,
    alice: &Vec<LiveCell>,
    bank_lock: &LockScript,
    alice_lock: &LockScript,
    min_spendable: Capacity,
    secp: SecpDeps,
) -> (r: Result<Prepared, PackError>)
    ensures
        ({
            let need = 2 * transactions;
            let have = alice@.len();
            &&& need > usize::MAX ==> r == Err::<Prepared, PackError>(PackError::CountOverflow)
            &&& need <= usize::MAX && need > have ==> match r {
                Ok(Prepared::Issue(txs)) => issue_outcome(
                    bank@,
                    bank_lock.args@.len(),
                    alice_lock.args@.len(),
                    (need - have) as nat,
                    min_spendable,
                    group_dep(secp),
                    Ok(txs),
                ),
                Ok(_) => false,
                Err(e) => issue_outcome(
                    bank@,
                    bank_lock.args@.len(),
                    alice_lock.args@.len(),
                    (need - have) as nat,
                    min_spendable,
                    group_dep(secp),
                    Err(e),
                ),
            }
            &&& need <= usize::MAX && need < have ==> match r {
                Ok(Prepared::Burn(txs)) => {
                    &&& txs@.len() == burn_plan(alice@, (have - need) as nat, code_dep(secp)).len()
                    &&& forall|j: int|
                        0 <= j < txs@.len() ==> #[trigger] txs@[j]@ == burn_plan(
                            alice@,
                            (have - need) as nat,
                            code_dep(secp),
                        )[j]
                },
                _ => false,
            }
            &&& need == have ==> r matches Ok(Prepared::Ready)
        }),
{
    let have = alice.len();
    if transactions > usize::MAX / 2 {
        assert(2 * transactions > usize::MAX) by (nonlinear_arith)
            requires
                transactions > usize::MAX / 2,
        ;
        return Err(PackError::CountOverflow);
    }
    let need = transactions * 2;
    if need > have {
        let dep = CellDep {
            out_point: OutPoint { tx_hash: secp.dep_group_tx_hash, index: 0 },
            dep_type: DepType::DepGroup,
        };
        match issue(bank, bank_lock, alice_lock, need - have, min_spendable, dep) {
            Ok(txs) => Ok(Prepared::Issue(txs)),
            Err(e) => Err(e),
        }
    } else if need < have {
        let dep = CellDep { out_point: secp.code, dep_type: DepType::Code };
        Ok(Prepared::Burn(burn(alice, have - need, dep)))
    } else {
        Ok(Prepared::Ready)
    }
}

} // verus!

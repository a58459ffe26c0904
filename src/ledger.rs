//! The ledger's own types, reached through `ckb_types`: lock scripts, the
//! occupied capacity of a cell, and building a transaction from a packed plan.
use crate::packer::{Capacity, CellDep, DepType, OutPoint, Owner, UnsignedTransaction};
use ckb_types::packed;
use ckb_types::prelude::{Builder, Entity, Pack, Unpack};
use vstd::prelude::*;

verus! {

/// Shannons in one byte of occupied capacity.
pub const BYTE_SHANNONS: u64 = 100_000_000;

/// A lock script: the code it runs, how that code is named, and its arguments.
#[derive(Clone, Debug)]
pub struct LockScript {
    pub code_hash: [u8; 32],
    pub hash_type: u8,
    pub args: Vec<u8>,
}

/// Occupied capacity of an output with no data and no type script, locked by
/// a script with `args_len` bytes of arguments: the 8-byte capacity field,
/// the 32-byte code hash, the hash type byte and the arguments.
pub open spec fn min_occupied_capacity(args_len: nat) -> nat {
    ((8 + 32 + 1 + args_len) * BYTE_SHANNONS) as nat
}

#[verifier::external_type_specification]
#[verifier::external_body]
pub struct ExTransactionBuilder(ckb_types::core::TransactionBuilder);

#[verifier::external_type_specification]
#[verifier::external_body]
pub struct ExTransactionView(ckb_types::core::TransactionView);

/// Relies on `packed::Script`'s builder and on
/// `packed::CellOutput::occupied_capacity` with zero data capacity, for an
/// output locked by `lock` with no type script: the byte count times
/// `BYTE_SHANNONS`, or an error where that leaves `u64`.
#[verifier::external_body]
fn output_occupied_capacity(lock: &LockScript) -> (r: Option<u64>)
    ensures
        min_occupied_capacity(lock.args@.len()) <= u64::MAX ==> r == Some(
            min_occupied_capacity(lock.args@.len()) as u64,
        ),
        min_occupied_capacity(lock.args@.len()) > u64::MAX ==> r.is_none(),
{
    let script = packed::Script::new_builder()
        .code_hash(lock.code_hash.pack())
        .hash_type(packed::Byte::new(lock.hash_type))
        .args(lock.args[..].pack())
        .build();
    let output = packed::CellOutput::new_builder().lock(script).build();
    match output.occupied_capacity(ckb_types::core::Capacity::zero()) {
        Ok(c) => Some(c.as_u64()),
        Err(_) => None,
    }
}

/// Minimum occupied capacity of an output locked by `lock`, with no data
/// and no type script; `None` where it does not fit a `u64`.
pub fn min_capacity(lock: &LockScript) -> (r: Option<Capacity>)
    ensures
        min_occupied_capacity(lock.args@.len()) <= u64::MAX ==> r == Some(
            min_occupied_capacity(lock.args@.len()) as u64,
        ),
        min_occupied_capacity(lock.args@.len()) > u64::MAX ==> r.is_none(),
{
    output_occupied_capacity(lock)
}

/// An output as the hash sees it: capacity, then its lock's code hash, hash
/// type and arguments; its data is always empty.
pub type OutputModel = (u64, [u8; 32], u8, Vec<u8>);

pub open spec fn output_view(o: OutputModel) -> (u64, [u8; 32], u8, Seq<u8>) {
    (o.0, o.1, o.2, o.3@)
}

/// The output of `capacity` locked by `lock`, as the hash sees it.
pub open spec fn locked_output(capacity: u64, lock: LockScript) -> (u64, [u8; 32], u8, Seq<u8>) {
    (capacity, lock.code_hash, lock.hash_type, lock.args@)
}

/// A transaction under construction, with what it holds so far kept beside
/// it as plain values. Only the wrappers below make or change one.
pub struct LedgerBuilder {
    builder: ckb_types::core::TransactionBuilder,
    inputs: Vec<OutPoint>,
    outputs: Vec<OutputModel>,
    cell_deps: Vec<CellDep>,
}

impl LedgerBuilder {
    pub closed spec fn spec_inputs(&self) -> Seq<OutPoint> {
        self.inputs@
    }

    pub closed spec fn spec_outputs(&self) -> Seq<(u64, [u8; 32], u8, Seq<u8>)> {
        self.outputs@.map_values(|o: OutputModel| output_view(o))
    }

    pub closed spec fn spec_cell_deps(&self) -> Seq<CellDep> {
        self.cell_deps@
    }
}

/// Relies on `TransactionBuilder::default`: a builder with nothing in it.
#[verifier::external_body]
fn new_builder() -> (r: LedgerBuilder)
    ensures
        r.spec_inputs() == Seq::<OutPoint>::empty(),
        r.spec_outputs() == Seq::<(u64, [u8; 32], u8, Seq<u8>)>::empty(),
        r.spec_cell_deps() == Seq::<CellDep>::empty(),
{
    let builder = ckb_types::core::TransactionBuilder::default();
    LedgerBuilder { builder, inputs: Vec::new(), outputs: Vec::new(), cell_deps: Vec::new() }
}

/// Relies on `TransactionBuilder::input` and `CellInput::new`: appends an
/// input spending `out_point`, with no `since` constraint.
#[verifier::external_body]
fn push_input(b: LedgerBuilder, out_point: &OutPoint) -> (r: LedgerBuilder)
    ensures
        r.spec_inputs() == b.spec_inputs().push(*out_point),
        r.spec_outputs() == b.spec_outputs(),
        r.spec_cell_deps() == b.spec_cell_deps(),
{
    let LedgerBuilder { builder, mut inputs, outputs, cell_deps } = b;
    let op = packed::OutPoint::new(out_point.tx_hash.pack(), out_point.index);
    inputs.push(*out_point);
    LedgerBuilder { builder: builder.input(packed::CellInput::new(op, 0)), inputs, outputs, cell_deps }
}

/// Relies on `packed::Script`'s and `packed::CellOutput`'s builders and on
/// `TransactionBuilder::output` and `output_data`: appends an output of
/// `capacity` locked by `lock`, with empty data.
#[verifier::external_body]
fn push_output(b: LedgerBuilder, capacity: u64, lock: &LockScript) -> (r: LedgerBuilder)
    ensures
        r.spec_inputs() == b.spec_inputs(),
        r.spec_outputs() == b.spec_outputs().push(locked_output(capacity, *lock)),
        r.spec_cell_deps() == b.spec_cell_deps(),
{
    let LedgerBuilder { builder, inputs, mut outputs, cell_deps } = b;
    let script = packed::Script::new_builder().code_hash(lock.code_hash.pack()).hash_type(packed::Byte::new(
        lock.hash_type)).args(lock.args[..].pack()).build();
    let output = packed::CellOutput::new_builder().capacity(capacity).lock(script).build();
    outputs.push((capacity, lock.code_hash, lock.hash_type, lock.args.clone()));
    let builder = builder.output(output).output_data(packed::Bytes::default());
    LedgerBuilder { builder, inputs, outputs, cell_deps }
}

/// Relies on `TransactionBuilder::cell_dep`: appends a dependency on the
/// code at `out_point`, or on the group of cells it lists.
#[verifier::external_body]
fn push_cell_dep(b: LedgerBuilder, out_point: &OutPoint, dep_group: bool) -> (r: LedgerBuilder)
    ensures
        r.spec_inputs() == b.spec_inputs(),
        r.spec_outputs() == b.spec_outputs(),
        r.spec_cell_deps() == b.spec_cell_deps().push(
            CellDep { out_point: *out_point, dep_type: if dep_group { DepType::DepGroup } else { DepType::Code } },
        ),
{
    let LedgerBuilder { builder, inputs, outputs, mut cell_deps } = b;
    let op = packed::OutPoint::new(out_point.tx_hash.pack(), out_point.index);
    let (dep_type, kind) = if dep_group { (DepType::DepGroup, ckb_types::core::DepType::DepGroup) } else { (DepType::Code, ckb_types::core::DepType::Code) };
    cell_deps.push(CellDep { out_point: *out_point, dep_type });
    let builder = builder.cell_dep(packed::CellDep::new_builder().out_point(op).dep_type(kind).build());
    LedgerBuilder { builder, inputs, outputs, cell_deps }
}

/// A ledger transaction, with its hash, witnesses and contents kept beside
/// it as plain values. Only `finish` and `with_witness` make one.
pub struct LedgerTransaction {
    view: ckb_types::core::TransactionView,
    hash: [u8; 32],
    witnesses: Vec<Vec<u8>>,
    inputs: Vec<OutPoint>,
    outputs: Vec<OutputModel>,
    cell_deps: Vec<CellDep>,
}

impl LedgerTransaction {
    /// The hash of the transaction without its witnesses.
    pub closed spec fn spec_hash(&self) -> Seq<u8> {
        self.hash@
    }

    /// The witnesses, in order.
    pub closed spec fn spec_witnesses(&self) -> Seq<Seq<u8>> {
        self.witnesses@.map_values(|w: Vec<u8>| w@)
    }

    pub closed spec fn spec_inputs(&self) -> Seq<OutPoint> {
        self.inputs@
    }

    pub closed spec fn spec_outputs(&self) -> Seq<(u64, [u8; 32], u8, Seq<u8>)> {
        self.outputs@.map_values(|o: OutputModel| output_view(o))
    }

    pub closed spec fn spec_cell_deps(&self) -> Seq<CellDep> {
        self.cell_deps@
    }

    pub fn hash(&self) -> (r: [u8; 32])
        ensures
            r@ == self.spec_hash(),
    {
        self.hash
    }

    pub fn witness_count(&self) -> (r: usize)
        ensures
            r == self.spec_witnesses().len(),
    {
        self.witnesses.len()
    }

    /// The transaction in the ledger's own type, to serialize and send.
    pub fn view(&self) -> &ckb_types::core::TransactionView {
        &self.view
    }
}

/// Relies on `TransactionBuilder::build` and `TransactionView::hash`: the
/// built transaction, with no witnesses, and its hash.
#[verifier::external_body]
fn finish(b: LedgerBuilder) -> (r: LedgerTransaction)
    ensures
        r.spec_inputs() == b.spec_inputs(),
        r.spec_outputs() == b.spec_outputs(),
        r.spec_cell_deps() == b.spec_cell_deps(),
        r.spec_witnesses() == Seq::<Seq<u8>>::empty(),
{
    let LedgerBuilder { builder, inputs, outputs, cell_deps } = b;
    let view = builder.build();
    LedgerTransaction { hash: view.hash().unpack(), witnesses: Vec::new(), view, inputs, outputs, cell_deps }
}

/// Relies on `as_advanced_builder`, `set_witnesses` and `build`: the same
/// transaction, whose hash leaves witnesses out, with `witness` as its only
/// witness.
#[verifier::external_body]
pub(crate) fn with_witness(tx: &LedgerTransaction, witness: &Vec<u8>) -> (r: LedgerTransaction)
    ensures
        r.spec_hash() == tx.spec_hash(),
        r.spec_witnesses() == seq![witness@],
        r.spec_inputs() == tx.spec_inputs(),
        r.spec_outputs() == tx.spec_outputs(),
        r.spec_cell_deps() == tx.spec_cell_deps(),
{
    let view = tx.view.as_advanced_builder().set_witnesses(vec![witness[..].pack()]).build();
    let (inputs, outputs, cell_deps) = (tx.inputs.clone(), tx.outputs.clone(), tx.cell_deps.clone());
    LedgerTransaction { hash: view.hash().unpack(), witnesses: vec![witness.clone()], view, inputs, outputs, cell_deps }
}

/// The lock script that guards an output of `owner`.
pub open spec fn lock_of(owner: Owner, sender: LockScript, receiver: LockScript) -> LockScript {
    match owner {
        Owner::Sender => sender,
        Owner::Receiver => receiver,
    }
}

/// The ledger transaction for `tx`: its input, its outputs in order, each
/// locked by the sender's or the receiver's script and with empty data, its
/// cell dependency, and no witnesses yet.
pub fn build_transaction(tx: &UnsignedTransaction, sender: &LockScript, receiver: &LockScript) -> (r: LedgerTransaction)
    ensures
        r.spec_inputs() == seq![tx.input.out_point],
        r.spec_outputs().len() == tx.outputs@.len(),
        forall|i: int|
            0 <= i < tx.outputs@.len() ==> #[trigger] r.spec_outputs()[i] == locked_output(
                tx.outputs@[i].capacity,
                lock_of(tx.outputs@[i].owner, *sender, *receiver),
            ),
        r.spec_cell_deps() == seq![tx.cell_dep],
        r.spec_witnesses() == Seq::<Seq<u8>>::empty(),
{
    let mut b = new_builder();
    b = push_input(b, &tx.input.out_point);
    assert(b.spec_inputs() =~= seq![tx.input.out_point]);
    let mut i: usize = 0;
    while i < tx.outputs.len()
        invariant
            i <= tx.outputs.len(),
            b.spec_inputs() == seq![tx.input.out_point],
            b.spec_cell_deps() == Seq::<CellDep>::empty(),
            b.spec_outputs().len() == i,
            forall|j: int|
                0 <= j < i ==> #[trigger] b.spec_outputs()[j] == locked_output(
                    tx.outputs@[j].capacity,
                    lock_of(tx.outputs@[j].owner, *sender, *receiver),
                ),
        decreases tx.outputs.len() - i,
    {
        let output = tx.outputs[i];
        b = match output.owner {
            Owner::Sender => push_output(b, output.capacity, sender),
            Owner::Receiver => push_output(b, output.capacity, receiver),
        };
        i = i + 1;
    }
    let dep_group = match tx.cell_dep.dep_type {
        DepType::Code => false,
        DepType::DepGroup => true,
    };
    b = push_cell_dep(b, &tx.cell_dep.out_point, dep_group);
    assert(b.spec_cell_deps() =~= seq![tx.cell_dep]);
    finish(b)
}

} // verus!

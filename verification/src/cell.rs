//! The cell model: out-points, cells, the provider that looks cells up, and
//! the shape of a resolved transaction.

use vstd::prelude::*;
use crate::primitive::{H256, keccak256, keccak_digest};

verus! {

/// The text whose Keccak-256 digest names the script of the cell verifier:
/// the ASCII letters of `AxonCellVerifier`.
pub open spec fn cell_verifier_seed() -> Seq<u8> {
    seq![
        65u8, 120u8, 111u8, 110u8, 67u8, 101u8, 108u8, 108u8, 86u8, 101u8, 114u8, 105u8, 102u8,
        105u8, 101u8, 114u8,
    ]
}

/// The code hash of the script of the cell verifier.
pub fn cell_verifier_code_hash() -> (r: H256)
    ensures
        r@ == keccak256(cell_verifier_seed()),
{
    let seed: [u8; 16] = [65, 120, 111, 110, 67, 101, 108, 108, 86, 101, 114, 105, 102, 105, 101, 114];
    assert(seed@ =~= cell_verifier_seed());
    keccak_digest(seed.as_slice())
}

/// Reference to one output of a transaction.
#[derive(Clone, Copy, Debug, PartialEq, Eq)]
pub struct OutPoint {
    pub tx_hash: H256,
    pub index: u32,
}

/// A script: the hash of its code, the byte that says how that hash is to
/// be read, and its arguments.
#[derive(Clone, Debug, PartialEq, Eq)]
pub struct Script {
    pub code_hash: H256,
    pub hash_type: u8,
    pub args: Vec<u8>,
}

/// Output descriptor of a cell: its capacity, its lock and its optional type.
#[derive(Clone, Debug, PartialEq, Eq)]
pub struct CellOutput {
    pub capacity: u64,
    pub lock: Script,
    pub type_: Option<Script>,
}

/// Where on the chain a cell was created.
#[derive(Clone, Copy, Debug, PartialEq, Eq)]
pub struct TransactionInfo {
    pub block_hash: H256,
    pub block_number: u64,
    pub block_epoch: u64,
    pub index: usize,
}

/// One resolved cell.
#[derive(Clone, Debug, PartialEq, Eq)]
pub struct CellMeta {
    pub cell_output: CellOutput,
    pub out_point: OutPoint,
    pub transaction_info: Option<TransactionInfo>,
    pub data_bytes: u64,
    pub mem_cell_data: Option<Vec<u8>>,
    pub mem_cell_data_hash: Option<H256>,
}

/// What a provider knows of an out-point.
#[derive(Clone, Debug, PartialEq, Eq)]
pub enum CellStatus {
    Live(CellMeta),
    Dead,
    Unknown,
}

/// Whether a dependency names a cell of code or a cell that lists others.
#[derive(Clone, Copy, Debug, PartialEq, Eq)]
pub enum DepType {
    Code,
    DepGroup,
}

#[derive(Clone, Copy, Debug, PartialEq, Eq)]
pub struct CellDep {
    pub out_point: OutPoint,
    pub dep_type: DepType,
}

/// What resolution reads of a cell-model transaction: its hash, the
/// out-points it spends and the dependencies it declares, both in order.
#[derive(Clone, Debug, PartialEq, Eq)]
pub struct TransactionView {
    pub hash: H256,
    pub inputs: Vec<OutPoint>,
    pub cell_deps: Vec<CellDep>,
}

/// Caller-supplied cell that stands in for the virtual input.
#[derive(Clone, Debug, PartialEq, Eq)]
pub struct InputLock {
    pub lock_code_hash: H256,
    pub lock_args: Vec<u8>,
    pub hash_type: u8,
    pub capacity: u64,
    pub data: Vec<u8>,
}

impl InputLock {
    pub fn capacity(&self) -> (r: u64)
        ensures
            r == self.capacity,
    {
        self.capacity
    }
}

/// A transaction with every cell it refers to materialised.
#[derive(Clone, Debug, PartialEq, Eq)]
pub struct ResolvedTransaction {
    pub transaction: TransactionView,
    pub resolved_cell_deps: Vec<CellMeta>,
    pub resolved_inputs: Vec<CellMeta>,
    pub resolved_dep_groups: Vec<CellMeta>,
}

/// Why a resolution failed, as a mathematical value.
pub ghost enum Failure {
    UnknownCell(OutPoint),
    InvalidDummyInput,
    InvalidDepGroup(Seq<char>),
}

/// Why a resolution failed.
#[derive(Clone, Debug, PartialEq, Eq)]
pub enum InteroperationError {
    /// The out-point is not a live cell.
    GetUnknownCell(OutPoint),
    /// The virtual input occurs and no cell was supplied for it.
    InvalidDummyInput,
    /// The content of a dependency group does not list out-points.
    InvalidDepGroup(String),
}

impl View for InteroperationError {
    type V = Failure;

    open spec fn view(&self) -> Failure {
        match *self {
            InteroperationError::GetUnknownCell(op) => Failure::UnknownCell(op),
            InteroperationError::InvalidDummyInput => Failure::InvalidDummyInput,
            InteroperationError::InvalidDepGroup(msg) => Failure::InvalidDepGroup(msg@),
        }
    }
}

/// A store of cells. `status` is what the store holds for an out-point, with
/// the cell's content loaded; a lookup that asks for the content reports
/// exactly that.
pub trait CellProvider {
    open spec fn status(&self, out_point: OutPoint) -> CellStatus {
        arbitrary()
    }

    fn cell(&self, out_point: &OutPoint, with_data: bool) -> (r: CellStatus)
        ensures
            with_data ==> r == self.status(*out_point),
    ;
}

} // verus!

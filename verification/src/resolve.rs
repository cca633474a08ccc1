//! Resolution of a cell-model transaction against a cell provider.

use vstd::prelude::*;
use crate::primitive::{H256, keccak256, blake2b_256, blake2b_digest, keccak_digest, same_hash, copy_bytes};
use crate::cell::{
    CellDep, CellMeta, CellOutput, CellProvider, CellStatus, DepType, Failure, InputLock,
    InteroperationError, OutPoint, ResolvedTransaction, Script, TransactionView,
};

verus! {

/// The text whose Keccak-256 digest is the transaction hash of the virtual
/// input: the ASCII letters of `DummyInputOutpointTxHash`.
pub open spec fn dummy_seed() -> Seq<u8> {
    seq![
        68u8, 117u8, 109u8, 109u8, 121u8, 73u8, 110u8, 112u8, 117u8, 116u8, 79u8, 117u8,
        116u8, 112u8, 111u8, 105u8, 110u8, 116u8, 84u8, 120u8, 72u8, 97u8, 115u8, 104u8,
    ]
}

/// Whether an out-point is the reserved marker of the virtual input.
pub open spec fn is_dummy(out_point: OutPoint) -> bool {
    out_point.index == 0 && out_point.tx_hash@ == keccak256(dummy_seed())
}

/// The reserved out-point that marks the virtual input.
pub fn dummy_input_out_point() -> (r: OutPoint)
    ensures
        is_dummy(r),
{
    let seed: [u8; 24] = [
        68, 117, 109, 109, 121, 73, 110, 112, 117, 116, 79, 117, 116, 112, 111, 105, 110, 116,
        84, 120, 72, 97, 115, 104,
    ];
    assert(seed@ =~= dummy_seed());
    OutPoint { tx_hash: keccak_digest(seed.as_slice()), index: 0 }
}

/// Whether `out_point` is the reserved marker of the virtual input.
pub fn is_dummy_out_point(out_point: &OutPoint) -> (r: bool)
    ensures
        r == is_dummy(*out_point),
{
    let marker = dummy_input_out_point();
    out_point.index == marker.index && same_hash(&out_point.tx_hash, &marker.tx_hash)
}

/// The number that four bytes spell, lowest byte first.
pub open spec fn le_u32(b: Seq<u8>) -> int
    recommends
        b.len() == 4,
{
    b[0] as int + 256 * (b[1] as int) + 65536 * (b[2] as int) + 16777216 * (b[3] as int)
}

/// The number of items that the header of an encoded list announces.
pub open spec fn item_count(bytes: Seq<u8>) -> int
    recommends
        bytes.len() >= 4,
{
    le_u32(bytes.subrange(0, 4))
}

/// Whether `bytes` is the encoding of a list of out-points: a count of four
/// bytes, then 36 bytes for each item and nothing else.
pub open spec fn well_formed(bytes: Seq<u8>) -> bool {
    bytes.len() >= 4 && bytes.len() == 4 + 36 * item_count(bytes)
}

/// Whether `items` is what a well-formed `bytes` lists: item `i` takes its
/// hash from 32 bytes and its index from the four that follow.
pub open spec fn decodes_to(bytes: Seq<u8>, items: Seq<OutPoint>) -> bool {
    &&& items.len() == item_count(bytes)
    &&& forall|i: int|
        0 <= i < items.len() ==> {
            &&& (#[trigger] items[i]).tx_hash@ == bytes.subrange(4 + 36 * i, 36 + 36 * i)
            &&& items[i].index as int == le_u32(bytes.subrange(36 + 36 * i, 40 + 36 * i))
        }
}

/// The out-points that a well-formed `bytes` lists.
pub open spec fn out_points_in(bytes: Seq<u8>) -> Seq<OutPoint> {
    choose|items: Seq<OutPoint>| decodes_to(bytes, items)
}

/// Whether the size that the header of `bytes` announces, four bytes and
/// 36 for each item, is a size that this machine can count. Bytes too short
/// to hold a header announce nothing.
pub open spec fn announced_size_fits(bytes: Seq<u8>) -> bool {
    bytes.len() < 4 || 4 + 36 * item_count(bytes) <= usize::MAX
}

/// Reads the header of `slice` and tells whether the size it announces can
/// be counted on this machine.
pub fn size_fits(slice: &[u8]) -> (r: bool)
    ensures
        r == announced_size_fits(slice@),
{
    if slice.len() < 4 {
        return true;
    }
    let b0: u64 = slice[0] as u64;
    let b1: u64 = slice[1] as u64;
    let b2: u64 = slice[2] as u64;
    let b3: u64 = slice[3] as u64;
    let count: u64 = b0 + 256 * b1 + 65536 * b2 + 16777216 * b3;
    proof {
        let header = slice@.subrange(0, 4);
        assert(header[0] == slice@[0] && header[1] == slice@[1] && header[2] == slice@[2]
            && header[3] == slice@[3]);
        assert(count as int == item_count(slice@));
    }
    let total: u64 = 4 + 36 * count;
    total <= usize::MAX as u64
}

/// The words with which the decoder of `ckb_types` turns down bytes that are
/// not the encoding of a list of out-points.
pub uninterp spec fn out_point_vec_error(bytes: Seq<u8>) -> Seq<char>;

/// Calls `ckb_types::packed::OutPointVec::from_slice` and hands each item
/// out as an [`OutPoint`]. The decoder counts the announced size in
/// `usize`, so the call is made only where that size fits. Trusted: the
/// call then succeeds exactly on a well-formed encoding, the items are
/// those that the bytes list, and the error's text is not empty and
/// depends on the bytes alone.
#[verifier::external_body]
pub(crate) fn decode_out_point_vec(slice: &[u8]) -> (r: Result<Vec<OutPoint>, String>)
    requires
        announced_size_fits(slice@),
    ensures
        match r {
            Ok(items) => well_formed(slice@) && decodes_to(slice@, items@),
            Err(msg) => !well_formed(slice@) && msg@ == out_point_vec_error(slice@)
                && out_point_vec_error(slice@).len() > 0,
        },
{
    match <ckb_types::packed::OutPointVec as ckb_types::prelude::Entity>::from_slice(slice) {
        Ok(list) => Ok(
            list.into_iter().map(
                |item| OutPoint {
                    tx_hash: ckb_types::prelude::Unpack::<ckb_types::H256>::unpack(&item.tx_hash()).0,
                    index: ckb_types::prelude::Unpack::<u32>::unpack(&item.index()),
                },
            ).collect(),
        ),
        Err(err) => Err(err.to_string()),
    }
}

/// Two lists that one encoding decodes to are the same list.
pub proof fn decoding_is_unique(bytes: Seq<u8>, a: Seq<OutPoint>, b: Seq<OutPoint>)
    requires
        decodes_to(bytes, a),
        decodes_to(bytes, b),
    ensures
        a == b,
{
    assert forall|i: int| 0 <= i < a.len() implies a[i] == b[i] by {
        assert(a[i].tx_hash@ == b[i].tx_hash@);
        assert(a[i].tx_hash =~= b[i].tx_hash);
        assert(a[i].index == b[i].index);
    }
    assert(a =~= b);
}

/// What the content of a dependency group parses to: its out-points, or the
/// reason why it lists none.
pub open spec fn dep_group_parse(bytes: Seq<u8>) -> Result<Seq<OutPoint>, Seq<char>> {
    if bytes.len() == 0 {
        Err("data is empty"@)
    } else if !announced_size_fits(bytes) {
        Err("dep group is too large"@)
    } else if !well_formed(bytes) {
        Err(out_point_vec_error(bytes))
    } else if item_count(bytes) == 0 {
        Err("dep group is empty"@)
    } else {
        Ok(out_points_in(bytes))
    }
}

/// Parses the content of a dependency group: a non-empty list of out-points.
/// It succeeds exactly on a well-formed encoding of at least one out-point;
/// every other content is turned down with words that say why.
pub fn parse_dep_group_data(slice: &[u8]) -> (r: Result<Vec<OutPoint>, String>)
    ensures
        r is Ok <==> well_formed(slice@) && item_count(slice@) >= 1,
        match r {
            Ok(items) => dep_group_parse(slice@) == Ok::<Seq<OutPoint>, Seq<char>>(items@)
                && decodes_to(slice@, items@) && items@.len() > 0,
            Err(msg) => dep_group_parse(slice@) == Err::<Seq<OutPoint>, Seq<char>>(msg@)
                && msg@.len() > 0,
        },
{
    proof {
        reveal_strlit("data is empty");
        reveal_strlit("dep group is too large");
        reveal_strlit("dep group is empty");
    }
    if slice.len() == 0 {
        Err("data is empty".to_owned())
    } else if !size_fits(slice) {
        Err("dep group is too large".to_owned())
    } else {
        match decode_out_point_vec(slice) {
            Ok(v) => {
                if v.len() == 0 {
                    Err("dep group is empty".to_owned())
                } else {
                    proof {
                        decoding_is_unique(slice@, v@, out_points_in(slice@));
                    }
                    Ok(v)
                }
            },
            Err(err) => Err(err),
        }
    }
}

/// Why resolving one input fails, if it does: the virtual input needs a
/// supplied cell, any other out-point a live cell.
pub open spec fn input_failure<P: CellProvider>(
    provider: &P,
    out_point: OutPoint,
    supplied: bool,
) -> Option<Failure> {
    if is_dummy(out_point) {
        if supplied {
            None
        } else {
            Some(Failure::InvalidDummyInput)
        }
    } else {
        match provider.status(out_point) {
            CellStatus::Live(_) => None,
            _ => Some(Failure::UnknownCell(out_point)),
        }
    }
}

/// The failure of the first input, in declared order, that does not resolve.
pub open spec fn inputs_failure<P: CellProvider>(
    provider: &P,
    inputs: Seq<OutPoint>,
    supplied: bool,
) -> Option<Failure>
    decreases inputs.len(),
{
    if inputs.len() == 0 {
        None
    } else {
        match inputs_failure(provider, inputs.drop_last(), supplied) {
            Some(failure) => Some(failure),
            None => input_failure(provider, inputs.last(), supplied),
        }
    }
}

/// Whether `meta` is the cell synthesised from `lock` for the virtual input
/// at `out_point`: not on the chain, locked as `lock` says, holding its data.
pub open spec fn synthesized(lock: InputLock, out_point: OutPoint, meta: CellMeta) -> bool {
    &&& meta.cell_output.lock.code_hash == lock.lock_code_hash
    &&& meta.cell_output.lock.hash_type == lock.hash_type
    &&& meta.cell_output.lock.args@ == lock.lock_args@
    &&& meta.cell_output.capacity == lock.capacity
    &&& meta.cell_output.type_ is None
    &&& meta.out_point == out_point
    &&& meta.transaction_info is None
    &&& meta.data_bytes as int == lock.data@.len()
    &&& match meta.mem_cell_data {
        Some(data) => data@ == lock.data@,
        None => false,
    }
    &&& match meta.mem_cell_data_hash {
        Some(hash) => hash@ == blake2b_256(lock.data@),
        None => false,
    }
}

/// Whether `meta` is what the input `out_point` resolves to.
pub open spec fn input_resolved<P: CellProvider>(
    provider: &P,
    out_point: OutPoint,
    dummy_input: Option<InputLock>,
    meta: CellMeta,
) -> bool {
    if is_dummy(out_point) {
        match dummy_input {
            Some(lock) => synthesized(lock, out_point, meta),
            None => false,
        }
    } else {
        provider.status(out_point) == CellStatus::Live(meta)
    }
}

/// The live cells behind `out_points`, in order, or the first that is not
/// live.
pub open spec fn live_cells<P: CellProvider>(provider: &P, out_points: Seq<OutPoint>) -> Result<
    Seq<CellMeta>,
    Failure,
>
    decreases out_points.len(),
{
    if out_points.len() == 0 {
        Ok(Seq::empty())
    } else {
        match live_cells(provider, out_points.drop_last()) {
            Err(failure) => Err(failure),
            Ok(cells) => match provider.status(out_points.last()) {
                CellStatus::Live(meta) => Ok(cells.push(meta)),
                _ => Err(Failure::UnknownCell(out_points.last())),
            },
        }
    }
}

/// The content that a cell holds in memory; a cell without content holds
/// none.
pub open spec fn content(meta: CellMeta) -> Seq<u8> {
    match meta.mem_cell_data {
        Some(data) => data@,
        None => Seq::empty(),
    }
}

/// What one dependency contributes: the cells it stands for and, for a
/// group, the group's own cell.
pub open spec fn dep_cells<P: CellProvider>(provider: &P, dep: CellDep) -> Result<
    (Seq<CellMeta>, Option<CellMeta>),
    Failure,
> {
    match provider.status(dep.out_point) {
        CellStatus::Live(cell) => if dep.dep_type == DepType::DepGroup {
            match dep_group_parse(content(cell)) {
                Err(msg) => Err(Failure::InvalidDepGroup(msg)),
                Ok(members) => match live_cells(provider, members) {
                    Err(failure) => Err(failure),
                    Ok(cells) => Ok((cells, Some(cell))),
                },
            }
        } else {
            Ok((seq![cell], None))
        },
        _ => Err(Failure::UnknownCell(dep.out_point)),
    }
}

/// The flattened dependency cells and the group cells of `deps`, both in
/// declared order, or the first failure met on the way.
pub open spec fn deps_resolution<P: CellProvider>(provider: &P, deps: Seq<CellDep>) -> Result<
    (Seq<CellMeta>, Seq<CellMeta>),
    Failure,
>
    decreases deps.len(),
{
    if deps.len() == 0 {
        Ok((Seq::empty(), Seq::empty()))
    } else {
        match deps_resolution(provider, deps.drop_last()) {
            Err(failure) => Err(failure),
            Ok((cells, groups)) => match dep_cells(provider, deps.last()) {
                Err(failure) => Err(failure),
                Ok((more, group)) => Ok(
                    (
                        cells + more,
                        match group {
                            Some(cell) => groups.push(cell),
                            None => groups,
                        },
                    ),
                ),
            },
        }
    }
}

proof fn inputs_failure_extends<P: CellProvider>(
    provider: &P,
    inputs: Seq<OutPoint>,
    supplied: bool,
    k: int,
)
    requires
        0 <= k <= inputs.len(),
        inputs_failure(provider, inputs.take(k), supplied) is Some,
    ensures
        inputs_failure(provider, inputs, supplied) == inputs_failure(
            provider,
            inputs.take(k),
            supplied,
        ),
    decreases inputs.len() - k,
{
    if k < inputs.len() {
        assert(inputs.take(k + 1).drop_last() == inputs.take(k));
        inputs_failure_extends(provider, inputs, supplied, k + 1);
    } else {
        assert(inputs.take(k) == inputs);
    }
}

proof fn live_cells_failure_extends<P: CellProvider>(
    provider: &P,
    out_points: Seq<OutPoint>,
    k: int,
)
    requires
        0 <= k <= out_points.len(),
        live_cells(provider, out_points.take(k)) is Err,
    ensures
        live_cells(provider, out_points) == live_cells(provider, out_points.take(k)),
    decreases out_points.len() - k,
{
    if k < out_points.len() {
        assert(out_points.take(k + 1).drop_last() == out_points.take(k));
        live_cells_failure_extends(provider, out_points, k + 1);
    } else {
        assert(out_points.take(k) == out_points);
    }
}

proof fn deps_failure_extends<P: CellProvider>(provider: &P, deps: Seq<CellDep>, k: int)
    requires
        0 <= k <= deps.len(),
        deps_resolution(provider, deps.take(k)) is Err,
    ensures
        deps_resolution(provider, deps) == deps_resolution(provider, deps.take(k)),
    decreases deps.len() - k,
{
    if k < deps.len() {
        assert(deps.take(k + 1).drop_last() == deps.take(k));
        deps_failure_extends(provider, deps, k + 1);
    } else {
        assert(deps.take(k) == deps);
    }
}

/// Looks one out-point up and insists on a live cell.
fn resolve_cell<P: CellProvider>(provider: &P, out_point: &OutPoint) -> (r: Result<
    CellMeta,
    InteroperationError,
>)
    ensures
        match r {
            Ok(meta) => provider.status(*out_point) == CellStatus::Live(meta),
            Err(e) => !(provider.status(*out_point) is Live) && e@ == Failure::UnknownCell(
                *out_point,
            ),
        },
{
    match provider.cell(out_point, true) {
        CellStatus::Live(meta) => Ok(meta),
        _ => Err(InteroperationError::GetUnknownCell(*out_point)),
    }
}

/// The cell that stands in for the virtual input at `out_point`.
fn synthesize(lock: &InputLock, out_point: OutPoint) -> (r: CellMeta)
    ensures
        synthesized(*lock, out_point, r),
{
    let input_lock = Script {
        code_hash: lock.lock_code_hash,
        hash_type: lock.hash_type,
        args: copy_bytes(&lock.lock_args),
    };
    CellMeta {
        cell_output: CellOutput { capacity: lock.capacity(), lock: input_lock, type_: None },
        out_point,
        transaction_info: None,
        data_bytes: lock.data.len() as u64,
        mem_cell_data_hash: Some(blake2b_digest(lock.data.as_slice())),
        mem_cell_data: Some(copy_bytes(&lock.data)),
    }
}

/// Resolves the members of a dependency group, appending them to `cells`.
fn resolve_members<P: CellProvider>(
    provider: &P,
    members: &Vec<OutPoint>,
    cells: &mut Vec<CellMeta>,
) -> (r: Result<(), InteroperationError>)
    ensures
        match r {
            Ok(_) => match live_cells(provider, members@) {
                Ok(found) => final(cells)@ == old(cells)@ + found,
                Err(_) => false,
            },
            Err(e) => live_cells(provider, members@) == Err::<Seq<CellMeta>, Failure>(e@),
        },
{
    let ghost before = cells@;
    let mut i: usize = 0;
    while i < members.len()
        invariant
            i <= members.len(),
            match live_cells(provider, members@.take(i as int)) {
                Ok(found) => cells@ == before + found,
                Err(_) => false,
            },
        decreases members.len() - i,
    {
        proof {
            assert(members@.take(i + 1).drop_last() == members@.take(i as int));
            assert(members@.take(i + 1).last() == members@[i as int]);
        }
        let ghost found = live_cells(provider, members@.take(i as int))->Ok_0;
        match resolve_cell(provider, &members[i]) {
            Ok(meta) => {
                cells.push(meta);
                assert(cells@ == before + found.push(meta));
            },
            Err(e) => {
                proof {
                    live_cells_failure_extends(provider, members@, i + 1);
                }
                return Err(e);
            },
        }
        i = i + 1;
    }
    assert(members@.take(members.len() as int) == members@);
    Ok(())
}

fn copy_out_points(v: &Vec<OutPoint>) -> (r: Vec<OutPoint>)
    ensures
        r@ == v@,
{
    let mut out: Vec<OutPoint> = Vec::new();
    let mut i: usize = 0;
    while i < v.len()
        invariant
            i <= v.len(),
            out@ == v@.take(i as int),
        decreases v.len() - i,
    {
        out.push(v[i]);
        assert(v@.take(i + 1) == v@.take(i as int).push(v@[i as int]));
        i = i + 1;
    }
    assert(v@.take(v.len() as int) == v@);
    out
}

fn copy_cell_deps(v: &Vec<CellDep>) -> (r: Vec<CellDep>)
    ensures
        r@ == v@,
{
    let mut out: Vec<CellDep> = Vec::new();
    let mut i: usize = 0;
    while i < v.len()
        invariant
            i <= v.len(),
            out@ == v@.take(i as int),
        decreases v.len() - i,
    {
        out.push(v[i]);
        assert(v@.take(i + 1) == v@.take(i as int).push(v@[i as int]));
        i = i + 1;
    }
    assert(v@.take(v.len() as int) == v@);
    out
}

/// Whether `resolved` is the resolution of `tx`: the transaction itself,
/// one cell for each input in order, and the dependency cells and group
/// cells that the declared dependencies stand for.
pub open spec fn resolves_to<P: CellProvider>(
    provider: &P,
    tx: TransactionView,
    dummy_input: Option<InputLock>,
    resolved: ResolvedTransaction,
) -> bool {
    &&& resolved.transaction.hash == tx.hash
    &&& resolved.transaction.inputs@ == tx.inputs@
    &&& resolved.transaction.cell_deps@ == tx.cell_deps@
    &&& resolved.resolved_inputs@.len() == tx.inputs@.len()
    &&& forall|i: int|
        0 <= i < tx.inputs@.len() ==> input_resolved(
            provider,
            tx.inputs@[i],
            dummy_input,
            #[trigger] resolved.resolved_inputs@[i],
        )
    &&& deps_resolution(provider, tx.cell_deps@) == Ok::<(Seq<CellMeta>, Seq<CellMeta>), Failure>(
        (resolved.resolved_cell_deps@, resolved.resolved_dep_groups@),
    )
}

/// The failure that ends the resolution of `tx`, if one does: that of the
/// first input that does not resolve, else that of the first dependency.
pub open spec fn resolution_failure<P: CellProvider>(
    provider: &P,
    tx: TransactionView,
    supplied: bool,
) -> Option<Failure> {
    match inputs_failure(provider, tx.inputs@, supplied) {
        Some(failure) => Some(failure),
        None => match deps_resolution(provider, tx.cell_deps@) {
            Err(failure) => Some(failure),
            Ok(_) => None,
        },
    }
}

/// Resolves every input and every dependency of `tx` against `cell_loader`.
///
/// Inputs come first, in declared order, then the dependencies in declared
/// order; a dependency group is replaced in place by the cells it lists and
/// its own cell is recorded apart. Each occurrence of the virtual input is
/// answered from `dummy_input`. The first out-point that is not live, a
/// virtual input without a supplied cell, or a group whose content lists no
/// out-points ends the resolution with that failure.
pub fn resolve_transaction<P: CellProvider>(
    cell_loader: &P,
    tx: &TransactionView,
    dummy_input: Option<InputLock>,
) -> (r: Result<ResolvedTransaction, InteroperationError>)
    ensures
        match r {
            Ok(resolved) => resolution_failure(cell_loader, *tx, dummy_input is Some) is None
                && resolves_to(cell_loader, *tx, dummy_input, resolved),
            Err(e) => resolution_failure(cell_loader, *tx, dummy_input is Some) == Some(e@),
        },
{
    let ghost supplied = dummy_input is Some;
    let mut resolved_inputs: Vec<CellMeta> = Vec::new();
    let mut resolved_cell_deps: Vec<CellMeta> = Vec::new();
    let mut resolved_dep_groups: Vec<CellMeta> = Vec::new();

    let mut i: usize = 0;
    while i < tx.inputs.len()
        invariant
            i <= tx.inputs.len(),
            supplied == (dummy_input is Some),
            inputs_failure(cell_loader, tx.inputs@.take(i as int), supplied) is None,
            resolved_inputs@.len() == i,
            forall|j: int|
                0 <= j < i ==> input_resolved(
                    cell_loader,
                    tx.inputs@[j],
                    dummy_input,
                    #[trigger] resolved_inputs@[j],
                ),
        decreases tx.inputs.len() - i,
    {
        proof {
            assert(tx.inputs@.take(i + 1).drop_last() == tx.inputs@.take(i as int));
            assert(tx.inputs@.take(i + 1).last() == tx.inputs@[i as int]);
        }
        let out_point = tx.inputs[i];
        if is_dummy_out_point(&out_point) {
            match &dummy_input {
                Some(lock) => {
                    resolved_inputs.push(synthesize(lock, out_point));
                },
                None => {
                    proof {
                        inputs_failure_extends(cell_loader, tx.inputs@, supplied, i + 1);
                    }
                    return Err(InteroperationError::InvalidDummyInput);
                },
            }
        } else {
            match resolve_cell(cell_loader, &out_point) {
                Ok(meta) => {
                    resolved_inputs.push(meta);
                },
                Err(e) => {
                    proof {
                        inputs_failure_extends(cell_loader, tx.inputs@, supplied, i + 1);
                    }
                    return Err(e);
                },
            }
        }
        i = i + 1;
    }
    assert(tx.inputs@.take(tx.inputs.len() as int) == tx.inputs@);

    let mut k: usize = 0;
    while k < tx.cell_deps.len()
        invariant
            k <= tx.cell_deps.len(),
            supplied == (dummy_input is Some),
            inputs_failure(cell_loader, tx.inputs@, supplied) is None,
            deps_resolution(cell_loader, tx.cell_deps@.take(k as int)) == Ok::<
                (Seq<CellMeta>, Seq<CellMeta>),
                Failure,
            >((resolved_cell_deps@, resolved_dep_groups@)),
        decreases tx.cell_deps.len() - k,
    {
        proof {
            assert(tx.cell_deps@.take(k + 1).drop_last() == tx.cell_deps@.take(k as int));
            assert(tx.cell_deps@.take(k + 1).last() == tx.cell_deps@[k as int]);
        }
        let cell_dep = tx.cell_deps[k];
        let ghost cells = resolved_cell_deps@;
        let ghost groups = resolved_dep_groups@;
        match resolve_cell(cell_loader, &cell_dep.out_point) {
            Err(e) => {
                proof {
                    deps_failure_extends(cell_loader, tx.cell_deps@, k + 1);
                }
                return Err(e);
            },
            Ok(cell) => {
                if is_dep_group(&cell_dep) {
                    let parsed = match &cell.mem_cell_data {
                        Some(data) => parse_dep_group_data(data.as_slice()),
                        None => {
                            let nothing: Vec<u8> = Vec::new();
                            parse_dep_group_data(nothing.as_slice())
                        },
                    };
                    match parsed {
                        Err(msg) => {
                            proof {
                                deps_failure_extends(cell_loader, tx.cell_deps@, k + 1);
                            }
                            return Err(InteroperationError::InvalidDepGroup(msg));
                        },
                        Ok(members) => {
                            match resolve_members(cell_loader, &members, &mut resolved_cell_deps) {
                                Err(e) => {
                                    proof {
                                        deps_failure_extends(cell_loader, tx.cell_deps@, k + 1);
                                    }
                                    return Err(e);
                                },
                                Ok(_) => {
                                    resolved_dep_groups.push(cell);
                                    assert(resolved_dep_groups@ == groups.push(cell));
                                },
                            }
                        },
                    }
                } else {
                    resolved_cell_deps.push(cell);
                    assert(resolved_cell_deps@ == cells + seq![cell]);
                }
            },
        }
        k = k + 1;
    }
    assert(tx.cell_deps@.take(tx.cell_deps.len() as int) == tx.cell_deps@);

    Ok(
        ResolvedTransaction {
            transaction: TransactionView {
                hash: tx.hash,
                inputs: copy_out_points(&tx.inputs),
                cell_deps: copy_cell_deps(&tx.cell_deps),
            },
            resolved_cell_deps,
            resolved_inputs,
            resolved_dep_groups,
        },
    )
}

/// Whether a dependency names a group.
pub fn is_dep_group(dep: &CellDep) -> (r: bool)
    ensures
        r == (dep.dep_type == DepType::DepGroup),
{
    match dep.dep_type {
        DepType::DepGroup => true,
        DepType::Code => false,
    }
}

/// Dependencies that name no group resolve to their own cells, one for one
/// and in declared order, and record no group cell.
pub proof fn plain_deps_resolve_in_order<P: CellProvider>(
    provider: &P,
    deps: Seq<CellDep>,
    cells: Seq<CellMeta>,
    groups: Seq<CellMeta>,
)
    requires
        forall|i: int| 0 <= i < deps.len() ==> (#[trigger] deps[i]).dep_type != DepType::DepGroup,
        deps_resolution(provider, deps) == Ok::<(Seq<CellMeta>, Seq<CellMeta>), Failure>(
            (cells, groups),
        ),
    ensures
        groups.len() == 0,
        cells.len() == deps.len(),
        forall|i: int|
            0 <= i < deps.len() ==> provider.status(deps[i].out_point) == CellStatus::Live(
                #[trigger] cells[i],
            ),
    decreases deps.len(),
{
    if deps.len() > 0 {
        let front = deps.drop_last();
        assert forall|i: int| 0 <= i < front.len() implies (#[trigger] front[i]).dep_type
            != DepType::DepGroup by {
            assert(front[i] == deps[i]);
        }
        let (front_cells, front_groups) = deps_resolution(provider, front)->Ok_0;
        plain_deps_resolve_in_order(provider, front, front_cells, front_groups);
        assert(deps.last() == deps[deps.len() - 1]);
        let (more, group) = dep_cells(provider, deps.last())->Ok_0;
        assert(cells == front_cells + more);
        assert forall|i: int| 0 <= i < deps.len() implies provider.status(deps[i].out_point)
            == CellStatus::Live(#[trigger] cells[i]) by {
            if i < front.len() {
                assert(front[i] == deps[i]);
                assert(cells[i] == front_cells[i]);
            } else {
                assert(cells[i] == more[0]);
            }
        }
    }
}

/// An input that is not the virtual input and not a live cell fails the
/// resolution with an unknown cell that names it, where every input before
/// it resolves.
pub proof fn dead_input_fails<P: CellProvider>(
    provider: &P,
    tx: TransactionView,
    supplied: bool,
    i: int,
)
    requires
        0 <= i < tx.inputs@.len(),
        !is_dummy(tx.inputs@[i]),
        !(provider.status(tx.inputs@[i]) is Live),
        inputs_failure(provider, tx.inputs@.take(i), supplied) is None,
    ensures
        resolution_failure(provider, tx, supplied) == Some(Failure::UnknownCell(tx.inputs@[i])),
{
    let inputs = tx.inputs@;
    assert(inputs.take(i + 1).drop_last() == inputs.take(i));
    assert(inputs.take(i + 1).last() == inputs[i]);
    inputs_failure_extends(provider, inputs, supplied, i + 1);
}

/// A dependency whose own cell is not live fails the resolution with an
/// unknown cell that names it, where every input and every dependency
/// before it resolves.
pub proof fn dead_dependency_fails<P: CellProvider>(
    provider: &P,
    tx: TransactionView,
    supplied: bool,
    k: int,
)
    requires
        inputs_failure(provider, tx.inputs@, supplied) is None,
        0 <= k < tx.cell_deps@.len(),
        !(provider.status(tx.cell_deps@[k].out_point) is Live),
        deps_resolution(provider, tx.cell_deps@.take(k)) is Ok,
    ensures
        resolution_failure(provider, tx, supplied) == Some(
            Failure::UnknownCell(tx.cell_deps@[k].out_point),
        ),
{
    let deps = tx.cell_deps@;
    assert(deps.take(k + 1).drop_last() == deps.take(k));
    assert(deps.take(k + 1).last() == deps[k]);
    deps_failure_extends(provider, deps, k + 1);
}

/// An out-point that a group lists and that is not a live cell fails the
/// resolution with an unknown cell that names it, where every input, every
/// dependency before the group and every out-point that the group lists
/// before it resolves.
pub proof fn dead_group_member_fails<P: CellProvider>(
    provider: &P,
    tx: TransactionView,
    supplied: bool,
    k: int,
    cell: CellMeta,
    members: Seq<OutPoint>,
    j: int,
)
    requires
        inputs_failure(provider, tx.inputs@, supplied) is None,
        0 <= k < tx.cell_deps@.len(),
        tx.cell_deps@[k].dep_type == DepType::DepGroup,
        provider.status(tx.cell_deps@[k].out_point) == CellStatus::Live(cell),
        dep_group_parse(content(cell)) == Ok::<Seq<OutPoint>, Seq<char>>(members),
        0 <= j < members.len(),
        !(provider.status(members[j]) is Live),
        live_cells(provider, members.take(j)) is Ok,
        deps_resolution(provider, tx.cell_deps@.take(k)) is Ok,
    ensures
        resolution_failure(provider, tx, supplied) == Some(Failure::UnknownCell(members[j])),
{
    let deps = tx.cell_deps@;
    assert(members.take(j + 1).drop_last() == members.take(j));
    assert(members.take(j + 1).last() == members[j]);
    live_cells_failure_extends(provider, members, j + 1);
    assert(deps.take(k + 1).drop_last() == deps.take(k));
    assert(deps.take(k + 1).last() == deps[k]);
    deps_failure_extends(provider, deps, k + 1);
}

/// A group whose cell holds no content fails the resolution as an invalid
/// group, where every input and every dependency before it resolves.
pub proof fn empty_group_fails<P: CellProvider>(
    provider: &P,
    tx: TransactionView,
    supplied: bool,
    k: int,
    cell: CellMeta,
)
    requires
        inputs_failure(provider, tx.inputs@, supplied) is None,
        0 <= k < tx.cell_deps@.len(),
        tx.cell_deps@[k].dep_type == DepType::DepGroup,
        provider.status(tx.cell_deps@[k].out_point) == CellStatus::Live(cell),
        content(cell).len() == 0,
        deps_resolution(provider, tx.cell_deps@.take(k)) is Ok,
    ensures
        resolution_failure(provider, tx, supplied) == Some(
            Failure::InvalidDepGroup("data is empty"@),
        ),
{
    let deps = tx.cell_deps@;
    assert(deps.take(k + 1).drop_last() == deps.take(k));
    assert(deps.take(k + 1).last() == deps[k]);
    deps_failure_extends(provider, deps, k + 1);
}

/// The virtual input fails the resolution as an invalid dummy input where
/// no cell is supplied for it and every input before it resolves.
pub proof fn dummy_input_needs_lock<P: CellProvider>(provider: &P, tx: TransactionView, i: int)
    requires
        0 <= i < tx.inputs@.len(),
        is_dummy(tx.inputs@[i]),
        inputs_failure(provider, tx.inputs@.take(i), false) is None,
    ensures
        resolution_failure(provider, tx, false) == Some(Failure::InvalidDummyInput),
{
    let inputs = tx.inputs@;
    assert(inputs.take(i + 1).drop_last() == inputs.take(i));
    assert(inputs.take(i + 1).last() == inputs[i]);
    inputs_failure_extends(provider, inputs, false, i + 1);
}

/// With a supplied cell the virtual input never fails, and what it resolves
/// to is the cell synthesised from what was supplied.
pub proof fn dummy_input_is_substituted<P: CellProvider>(
    provider: &P,
    tx: TransactionView,
    lock: InputLock,
    resolved: ResolvedTransaction,
    i: int,
)
    requires
        0 <= i < tx.inputs@.len(),
        is_dummy(tx.inputs@[i]),
        resolves_to(provider, tx, Some(lock), resolved),
    ensures
        input_failure(provider, tx.inputs@[i], true) is None,
        synthesized(lock, tx.inputs@[i], resolved.resolved_inputs@[i]),
{
    assert(input_resolved(provider, tx.inputs@[i], Some(lock), resolved.resolved_inputs@[i]));
}

} // verus!

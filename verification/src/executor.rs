//! The batch executor: runs signed transactions against a world-state
//! backend, one after the other, and sums up what came of them.

use vstd::prelude::*;
use crate::account::{decode_account, decodes};
use crate::primitive::{H160, H256, U256, Hasher, keccak256, zero_address, zero_hash};

verus! {

/// What a transaction asks for: a message to an account, or a new contract.
#[derive(Clone, Copy, Debug, PartialEq, Eq)]
pub enum TransactionAction {
    Call(H160),
    Create,
}

/// An address with the storage slots that a transaction declares it reads.
#[derive(Clone, Debug, PartialEq, Eq)]
pub struct AccessListItem {
    pub address: H160,
    pub slots: Vec<H256>,
}

/// One account-model transaction whose sender is already authenticated.
#[derive(Clone, Debug, PartialEq, Eq)]
pub struct SignedTransaction {
    pub sender: H160,
    pub action: TransactionAction,
    pub value: U256,
    pub input: Vec<u8>,
    pub gas_limit: u64,
    pub access_list: Vec<AccessListItem>,
}

/// A log record that a run emitted.
#[derive(Clone, Debug, PartialEq, Eq)]
pub struct Log {
    pub address: H160,
    pub topics: Vec<H256>,
    pub data: Vec<u8>,
}

#[derive(Clone, Copy, Debug, PartialEq, Eq)]
pub enum ExitSucceed {
    Stopped,
    Returned,
    Suicided,
}

#[derive(Clone, Debug, PartialEq, Eq)]
pub enum ExitError {
    StackUnderflow,
    StackOverflow,
    InvalidJump,
    InvalidRange,
    DesignatedInvalid,
    CallTooDeep,
    CreateCollision,
    CreateContractLimit,
    InvalidCode,
    OutOfOffset,
    OutOfGas,
    OutOfFund,
    PCUnderflow,
    CreateEmpty,
    Other(String),
}

#[derive(Clone, Debug, PartialEq, Eq)]
pub enum ExitFatal {
    NotSupported,
    UnhandledInterrupt,
    CallErrorAsFatal(ExitError),
    Other(String),
}

/// How the virtual machine left one execution.
#[derive(Clone, Debug, PartialEq, Eq)]
pub enum ExitReason {
    Succeed(ExitSucceed),
    Error(ExitError),
    Revert,
    Fatal(ExitFatal),
}

impl ExitReason {
    pub open spec fn succeeded(self) -> bool {
        self is Succeed
    }

    pub fn is_succeed(&self) -> (r: bool)
        ensures
            r == self.succeeded(),
    {
        match self {
            ExitReason::Succeed(_) => true,
            _ => false,
        }
    }
}

/// Balance and nonce of an account.
#[derive(Clone, Copy, Debug, PartialEq, Eq)]
pub struct Basic {
    pub balance: U256,
    pub nonce: U256,
}

/// One change to the account store.
#[derive(Clone, Debug, PartialEq, Eq)]
pub enum Apply {
    Modify {
        address: H160,
        basic: Basic,
        code: Option<Vec<u8>>,
        storage: Vec<(H256, H256)>,
        reset_storage: bool,
    },
    Delete { address: H160 },
}

/// The pending effect of one execution: changed accounts and emitted logs.
#[derive(Clone, Debug, PartialEq, Eq)]
pub struct Changeset {
    pub values: Vec<Apply>,
    pub logs: Vec<Log>,
}

/// The rules that the virtual machine runs under.
#[derive(Clone, Copy, Debug, PartialEq, Eq)]
pub enum RuleSet {
    London,
}

/// One run asked of the virtual machine: the rules to run under, the most
/// gas that the run as a whole may take, and the message to run.
#[derive(Clone, Debug, PartialEq, Eq)]
pub struct Request {
    pub rules: RuleSet,
    pub gas_ceiling: u64,
    pub message: Invocation,
}

/// A message to the virtual machine.
#[derive(Clone, Debug, PartialEq, Eq)]
pub enum Invocation {
    Call {
        sender: H160,
        to: H160,
        value: U256,
        input: Vec<u8>,
        gas_limit: u64,
        access_list: Vec<AccessListItem>,
    },
    Create {
        sender: H160,
        value: U256,
        input: Vec<u8>,
        salt: H256,
        gas_limit: u64,
        access_list: Vec<AccessListItem>,
    },
}

/// What an access list declares: each address with its slots, in order.
pub open spec fn declared(list: Seq<AccessListItem>) -> Seq<(H160, Seq<H256>)> {
    list.map_values(|item: AccessListItem| (item.address, item.slots@))
}

/// The content of a message.
pub ghost enum MessageView {
    Call {
        sender: H160,
        to: H160,
        value: U256,
        input: Seq<u8>,
        gas_limit: u64,
        access_list: Seq<(H160, Seq<H256>)>,
    },
    Create {
        sender: H160,
        value: U256,
        input: Seq<u8>,
        salt: H256,
        gas_limit: u64,
        access_list: Seq<(H160, Seq<H256>)>,
    },
}

/// The content of a request.
pub ghost struct RequestView {
    pub rules: RuleSet,
    pub gas_ceiling: u64,
    pub message: MessageView,
}

impl View for Invocation {
    type V = MessageView;

    open spec fn view(&self) -> MessageView {
        match *self {
            Invocation::Call { sender, to, value, input, gas_limit, access_list } => {
                MessageView::Call {
                    sender,
                    to,
                    value,
                    input: input@,
                    gas_limit,
                    access_list: declared(access_list@),
                }
            },
            Invocation::Create { sender, value, input, salt, gas_limit, access_list } => {
                MessageView::Create {
                    sender,
                    value,
                    input: input@,
                    salt,
                    gas_limit,
                    access_list: declared(access_list@),
                }
            },
        }
    }
}

impl View for Request {
    type V = RequestView;

    open spec fn view(&self) -> RequestView {
        RequestView { rules: self.rules, gas_ceiling: self.gas_ceiling, message: self.message@ }
    }
}

/// What one run of the virtual machine came to, before anything is
/// committed.
#[derive(Clone, Debug, PartialEq, Eq)]
pub struct Outcome {
    pub exit_reason: ExitReason,
    pub ret: Vec<u8>,
    pub remain_gas: u64,
    pub gas_used: u64,
    pub changes: Changeset,
}

/// Outcome of one transaction.
#[derive(Clone, Debug, PartialEq, Eq)]
pub struct TxResp {
    pub exit_reason: ExitReason,
    pub ret: Vec<u8>,
    pub remain_gas: u64,
    pub gas_used: u64,
    pub logs: Vec<Log>,
}

/// Outcome of a batch.
#[derive(Clone, Debug, PartialEq, Eq)]
pub struct ExecResp {
    pub state_root: H256,
    pub receipt_root: H256,
    pub gas_used: u64,
    pub tx_resp: Vec<TxResp>,
}

/// A batch that ran, before its receipt hashes are combined into one root.
#[derive(Clone, Debug, PartialEq, Eq)]
pub struct Executed {
    pub state_root: H256,
    pub receipt_hashes: Vec<H256>,
    pub gas_used: u64,
    pub tx_resp: Vec<TxResp>,
}

/// An account of the ledger.
#[derive(Clone, Copy, Debug, PartialEq, Eq)]
pub struct Account {
    pub nonce: U256,
    pub balance: U256,
    pub storage_root: H256,
    pub code_hash: H256,
}

/// The world state that the executor runs on.
///
/// The spec functions say what a backend is to the executor: what a key
/// reads as, the state root, the logs of the last run that was committed,
/// what the virtual machine makes of a request over this state, and the
/// state that a change set leads to. What the machine makes of a request
/// depends on the content of the request alone. Each method reports or
/// performs exactly that; `transact` commits nothing. Each spec function
/// has a default body, one fixed value that is left open and does not
/// depend on the arguments; an implementation that is to be verified
/// overrides it.
pub trait Backend: Sized {
    open spec fn lookup(&self, key: Seq<u8>) -> Option<Seq<u8>> {
        arbitrary()
    }

    open spec fn root(&self) -> H256 {
        arbitrary()
    }

    open spec fn recent_logs(&self) -> Seq<Log> {
        arbitrary()
    }

    open spec fn outcome(&self, request: RequestView) -> Outcome {
        arbitrary()
    }

    open spec fn applied(&self, changes: Changeset, delete_empty: bool) -> Self {
        arbitrary()
    }

    fn get(&self, key: &[u8]) -> (r: Option<Vec<u8>>)
        ensures
            match r {
                Some(bytes) => self.lookup(key@) == Some(bytes@),
                None => self.lookup(key@) is None,
            },
    ;

    fn transact(&self, request: Request) -> (r: Outcome)
        ensures
            r == self.outcome(request@),
    ;

    fn apply(&mut self, changes: Changeset, delete_empty: bool)
        ensures
            *final(self) == old(self).applied(changes, delete_empty),
    ;

    fn state_root(&self) -> (r: H256)
        ensures
            r == self.root(),
    ;

    fn get_logs(&self) -> (r: Vec<Log>)
        ensures
            r@ == self.recent_logs(),
    ;
}

/// The request that a transaction puts to the virtual machine: under the
/// London rules and with no ceiling on the gas of the run as a whole, the
/// message of the transaction.
pub open spec fn request_of(tx: SignedTransaction) -> RequestView {
    RequestView { rules: RuleSet::London, gas_ceiling: u64::MAX, message: message_of(tx) }
}

/// The message of a transaction: a call carries sender, destination,
/// value, input, gas limit and access list; a creation the same without a
/// destination, under the zero salt.
pub open spec fn message_of(tx: SignedTransaction) -> MessageView {
    match tx.action {
        TransactionAction::Call(to) => MessageView::Call {
            sender: tx.sender,
            to,
            value: tx.value,
            input: tx.input@,
            gas_limit: tx.gas_limit,
            access_list: declared(tx.access_list@),
        },
        TransactionAction::Create => MessageView::Create {
            sender: tx.sender,
            value: tx.value,
            input: tx.input@,
            salt: zero_hash(),
            gas_limit: tx.gas_limit,
            access_list: declared(tx.access_list@),
        },
    }
}

/// The request of a read-only query: under the London rules and with no
/// ceiling on the gas, a call of no value from the zero address to `addr`,
/// with all the gas there is and no access list.
pub open spec fn query(addr: H160, data: Seq<u8>) -> RequestView {
    RequestView {
        rules: RuleSet::London,
        gas_ceiling: u64::MAX,
        message: MessageView::Call {
            sender: zero_address(),
            to: addr,
            value: U256 { hi: 0, lo: 0 },
            input: data,
            gas_limit: u64::MAX,
            access_list: Seq::empty(),
        },
    }
}

/// The backend after `tx` has run on `backend`: changed by what the run
/// left behind if it succeeded, untouched if it did not.
pub open spec fn state_after<B: Backend>(backend: B, tx: SignedTransaction) -> B {
    let outcome = backend.outcome(request_of(tx));
    if outcome.exit_reason.succeeded() {
        backend.applied(outcome.changes, true)
    } else {
        backend
    }
}

/// The bytes that a transaction returns: those of the run for a call, none
/// for a creation.
pub open spec fn returned(action: TransactionAction, outcome: Outcome) -> Seq<u8> {
    match action {
        TransactionAction::Call(_) => outcome.ret@,
        TransactionAction::Create => Seq::empty(),
    }
}

/// Whether `resp` reports the run of `tx` on `backend`, its logs aside.
pub open spec fn responds<B: Backend>(backend: B, tx: SignedTransaction, resp: TxResp) -> bool {
    let outcome = backend.outcome(request_of(tx));
    &&& resp.exit_reason == outcome.exit_reason
    &&& resp.ret@ == returned(tx.action, outcome)
    &&& resp.remain_gas == outcome.remain_gas
    &&& resp.gas_used == outcome.gas_used
}

/// The backend after the transactions of `txs` have run in order.
pub open spec fn state_after_all<B: Backend>(backend: B, txs: Seq<SignedTransaction>) -> B
    decreases txs.len(),
{
    if txs.len() == 0 {
        backend
    } else {
        state_after(state_after_all(backend, txs.drop_last()), txs.last())
    }
}

/// The gas that the responses report, added up.
pub open spec fn total_gas(resps: Seq<TxResp>) -> int
    decreases resps.len(),
{
    if resps.len() == 0 {
        0
    } else {
        total_gas(resps.drop_last()) + resps.last().gas_used
    }
}

/// Whether `done` is what running `txs` in order on `before` comes to, and
/// `after` the backend it leaves. Response `i` reports transaction `i` run
/// on the state that the transactions before it left, with the logs that
/// the backend holds once that transaction is through; receipt hash `i` is
/// the digest of what transaction `i` returned; the gas is the sum of what
/// the responses report, cut to 64 bits.
pub open spec fn executed<B: Backend>(
    before: B,
    txs: Seq<SignedTransaction>,
    after: B,
    done: Executed,
) -> bool {
    &&& after == state_after_all(before, txs)
    &&& done.state_root == after.root()
    &&& done.tx_resp@.len() == txs.len()
    &&& done.receipt_hashes@.len() == txs.len()
    &&& forall|i: int|
        0 <= i < txs.len() ==> {
            &&& responds(state_after_all(before, txs.take(i)), txs[i], #[trigger] done.tx_resp@[i])
            &&& done.tx_resp@[i].logs@ == state_after_all(before, txs.take(i + 1)).recent_logs()
        }
    &&& forall|i: int|
        0 <= i < txs.len() ==> (#[trigger] done.receipt_hashes@[i])@ == keccak256(
            done.tx_resp@[i].ret@,
        )
    &&& done.gas_used as int == total_gas(done.tx_resp@) % 0x1_0000_0000_0000_0000
}

impl SignedTransaction {
    /// Turns the transaction into the request that it puts to the virtual
    /// machine.
    pub fn into_request(self) -> (r: Request)
        ensures
            r@ == request_of(self),
    {
        let message = match self.action {
            TransactionAction::Call(to) => Invocation::Call {
                sender: self.sender,
                to,
                value: self.value,
                input: self.input,
                gas_limit: self.gas_limit,
                access_list: self.access_list,
            },
            TransactionAction::Create => Invocation::Create {
                sender: self.sender,
                value: self.value,
                input: self.input,
                salt: [0u8; 32],
                gas_limit: self.gas_limit,
                access_list: self.access_list,
            },
        };
        Request { rules: RuleSet::London, gas_ceiling: u64::MAX, message }
    }
}

/// What follows from one run: the response to give, and the changes to
/// commit, if any.
#[derive(Clone, Debug, PartialEq, Eq)]
pub struct Settlement {
    pub resp: TxResp,
    pub commit: Option<Changeset>,
}

/// Decides what follows from the outcome of a run. The response reports
/// the run, without logs, and returns nothing for a creation; the changes
/// are to be committed if, and only if, the run succeeded.
pub fn settle(action: TransactionAction, outcome: Outcome) -> (r: Settlement)
    ensures
        r.resp.exit_reason == outcome.exit_reason,
        r.resp.ret@ == returned(action, outcome),
        r.resp.remain_gas == outcome.remain_gas,
        r.resp.gas_used == outcome.gas_used,
        r.resp.logs@.len() == 0,
        r.commit == if outcome.exit_reason.succeeded() {
            Some(outcome.changes)
        } else {
            None
        },
{
    let ret = match action {
        TransactionAction::Call(_) => outcome.ret,
        TransactionAction::Create => Vec::new(),
    };
    let commit = if outcome.exit_reason.is_succeed() {
        Some(outcome.changes)
    } else {
        None
    };
    Settlement {
        resp: TxResp {
            exit_reason: outcome.exit_reason,
            ret,
            remain_gas: outcome.remain_gas,
            gas_used: outcome.gas_used,
            logs: Vec::new(),
        },
        commit,
    }
}

impl Executed {
    /// Closes the batch with the root that the receipt hashes combine to;
    /// where they combine to none, the receipt root is the zero hash.
    pub fn into_resp(self, merkle_root: Option<H256>) -> (r: ExecResp)
        ensures
            r.state_root == self.state_root,
            r.gas_used == self.gas_used,
            r.tx_resp == self.tx_resp,
            r.receipt_root == match merkle_root {
                Some(root) => root,
                None => zero_hash(),
            },
    {
        let receipt_root = match merkle_root {
            Some(root) => root,
            None => [0u8; 32],
        };
        ExecResp {
            state_root: self.state_root,
            receipt_root,
            gas_used: self.gas_used,
            tx_resp: self.tx_resp,
        }
    }
}

/// The root of a storage that holds nothing: the Keccak-256 digest of the
/// encoding of the empty string.
pub open spec fn rlp_null_bytes() -> Seq<u8> {
    seq![
        0x56u8, 0xe8u8, 0x1fu8, 0x17u8, 0x1bu8, 0xccu8, 0x55u8, 0xa6u8, 0xffu8, 0x83u8, 0x45u8,
        0xe6u8, 0x92u8, 0xc0u8, 0xf8u8, 0x6eu8, 0x5bu8, 0x48u8, 0xe0u8, 0x1bu8, 0x99u8, 0x6cu8,
        0xadu8, 0xc0u8, 0x01u8, 0x62u8, 0x2fu8, 0xb5u8, 0xe3u8, 0x63u8, 0xb4u8, 0x21u8,
    ]
}

/// The hash of a code that holds nothing: the Keccak-256 digest of no bytes.
pub open spec fn nil_data_bytes() -> Seq<u8> {
    seq![
        0xc5u8, 0xd2u8, 0x46u8, 0x01u8, 0x86u8, 0xf7u8, 0x23u8, 0x3cu8, 0x92u8, 0x7eu8, 0x7du8,
        0xb2u8, 0xdcu8, 0xc7u8, 0x03u8, 0xc0u8, 0xe5u8, 0x00u8, 0xb6u8, 0x53u8, 0xcau8, 0x82u8,
        0x27u8, 0x3bu8, 0x7bu8, 0xfau8, 0xd8u8, 0x04u8, 0x5du8, 0x85u8, 0xa4u8, 0x70u8,
    ]
}

pub fn rlp_null() -> (r: H256)
    ensures
        r@ == rlp_null_bytes(),
{
    let r: H256 = [
        0x56, 0xe8, 0x1f, 0x17, 0x1b, 0xcc, 0x55, 0xa6, 0xff, 0x83, 0x45, 0xe6, 0x92, 0xc0, 0xf8,
        0x6e, 0x5b, 0x48, 0xe0, 0x1b, 0x99, 0x6c, 0xad, 0xc0, 0x01, 0x62, 0x2f, 0xb5, 0xe3, 0x63,
        0xb4, 0x21,
    ];
    assert(r@ =~= rlp_null_bytes());
    r
}

pub fn nil_data() -> (r: H256)
    ensures
        r@ == nil_data_bytes(),
{
    let r: H256 = [
        0xc5, 0xd2, 0x46, 0x01, 0x86, 0xf7, 0x23, 0x3c, 0x92, 0x7e, 0x7d, 0xb2, 0xdc, 0xc7, 0x03,
        0xc0, 0xe5, 0x00, 0xb6, 0x53, 0xca, 0x82, 0x27, 0x3b, 0x7b, 0xfa, 0xd8, 0x04, 0x5d, 0x85,
        0xa4, 0x70,
    ];
    assert(r@ =~= nil_data_bytes());
    r
}

impl Account {
    /// Whether this is the account that an address without a record stands
    /// for: nonce and balance zero, no storage and no code.
    pub open spec fn is_absent(self) -> bool {
        &&& self.nonce.value() == 0
        &&& self.balance.value() == 0
        &&& self.storage_root@ == rlp_null_bytes()
        &&& self.code_hash@ == nil_data_bytes()
    }

    /// The account that an address without a record stands for.
    pub fn absent() -> (r: Account)
        ensures
            r.is_absent(),
    {
        Account {
            nonce: U256::zero(),
            balance: U256::zero(),
            storage_root: rlp_null(),
            code_hash: nil_data(),
        }
    }
}

/// The executor. It holds no state of its own: everything it works on is
/// in the backend that each call is given.
#[derive(Clone, Copy, Debug, Default)]
pub struct EvmExecutor;

impl EvmExecutor {
    pub fn new() -> (r: Self) {
        EvmExecutor
    }

    /// Read-only query: what a call of no value from the zero address to
    /// `addr` returns over the current state. Nothing is committed, and the
    /// response reports no gas and no logs.
    pub fn call<B: Backend>(&self, backend: &mut B, addr: H160, data: Vec<u8>) -> (r: TxResp)
        ensures
            *final(backend) == *old(backend),
            r.exit_reason == old(backend).outcome(query(addr, data@)).exit_reason,
            r.ret == old(backend).outcome(query(addr, data@)).ret,
            r.remain_gas == 0,
            r.gas_used == 0,
            r.logs@.len() == 0,
    {
        let request = Request {
            rules: RuleSet::London,
            gas_ceiling: u64::MAX,
            message: Invocation::Call {
                sender: [0u8; 20],
                to: addr,
                value: U256::zero(),
                input: data,
                gas_limit: u64::MAX,
                access_list: Vec::new(),
            },
        };
        assert(declared(Seq::<AccessListItem>::empty()) =~= Seq::empty());
        assert(request@ == query(addr, data@));
        let outcome = backend.transact(request);
        TxResp {
            exit_reason: outcome.exit_reason,
            ret: outcome.ret,
            remain_gas: 0,
            gas_used: 0,
            logs: Vec::new(),
        }
    }

    /// Reads the account at `address`: the account that stands for no
    /// record where the backend holds none, else what the stored record
    /// decodes to, which is nothing where the record is corrupt.
    pub fn get_account<B: Backend>(&self, backend: &B, address: &H160) -> (r: Option<Account>)
        ensures
            match backend.lookup(address@) {
                Some(bytes) => decodes(bytes, r),
                None => match r {
                    Some(account) => account.is_absent(),
                    None => false,
                },
            },
    {
        match backend.get(address.as_slice()) {
            Some(bytes) => decode_account(bytes.as_slice()),
            None => Some(Account::absent()),
        }
    }

    /// Runs one transaction and commits what it left behind if, and only
    /// if, it succeeded. The response carries no logs.
    pub fn inner_exec<B: Backend>(&self, backend: &mut B, tx: SignedTransaction) -> (r: TxResp)
        ensures
            responds(*old(backend), tx, r),
            r.logs@.len() == 0,
            *final(backend) == state_after(*old(backend), tx),
            !r.exit_reason.succeeded() ==> *final(backend) == *old(backend),
    {
        let action = tx.action;
        let outcome = backend.transact(tx.into_request());
        let settled = settle(action, outcome);
        match settled.commit {
            Some(changes) => {
                backend.apply(changes, true);
            },
            None => {},
        }
        settled.resp
    }

    /// Runs a batch: each transaction in order on the state that the
    /// earlier ones left, its logs read from the backend right after it.
    pub fn exec<B: Backend>(&self, backend: &mut B, txs: Vec<SignedTransaction>) -> (r: Executed)
        ensures
            executed(*old(backend), txs@, *final(backend), r),
    {
        let ghost before = *backend;
        let ghost all = txs@;
        let mut res: Vec<TxResp> = Vec::new();
        let mut hashes: Vec<H256> = Vec::new();
        let mut gas: u64 = 0;
        for tx in it: txs.into_iter()
            invariant
                it.seq() == all,
                *backend == state_after_all(before, all.take(it.index())),
                res@.len() == it.index(),
                hashes@.len() == it.index(),
                forall|i: int|
                    0 <= i < it.index() ==> {
                        &&& responds(
                            state_after_all(before, all.take(i)),
                            all[i],
                            #[trigger] res@[i],
                        )
                        &&& res@[i].logs@ == state_after_all(before, all.take(i + 1)).recent_logs()
                    },
                forall|i: int|
                    0 <= i < it.index() ==> (#[trigger] hashes@[i])@ == keccak256(res@[i].ret@),
                gas as int == total_gas(res@) % 0x1_0000_0000_0000_0000,
        {
            let ghost n = it.index();
            proof {
                assert(all.take(n + 1).drop_last() == all.take(n));
                assert(all.take(n + 1).last() == all[n]);
            }
            let ghost earlier = res@;
            let mut r = self.inner_exec(backend, tx);
            r.logs = backend.get_logs();
            hashes.push(Hasher::digest(r.ret.as_slice()));
            gas = gas.wrapping_add(r.gas_used);
            res.push(r);
            proof {
                assert(res@.drop_last() == earlier);
                assert(res@.last() == r);
            }
        }
        proof {
            assert(all.take(all.len() as int) == all);
        }
        Executed { state_root: backend.state_root(), receipt_hashes: hashes, gas_used: gas, tx_resp: res }
    }
}

/// A transaction that does not succeed leaves the backend as it was: every
/// key reads as before.
pub proof fn failure_keeps_state<B: Backend>(backend: B, tx: SignedTransaction, key: Seq<u8>)
    requires
        !backend.outcome(request_of(tx)).exit_reason.succeeded(),
    ensures
        state_after(backend, tx) == backend,
        state_after(backend, tx).lookup(key) == backend.lookup(key),
{
}

/// An empty batch leaves the backend as it was and reports the root that
/// the backend had.
pub proof fn empty_batch_keeps_root<B: Backend>(
    before: B,
    txs: Seq<SignedTransaction>,
    after: B,
    done: Executed,
)
    requires
        txs.len() == 0,
        executed(before, txs, after, done),
    ensures
        after == before,
        done.state_root == before.root(),
        done.tx_resp@.len() == 0,
        done.receipt_hashes@.len() == 0,
        done.gas_used == 0,
{
}

proof fn total_gas_agrees(a: Seq<TxResp>, b: Seq<TxResp>)
    requires
        a.len() == b.len(),
        forall|i: int| 0 <= i < a.len() ==> (#[trigger] a[i]).gas_used == b[i].gas_used,
    ensures
        total_gas(a) == total_gas(b),
    decreases a.len(),
{
    if a.len() > 0 {
        assert(a.last() == a[a.len() - 1]);
        assert(b.last() == b[b.len() - 1]);
        assert forall|i: int| 0 <= i < a.drop_last().len() implies (#[trigger] a.drop_last()[i]).gas_used
            == b.drop_last()[i].gas_used by {
            assert(a.drop_last()[i] == a[i]);
            assert(b.drop_last()[i] == b[i]);
        }
        total_gas_agrees(a.drop_last(), b.drop_last());
    }
}

/// Running one batch on one backend has one outcome: the backend left
/// behind, the state root, the receipt hashes, the gas, and what each
/// response reports are the same in any two runs.
pub proof fn execution_is_determined<B: Backend>(
    before: B,
    txs: Seq<SignedTransaction>,
    after1: B,
    done1: Executed,
    after2: B,
    done2: Executed,
)
    requires
        executed(before, txs, after1, done1),
        executed(before, txs, after2, done2),
    ensures
        after1 == after2,
        done1.state_root == done2.state_root,
        done1.receipt_hashes@ == done2.receipt_hashes@,
        done1.gas_used == done2.gas_used,
        forall|i: int|
            0 <= i < txs.len() ==> {
                &&& (#[trigger] done1.tx_resp@[i]).exit_reason == done2.tx_resp@[i].exit_reason
                &&& done1.tx_resp@[i].ret@ == done2.tx_resp@[i].ret@
                &&& done1.tx_resp@[i].logs@ == done2.tx_resp@[i].logs@
            },
{
    assert forall|i: int| 0 <= i < txs.len() implies {
        &&& (#[trigger] done1.tx_resp@[i]).exit_reason == done2.tx_resp@[i].exit_reason
        &&& done1.tx_resp@[i].ret@ == done2.tx_resp@[i].ret@
        &&& done1.tx_resp@[i].logs@ == done2.tx_resp@[i].logs@
        &&& done1.tx_resp@[i].gas_used == done2.tx_resp@[i].gas_used
    } by {
        let r2 = done2.tx_resp@[i];
        assert(responds(state_after_all(before, txs.take(i)), txs[i], r2));
    }
    total_gas_agrees(done1.tx_resp@, done2.tx_resp@);
    receipt_hashes_follow_returns(before, txs, after1, done1, before, txs, after2, done2);
}

/// The receipt hashes depend on nothing but what the transactions
/// returned, in order: two batches that returned the same bytes have the
/// same receipt hashes.
pub proof fn receipt_hashes_follow_returns<B: Backend>(
    before1: B,
    txs1: Seq<SignedTransaction>,
    after1: B,
    done1: Executed,
    before2: B,
    txs2: Seq<SignedTransaction>,
    after2: B,
    done2: Executed,
)
    requires
        executed(before1, txs1, after1, done1),
        executed(before2, txs2, after2, done2),
        txs1.len() == txs2.len(),
        forall|i: int|
            0 <= i < txs1.len() ==> (#[trigger] done1.tx_resp@[i]).ret@ == done2.tx_resp@[i].ret@,
    ensures
        done1.receipt_hashes@ == done2.receipt_hashes@,
{
    assert forall|i: int| 0 <= i < txs1.len() implies done1.receipt_hashes@[i]
        == done2.receipt_hashes@[i] by {
        let r1 = done1.tx_resp@[i];
        assert(done1.receipt_hashes@[i]@ == keccak256(r1.ret@));
        assert(done2.receipt_hashes@[i]@ == keccak256(done2.tx_resp@[i].ret@));
        assert(done1.receipt_hashes@[i] =~= done2.receipt_hashes@[i]);
    }
    assert(done1.receipt_hashes@ =~= done2.receipt_hashes@);
}

} // verus!

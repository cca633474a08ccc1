use axon_core::executor::{
    AccessListItem, Account, Apply, Backend, Basic, Changeset, EvmExecutor, ExitError, ExitReason,
    ExitSucceed, Invocation, Log, Outcome, Request, RuleSet, SignedTransaction,
    TransactionAction, settle,
    nil_data, rlp_null,
};
use axon_core::primitive::{Hasher, U256};

/// A ledger of balances: a call moves its value to the destination and
/// returns its input; an input that starts with 0xfd reverts; a sender
/// without the funds fails. The root is the digest of the balances.
#[derive(Clone, Debug, PartialEq)]
struct Ledger {
    balances: Vec<([u8; 20], u128)>,
    nonces: Vec<([u8; 20], u128)>,
    logs: Vec<Log>,
    seen: Vec<Request>,
}

fn find(list: &[([u8; 20], u128)], who: &[u8; 20]) -> u128 {
    list.iter().find(|(a, _)| a == who).map(|(_, v)| *v).unwrap_or(0)
}

fn set(list: &mut Vec<([u8; 20], u128)>, who: [u8; 20], value: u128) {
    match list.iter_mut().find(|(a, _)| *a == who) {
        Some(entry) => entry.1 = value,
        None => list.push((who, value)),
    }
}

fn modify(address: [u8; 20], balance: u128, nonce: u128) -> Apply {
    Apply::Modify {
        address,
        basic: Basic { balance: U256 { hi: 0, lo: balance }, nonce: U256 { hi: 0, lo: nonce } },
        code: None,
        storage: vec![],
        reset_storage: false,
    }
}

fn created_address(sender: &[u8; 20], nonce: u128) -> [u8; 20] {
    let mut seed = sender.to_vec();
    seed.extend_from_slice(&nonce.to_be_bytes());
    let digest = Hasher::digest(&seed);
    let mut out = [0u8; 20];
    out.copy_from_slice(&digest[12..]);
    out
}

impl Ledger {
    fn new(balances: Vec<([u8; 20], u128)>) -> Self {
        Ledger { balances, nonces: vec![], logs: vec![], seen: vec![] }
    }

    fn run(&self, request: &Request) -> Outcome {
        let (sender, to, value, input, gas_limit) = match &request.message {
            Invocation::Call { sender, to, value, input, gas_limit, .. } => {
                (*sender, Some(*to), value.lo, input.clone(), *gas_limit)
            }
            Invocation::Create { sender, value, input, gas_limit, .. } => {
                (*sender, None, value.lo, input.clone(), *gas_limit)
            }
        };
        let gas_used = 21000 + input.len() as u64;
        let remain_gas = gas_limit.saturating_sub(gas_used);
        let nothing = Changeset { values: vec![], logs: vec![] };
        if input.first() == Some(&0xfd) {
            return Outcome {
                exit_reason: ExitReason::Revert,
                ret: vec![0xde, 0xad],
                remain_gas,
                gas_used,
                changes: Changeset { values: vec![modify(sender, 0, 0)], logs: vec![] },
            };
        }
        if find(&self.balances, &sender) < value {
            return Outcome {
                exit_reason: ExitReason::Error(ExitError::OutOfFund),
                ret: vec![],
                remain_gas,
                gas_used,
                changes: nothing,
            };
        }
        let nonce = find(&self.nonces, &sender);
        let target = match to {
            Some(to) => to,
            None => created_address(&sender, nonce),
        };
        let mut values = vec![modify(sender, find(&self.balances, &sender) - value, nonce + 1)];
        if target != sender {
            values.push(modify(target, find(&self.balances, &target) + value, 0));
        }
        let log = Log { address: target, topics: vec![[1u8; 32]], data: input.clone() };
        Outcome {
            exit_reason: ExitReason::Succeed(match to {
                Some(_) => ExitSucceed::Stopped,
                None => ExitSucceed::Returned,
            }),
            ret: match to {
                Some(_) => input,
                None => target.to_vec(),
            },
            remain_gas,
            gas_used,
            changes: Changeset { values, logs: vec![log] },
        }
    }
}

impl Backend for Ledger {
    fn get(&self, key: &[u8]) -> Option<Vec<u8>> {
        self.balances
            .iter()
            .find(|(a, _)| &a[..] == key)
            .map(|(_, v)| v.to_be_bytes().to_vec())
    }

    fn transact(&self, request: Request) -> Outcome {
        self.run(&request)
    }

    fn apply(&mut self, changes: Changeset, _delete_empty: bool) {
        for change in changes.values {
            if let Apply::Modify { address, basic, .. } = change {
                set(&mut self.balances, address, basic.balance.lo);
                set(&mut self.nonces, address, basic.nonce.lo);
            }
        }
        self.logs = changes.logs;
    }

    fn state_root(&self) -> [u8; 32] {
        let mut sorted = self.balances.clone();
        sorted.sort();
        let mut bytes = vec![];
        for (a, v) in sorted {
            bytes.extend_from_slice(&a);
            bytes.extend_from_slice(&v.to_be_bytes());
        }
        Hasher::digest(&bytes)
    }

    fn get_logs(&self) -> Vec<Log> {
        self.logs.clone()
    }
}

const ALICE: [u8; 20] = [0xa1; 20];
const BOB: [u8; 20] = [0xb0; 20];

fn transfer(sender: [u8; 20], to: [u8; 20], value: u128, input: Vec<u8>) -> SignedTransaction {
    SignedTransaction {
        sender,
        action: TransactionAction::Call(to),
        value: U256 { hi: 0, lo: value },
        input,
        gas_limit: 100_000,
        access_list: vec![AccessListItem { address: to, slots: vec![[3u8; 32]] }],
    }
}

fn creation(sender: [u8; 20], input: Vec<u8>) -> SignedTransaction {
    SignedTransaction {
        sender,
        action: TransactionAction::Create,
        value: U256 { hi: 0, lo: 0 },
        input,
        gas_limit: 200_000,
        access_list: vec![],
    }
}

fn keccak(data: &[u8]) -> [u8; 32] {
    let mut out = [0u8; 32];
    let mut hasher = tiny_keccak::Keccak::v256();
    tiny_keccak::Hasher::update(&mut hasher, data);
    tiny_keccak::Hasher::finalize(hasher, &mut out);
    out
}

#[test]
fn digest_is_keccak() {
    assert_eq!(Hasher::digest(b"abc"), keccak(b"abc"));
    assert_ne!(Hasher::digest(b"abc")[..], b"abc"[..]);
    let empty: [u8; 32] = [
        0xc5, 0xd2, 0x46, 0x01, 0x86, 0xf7, 0x23, 0x3c, 0x92, 0x7e, 0x7d, 0xb2, 0xdc, 0xc7, 0x03,
        0xc0, 0xe5, 0x00, 0xb6, 0x53, 0xca, 0x82, 0x27, 0x3b, 0x7b, 0xfa, 0xd8, 0x04, 0x5d, 0x85,
        0xa4, 0x70,
    ];
    assert_eq!(Hasher::digest(&[]), empty);
}

#[test]
fn empty_batch_leaves_the_root() {
    let mut ledger = Ledger::new(vec![(ALICE, 100)]);
    let root = ledger.state_root();
    let untouched = ledger.clone();
    let done = EvmExecutor::new().exec(&mut ledger, vec![]);
    assert_eq!(done.state_root, root);
    assert_eq!(done.gas_used, 0);
    assert!(done.tx_resp.is_empty());
    assert!(done.receipt_hashes.is_empty());
    assert_eq!(ledger, untouched);
    let resp = done.into_resp(None);
    assert_eq!(resp.receipt_root, [0u8; 32]);
    assert_eq!(resp.state_root, root);
}

#[test]
fn transfer_then_revert() {
    let mut ledger = Ledger::new(vec![(ALICE, 100)]);
    let before = ledger.state_root();
    let txs = vec![transfer(ALICE, BOB, 30, vec![1, 2, 3]), transfer(ALICE, BOB, 10, vec![0xfd])];
    let done = EvmExecutor::new().exec(&mut ledger, txs);
    assert_eq!(done.tx_resp.len(), 2);
    assert_eq!(done.tx_resp[0].exit_reason, ExitReason::Succeed(ExitSucceed::Stopped));
    assert_eq!(done.tx_resp[0].ret, vec![1, 2, 3]);
    assert_eq!(done.tx_resp[0].gas_used, 21003);
    assert_eq!(done.tx_resp[0].remain_gas, 100_000 - 21003);
    assert_eq!(done.tx_resp[1].exit_reason, ExitReason::Revert);
    assert_eq!(done.tx_resp[1].ret, vec![0xde, 0xad]);
    assert_eq!(done.tx_resp[1].gas_used, 21001);
    assert_eq!(done.gas_used, 21003 + 21001);
    assert_eq!(find(&ledger.balances, &ALICE), 70);
    assert_eq!(find(&ledger.balances, &BOB), 30);
    let after_first = {
        let mut l = Ledger::new(vec![(ALICE, 100)]);
        EvmExecutor::new().exec(&mut l, vec![transfer(ALICE, BOB, 30, vec![1, 2, 3])]);
        l
    };
    assert_eq!(ledger, after_first);
    assert_eq!(done.state_root, after_first.state_root());
    assert_ne!(done.state_root, before);
    assert_eq!(done.receipt_hashes, vec![keccak(&[1, 2, 3]), keccak(&[0xde, 0xad])]);
    let logs = vec![Log { address: BOB, topics: vec![[1u8; 32]], data: vec![1, 2, 3] }];
    assert_eq!(done.tx_resp[0].logs, logs);
    assert_eq!(done.tx_resp[1].logs, logs);
    let resp = done.clone().into_resp(Some([8u8; 32]));
    assert_eq!(resp.receipt_root, [8u8; 32]);
    assert_eq!(resp.gas_used, 42004);
    assert_eq!(resp.tx_resp, done.tx_resp);
    assert_eq!(resp.state_root, done.state_root);
}

#[test]
fn results_keep_the_order_of_the_batch() {
    let mut ledger = Ledger::new(vec![(ALICE, 100), (BOB, 5)]);
    let txs = vec![
        transfer(ALICE, BOB, 1, vec![1]),
        transfer(BOB, ALICE, 2, vec![2, 2]),
        transfer(ALICE, BOB, 500, vec![3, 3, 3]),
        transfer(ALICE, ALICE, 0, vec![4, 4, 4, 4]),
    ];
    let done = EvmExecutor::new().exec(&mut ledger, txs);
    let rets: Vec<Vec<u8>> = done.tx_resp.iter().map(|r| r.ret.clone()).collect();
    assert_eq!(rets, vec![vec![1], vec![2, 2], vec![], vec![4, 4, 4, 4]]);
    assert_eq!(done.tx_resp[2].exit_reason, ExitReason::Error(ExitError::OutOfFund));
    assert_eq!(done.receipt_hashes.len(), 4);
    assert_eq!(find(&ledger.balances, &ALICE), 101);
    assert_eq!(find(&ledger.balances, &BOB), 4);
}

#[test]
fn later_transactions_see_earlier_effects() {
    let mut ledger = Ledger::new(vec![(ALICE, 10)]);
    let txs = vec![transfer(BOB, ALICE, 5, vec![]), transfer(ALICE, BOB, 5, vec![]), transfer(BOB, ALICE, 5, vec![])];
    let done = EvmExecutor::new().exec(&mut ledger, txs);
    assert_eq!(done.tx_resp[0].exit_reason, ExitReason::Error(ExitError::OutOfFund));
    assert!(done.tx_resp[0].logs.is_empty());
    assert!(done.tx_resp[1].exit_reason.is_succeed());
    assert!(done.tx_resp[2].exit_reason.is_succeed());
    assert_eq!(find(&ledger.balances, &ALICE), 10);
}

#[test]
fn rerun_gives_the_same_roots() {
    let txs = vec![transfer(ALICE, BOB, 30, vec![1]), creation(ALICE, vec![0x60, 0x00])];
    let mut one = Ledger::new(vec![(ALICE, 100)]);
    let mut two = Ledger::new(vec![(ALICE, 100)]);
    let first = EvmExecutor::new().exec(&mut one, txs.clone());
    let second = EvmExecutor::new().exec(&mut two, txs);
    assert_eq!(first, second);
    assert_eq!(one, two);
}

#[test]
fn failed_transaction_changes_nothing() {
    let mut ledger = Ledger::new(vec![(ALICE, 100)]);
    let untouched = ledger.clone();
    let resp = EvmExecutor::new().inner_exec(&mut ledger, transfer(ALICE, BOB, 10, vec![0xfd, 1]));
    assert_eq!(resp.exit_reason, ExitReason::Revert);
    assert!(!resp.exit_reason.is_succeed());
    assert_eq!(ledger, untouched);
    assert_eq!(ledger.get(&ALICE), untouched.get(&ALICE));
    assert_eq!(ledger.get(&BOB), None);
    assert!(resp.logs.is_empty());
    assert_eq!(resp.gas_used, 21002);
}

#[test]
fn successful_transaction_is_committed() {
    let mut ledger = Ledger::new(vec![(ALICE, 100)]);
    let resp = EvmExecutor::new().inner_exec(&mut ledger, transfer(ALICE, BOB, 10, vec![9]));
    assert!(resp.exit_reason.is_succeed());
    assert!(resp.logs.is_empty());
    assert_eq!(ledger.get(&BOB), Some(10u128.to_be_bytes().to_vec()));
    assert_eq!(ledger.get(&ALICE), Some(90u128.to_be_bytes().to_vec()));
    assert_eq!(ledger.get_logs().len(), 1);
}

#[test]
fn creation_returns_nothing_and_makes_an_account() {
    let mut ledger = Ledger::new(vec![(ALICE, 100)]);
    set(&mut ledger.nonces, ALICE, 7);
    let resp = EvmExecutor::new().inner_exec(&mut ledger, creation(ALICE, vec![0x60, 0x00]));
    assert_eq!(resp.exit_reason, ExitReason::Succeed(ExitSucceed::Returned));
    assert!(resp.ret.is_empty());
    let made = created_address(&ALICE, 7);
    assert!(ledger.balances.iter().any(|(a, _)| *a == made));
    assert_eq!(find(&ledger.nonces, &ALICE), 8);
}

#[test]
fn creation_is_asked_under_the_zero_salt() {
    struct Recorder(std::cell::RefCell<Vec<Request>>);
    impl Backend for Recorder {
        fn get(&self, _key: &[u8]) -> Option<Vec<u8>> {
            None
        }
        fn transact(&self, request: Request) -> Outcome {
            self.0.borrow_mut().push(request);
            Outcome {
                exit_reason: ExitReason::Succeed(ExitSucceed::Returned),
                ret: vec![1],
                remain_gas: 1,
                gas_used: 2,
                changes: Changeset { values: vec![], logs: vec![] },
            }
        }
        fn apply(&mut self, _changes: Changeset, delete_empty: bool) {
            assert!(delete_empty);
        }
        fn state_root(&self) -> [u8; 32] {
            [0; 32]
        }
        fn get_logs(&self) -> Vec<Log> {
            vec![]
        }
    }
    let mut recorder = Recorder(std::cell::RefCell::new(vec![]));
    let executor = EvmExecutor::new();
    let created = executor.inner_exec(&mut recorder, creation(ALICE, vec![5]));
    assert!(created.ret.is_empty());
    assert_eq!((created.remain_gas, created.gas_used), (1, 2));
    let t = transfer(ALICE, BOB, 3, vec![6]);
    let called = executor.inner_exec(&mut recorder, t.clone());
    assert_eq!(called.ret, vec![1]);
    let query = executor.call(&mut recorder, BOB, vec![7, 7]);
    assert_eq!(query.ret, vec![1]);
    assert_eq!((query.remain_gas, query.gas_used), (0, 0));
    let seen = recorder.0.borrow().clone();
    assert!(seen.iter().all(|r| r.rules == RuleSet::London && r.gas_ceiling == u64::MAX));
    let messages: Vec<Invocation> = seen.into_iter().map(|r| r.message).collect();
    assert_eq!(
        messages,
        vec![
            Invocation::Create {
                sender: ALICE,
                value: U256 { hi: 0, lo: 0 },
                input: vec![5],
                salt: [0; 32],
                gas_limit: 200_000,
                access_list: vec![],
            },
            Invocation::Call {
                sender: ALICE,
                to: BOB,
                value: U256 { hi: 0, lo: 3 },
                input: vec![6],
                gas_limit: 100_000,
                access_list: t.access_list,
            },
            Invocation::Call {
                sender: [0; 20],
                to: BOB,
                value: U256 { hi: 0, lo: 0 },
                input: vec![7, 7],
                gas_limit: u64::MAX,
                access_list: vec![],
            },
        ]
    );
}

#[test]
fn query_commits_nothing() {
    let mut ledger = Ledger::new(vec![(ALICE, 100)]);
    let untouched = ledger.clone();
    let resp = EvmExecutor::new().call(&mut ledger, BOB, vec![4, 5]);
    assert!(resp.exit_reason.is_succeed());
    assert_eq!(resp.ret, vec![4, 5]);
    assert_eq!(resp.remain_gas, 0);
    assert_eq!(resp.gas_used, 0);
    assert!(resp.logs.is_empty());
    assert_eq!(ledger, untouched);
}

#[test]
fn gas_total_wraps_at_64_bits() {
    struct Greedy;
    impl Backend for Greedy {
        fn get(&self, _key: &[u8]) -> Option<Vec<u8>> {
            None
        }
        fn transact(&self, _request: Request) -> Outcome {
            Outcome {
                exit_reason: ExitReason::Revert,
                ret: vec![],
                remain_gas: 0,
                gas_used: u64::MAX,
                changes: Changeset { values: vec![], logs: vec![] },
            }
        }
        fn apply(&mut self, _changes: Changeset, _delete_empty: bool) {}
        fn state_root(&self) -> [u8; 32] {
            [0; 32]
        }
        fn get_logs(&self) -> Vec<Log> {
            vec![]
        }
    }
    let txs = vec![transfer(ALICE, BOB, 0, vec![]), transfer(ALICE, BOB, 0, vec![])];
    let done = EvmExecutor::new().exec(&mut Greedy, txs);
    assert_eq!(done.gas_used, u64::MAX - 1);
}

#[test]
fn absent_account_is_empty() {
    let account = Account::absent();
    assert_eq!(account.nonce, U256 { hi: 0, lo: 0 });
    assert_eq!(account.balance, U256 { hi: 0, lo: 0 });
    assert_eq!(account.storage_root, keccak(&[0x80]));
    assert_eq!(account.code_hash, keccak(&[]));
    assert_eq!(rlp_null(), keccak(&[0x80]));
    assert_eq!(nil_data(), keccak(&[]));
}

#[test]
fn account_without_record_is_the_absent_one() {
    let ledger = Ledger::new(vec![(ALICE, 100)]);
    let executor = EvmExecutor::new();
    assert_eq!(executor.get_account(&ledger, &BOB), Some(Account::absent()));
    assert_eq!(executor.get_account(&ledger, &ALICE), None);
}

#[test]
fn zero_is_zero() {
    assert_eq!(U256::zero(), U256 { hi: 0, lo: 0 });
}

#[test]
fn request_carries_the_transaction() {
    let t = transfer(ALICE, BOB, 3, vec![6]);
    assert_eq!(
        t.clone().into_request(),
        Request {
            rules: RuleSet::London,
            gas_ceiling: u64::MAX,
            message: Invocation::Call {
                sender: ALICE,
                to: BOB,
                value: U256 { hi: 0, lo: 3 },
                input: vec![6],
                gas_limit: 100_000,
                access_list: t.access_list,
            },
        }
    );
}

#[test]
fn settle_commits_only_success() {
    let changes = Changeset { values: vec![modify(ALICE, 1, 1)], logs: vec![] };
    let outcome = |exit_reason| Outcome {
        exit_reason,
        ret: vec![1, 2],
        remain_gas: 5,
        gas_used: 6,
        changes: changes.clone(),
    };
    let good = settle(TransactionAction::Call(BOB), outcome(ExitReason::Succeed(ExitSucceed::Returned)));
    assert_eq!(good.commit, Some(changes.clone()));
    assert_eq!(good.resp.ret, vec![1, 2]);
    assert_eq!((good.resp.remain_gas, good.resp.gas_used), (5, 6));
    assert!(good.resp.logs.is_empty());
    let made = settle(TransactionAction::Create, outcome(ExitReason::Succeed(ExitSucceed::Returned)));
    assert_eq!(made.commit, Some(changes.clone()));
    assert!(made.resp.ret.is_empty());
    let reverted = settle(TransactionAction::Call(BOB), outcome(ExitReason::Revert));
    assert_eq!(reverted.commit, None);
    assert_eq!(reverted.resp.exit_reason, ExitReason::Revert);
    assert_eq!(reverted.resp.ret, vec![1, 2]);
    let failed = settle(TransactionAction::Call(BOB), outcome(ExitReason::Error(ExitError::OutOfGas)));
    assert_eq!(failed.commit, None);
    let fatal = settle(
        TransactionAction::Call(BOB),
        outcome(ExitReason::Fatal(axon_core::executor::ExitFatal::NotSupported)),
    );
    assert_eq!(fatal.commit, None);
}

#[test]
fn repeated_query_gives_the_same_answer() {
    let mut ledger = Ledger::new(vec![(ALICE, 100)]);
    let executor = EvmExecutor::new();
    let data = vec![4, 5, 6];
    let first = executor.call(&mut ledger, BOB, data.clone());
    let second = executor.call(&mut ledger, BOB, data);
    assert_eq!(first, second);
    assert_eq!(first.ret, vec![4, 5, 6]);
}

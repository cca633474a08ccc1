use axon_core::account::{account_from_fields, decode_account, hash_from, number_from_be};
use axon_core::executor::{
    Account, Backend, Changeset, EvmExecutor, Log, Outcome, Request,
};
use axon_core::primitive::U256;

fn record(fields: &[Vec<u8>]) -> Vec<u8> {
    let mut stream = rlp::RlpStream::new_list(fields.len());
    for field in fields {
        stream.append(field);
    }
    stream.out().to_vec()
}

fn fields() -> Vec<Vec<u8>> {
    let mut balance = vec![1u8];
    balance.extend_from_slice(&[0u8; 16]);
    vec![vec![1, 2], balance, vec![7; 32], vec![8; 32]]
}

fn account() -> Account {
    Account {
        nonce: U256 { hi: 0, lo: 258 },
        balance: U256 { hi: 1, lo: 0 },
        storage_root: [7; 32],
        code_hash: [8; 32],
    }
}

struct Records(Vec<([u8; 20], Vec<u8>)>);

impl Backend for Records {
    fn get(&self, key: &[u8]) -> Option<Vec<u8>> {
        self.0.iter().find(|(a, _)| &a[..] == key).map(|(_, v)| v.clone())
    }
    fn transact(&self, _request: Request) -> Outcome {
        unreachable!()
    }
    fn apply(&mut self, _changes: Changeset, _delete_empty: bool) {}
    fn state_root(&self) -> [u8; 32] {
        [0; 32]
    }
    fn get_logs(&self) -> Vec<Log> {
        vec![]
    }
}

#[test]
fn number_is_read_highest_byte_first() {
    assert_eq!(number_from_be(&[]), Some(U256 { hi: 0, lo: 0 }));
    assert_eq!(number_from_be(&[1]), Some(U256 { hi: 0, lo: 1 }));
    assert_eq!(number_from_be(&[1, 2]), Some(U256 { hi: 0, lo: 258 }));
    assert_eq!(number_from_be(&[0xff; 16]), Some(U256 { hi: 0, lo: u128::MAX }));
    let mut seventeen = vec![2u8];
    seventeen.extend_from_slice(&[0u8; 15]);
    seventeen.push(3);
    assert_eq!(number_from_be(&seventeen), Some(U256 { hi: 2, lo: 3 }));
    assert_eq!(number_from_be(&[0xff; 32]), Some(U256 { hi: u128::MAX, lo: u128::MAX }));
}

#[test]
fn number_turns_down_leading_zero_and_excess() {
    assert_eq!(number_from_be(&[0]), None);
    assert_eq!(number_from_be(&[0, 1]), None);
    assert_eq!(number_from_be(&[1; 33]), None);
}

#[test]
fn hash_takes_32_bytes() {
    assert_eq!(hash_from(&[5; 32]), Some([5; 32]));
    let mut bytes = [0u8; 32];
    bytes[0] = 1;
    bytes[31] = 2;
    assert_eq!(hash_from(&bytes), Some(bytes));
    assert_eq!(hash_from(&[5; 31]), None);
    assert_eq!(hash_from(&[5; 33]), None);
    assert_eq!(hash_from(&[]), None);
}

#[test]
fn account_is_built_from_four_fields() {
    assert_eq!(account_from_fields(&fields()), Some(account()));
    assert_eq!(account_from_fields(&fields()[..3].to_vec()), None);
    let mut five = fields();
    five.push(vec![]);
    assert_eq!(account_from_fields(&five), None);
    let mut short_root = fields();
    short_root[2] = vec![7; 31];
    assert_eq!(account_from_fields(&short_root), None);
    let mut zero_led = fields();
    zero_led[0] = vec![0, 1];
    assert_eq!(account_from_fields(&zero_led), None);
}

#[test]
fn stored_record_decodes() {
    assert_eq!(decode_account(&record(&fields())), Some(account()));
    let empty = vec![vec![], vec![], vec![7; 32], vec![8; 32]];
    assert_eq!(
        decode_account(&record(&empty)),
        Some(Account {
            nonce: U256 { hi: 0, lo: 0 },
            balance: U256 { hi: 0, lo: 0 },
            storage_root: [7; 32],
            code_hash: [8; 32],
        })
    );
}

#[test]
fn corrupt_record_does_not_decode() {
    assert_eq!(decode_account(&[]), None);
    assert_eq!(decode_account(&[1, 2, 3]), None);
    assert_eq!(decode_account(&record(&fields()[..3].to_vec())), None);
    let mut long_code = fields();
    long_code[3] = vec![8; 33];
    assert_eq!(decode_account(&record(&long_code)), None);
    let nested = {
        let mut stream = rlp::RlpStream::new_list(4);
        stream.begin_list(1).append(&vec![1u8]);
        stream.append(&vec![1u8]).append(&vec![7u8; 32]).append(&vec![8u8; 32]);
        stream.out().to_vec()
    };
    assert_eq!(decode_account(&nested), None);
}

#[test]
fn get_account_decodes_the_stored_record() {
    let backend = Records(vec![([1; 20], record(&fields())), ([2; 20], vec![0xde, 0xad])]);
    let executor = EvmExecutor::new();
    assert_eq!(executor.get_account(&backend, &[1; 20]), Some(account()));
    assert_eq!(executor.get_account(&backend, &[2; 20]), None);
    assert_eq!(executor.get_account(&backend, &[3; 20]), Some(Account::absent()));
}

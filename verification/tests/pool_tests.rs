use genesis::address::Address;

use genesis::pool::{Pool, PoolError, Poolable, PoolableView};

struct Tx {
    id: &'static [u8],
    account: &'static str,
    nonce: u64,
    ok: bool,
}

impl Poolable for Tx {
    fn pool_view(&self) -> PoolableView {
        unreachable!()
    }

    fn hash(&self) -> genesis::hash::Hash {
        genesis::hash::Hash::sha256_of(self.id)
    }

    fn account(&self) -> Address {
        Address { text: self.account.to_string() }
    }

    fn nonce(&self) -> u64 {
        self.nonce
    }

    fn verify(&self) -> Result<(), PoolError> {
        if self.ok {
            Ok(())
        } else {
            Err(PoolError::TransactionError("transaction check failed".to_string()))
        }
    }
}

fn tx(id: &'static [u8], account: &'static str, nonce: u64) -> Tx {
    Tx { id, account, nonce, ok: true }
}

#[test]
fn pool_takes_and_gives_back() {
    let mut pool: Pool<Tx> = Pool::new("tx".to_string(), 16);
    assert_eq!(pool.count(), 0);
    assert!(pool.push(tx(b"a", "alice", 3), Ok(3)).is_ok());
    assert_eq!(pool.count(), 1);
    assert!(pool.exist(&tx(b"a", "alice", 3)));
    assert!(!pool.exist(&tx(b"b", "alice", 3)));
    let got = pool.fetch(genesis::hash::Hash::sha256_of(b"a")).unwrap();
    assert_eq!(got.id, b"a");
    assert_eq!(pool.count(), 0);
    assert!(pool.fetch(genesis::hash::Hash::sha256_of(b"a")).is_none());
}

#[test]
fn pool_refuses_duplicates_and_when_locked() {
    let mut pool: Pool<Tx> = Pool::new("tx".to_string(), 16);
    pool.push(tx(b"a", "alice", 3), Ok(3)).unwrap();
    match pool.push(tx(b"a", "bob", 3), Ok(3)) {
        Err(PoolError::Duplicate(h)) => assert_eq!(h.data(), genesis::hash::Hash::sha256_of(b"a").data()),
        _ => panic!("a duplicate was taken"),
    }
    pool.lock();
    assert!(matches!(pool.push(tx(b"b", "alice", 3), Ok(3)), Err(PoolError::Locked)));
    pool.unlock();
    assert!(pool.push(tx(b"b", "alice", 3), Ok(3)).is_ok());
    assert_eq!(pool.count(), 2);
    assert!(pool.clear().is_ok());
    assert_eq!(pool.count(), 0);
}

#[test]
fn pool_checks_nonce_and_validity() {
    let mut pool: Pool<Tx> = Pool::new("tx".to_string(), 16);
    assert!(matches!(pool.push(tx(b"a", "alice", 4), Ok(3)), Err(PoolError::NonceError)));
    // the nonce the chain gave is cached: a later answer is not consulted
    assert!(matches!(pool.push(tx(b"b", "alice", 9), Ok(9)), Err(PoolError::NonceError)));
    assert!(pool.push(tx(b"c", "alice", 3), Err("db down".to_string())).is_ok());
    match pool.push(tx(b"d", "bob", 1), Err("db down".to_string())) {
        Err(PoolError::DBError(e)) => assert_eq!(e, "db down"),
        _ => panic!("the chain error was lost"),
    }
    let bad = Tx { id: b"e", account: "alice", nonce: 3, ok: false };
    assert!(matches!(pool.push(bad, Ok(3)), Err(PoolError::TransactionError(_))));
    pool.drop_nonce_cache();
    assert!(pool.push(tx(b"f", "alice", 9), Ok(9)).is_ok());
    assert_eq!(pool.get_account_nonce(Address { text: "alice".to_string() }, Ok(1)), Ok(9));
    assert_eq!(pool.get_account_nonce(Address { text: "carol".to_string() }, Ok(1)), Ok(1));
}

#[test]
fn pool_channels() {
    let mut pool: Pool<Tx> = Pool::new("tx".to_string(), 16);
    pool.add_channel("a".to_string());
    pool.add_channel("b".to_string());
    pool.add_channel("a".to_string());
    assert_eq!(pool.channel_index("b".to_string()), 1);
    assert_eq!(pool.channel_index("a".to_string()), 0);
    pool.remove_channel(0);
    assert_eq!(pool.channels(), vec!["b".to_string(), "a".to_string()]);
    assert_eq!(pool.channel_index("a".to_string()), 1);
}

#[test]
fn pool_notices_go_to_every_channel() {
    let mut pool: Pool<Tx> = Pool::new("tx".to_string(), 16);
    assert!(pool.notify_new_tx_recieved().is_empty());
    pool.add_channel("gossip".to_string());
    pool.add_channel("miner".to_string());
    pool.push(tx(b"a", "alice", 3), Ok(3)).unwrap();
    let notices = pool.notify_new_tx_recieved();
    assert_eq!(
        notices,
        vec![
            ("gossip".to_string(), "new_tx".to_string()),
            ("miner".to_string(), "new_tx".to_string()),
        ]
    );
}

use vstd::prelude::*;
use vstd::string::*;

use crate::stores::{MapState, StateCell, StoreError, VecState};
use crate::text::{decimal_of, push_decimal};

verus! {

/// The default of the last-timestamp cell.
pub const DEFAULT_LAST_TIMESTAMP: u64 = 100;

/// The log line the timer stores for a tick at `ts`: `Hello, <ts>!`.
pub open spec fn hello_text(ts: u64) -> Seq<char> {
    seq!['H', 'e', 'l', 'l', 'o', ',', ' '] + decimal_of(ts as nat) + seq!['!']
}

/// Every store this canister declares, each starting at its default.
pub struct BackendState {
    pub last_timestamp: StateCell<u64>,
    pub latest_result: StateCell<String>,
    pub vec_result: VecState<String>,
    pub balance: MapState<String, u64>,
    pub username: MapState<u64, String>,
    pub rpc: StateCell<String>,
    pub chain_id: StateCell<u8>,
    pub dst_address: StateCell<String>,
    pub hello_ts: VecState<u64>,
    pub hello_msg: MapState<u64, String>,
}

impl BackendState {
    /// Every map store keeps its keys distinct.
    pub open spec fn wf(&self) -> bool {
        self.balance.wf() && self.username.wf() && self.hello_msg.wf()
    }

    /// Every store at its declared default: the last timestamp at 100, the
    /// other cells at their type's zero or empty value, the logs and maps
    /// empty.
    pub fn new() -> (r: Self)
        ensures
            r.wf(),
            r.last_timestamp@ == DEFAULT_LAST_TIMESTAMP,
            r.latest_result@@ == Seq::<char>::empty(),
            r.vec_result@ == Seq::<String>::empty(),
            r.balance@ == Map::<Seq<char>, u64>::empty(),
            r.username@ == Map::<u64, String>::empty(),
            r.rpc@@ == Seq::<char>::empty(),
            r.chain_id@ == 0,
            r.dst_address@@ == Seq::<char>::empty(),
            r.hello_ts@ == Seq::<u64>::empty(),
            r.hello_msg@ == Map::<u64, String>::empty(),
    {
        BackendState {
            last_timestamp: StateCell::new(DEFAULT_LAST_TIMESTAMP),
            latest_result: StateCell::new(String::new()),
            vec_result: VecState::new(),
            balance: MapState::new(),
            username: MapState::new(),
            rpc: StateCell::new(String::new()),
            chain_id: StateCell::new(0),
            dst_address: StateCell::new(String::new()),
            hello_ts: VecState::new(),
            hello_msg: MapState::new(),
        }
    }

    pub fn get_last_timestamp(&self) -> (r: u64)
        ensures
            r == self.last_timestamp@,
    {
        *self.last_timestamp.get()
    }

    pub fn set_last_timestamp(&mut self, v: u64)
        ensures
            *final(self) == (BackendState { last_timestamp: final(self).last_timestamp, ..*old(self) }),
            final(self).last_timestamp@ == v,
    {
        self.last_timestamp.set(v);
    }

    pub fn get_latest_result(&self) -> (r: String)
        ensures
            r == self.latest_result@,
    {
        self.latest_result.get().clone()
    }

    pub fn set_latest_result(&mut self, v: String)
        ensures
            *final(self) == (BackendState { latest_result: final(self).latest_result, ..*old(self) }),
            final(self).latest_result@ == v,
    {
        self.latest_result.set(v);
    }

    /// Every value of the result log, oldest first.
    pub fn get_vec_results(&self) -> (r: Vec<String>)
        ensures
            r@ == self.vec_result@,
    {
        let r = self.vec_result.all().clone();
        assert(r@ =~= self.vec_result@);
        r
    }

    /// The `i`-th value appended to the result log.
    pub fn get_vec_result(&self, i: usize) -> (r: Result<String, StoreError>)
        ensures
            i < self.vec_result@.len() ==> r == Ok::<String, StoreError>(self.vec_result@[i as int]),
            i >= self.vec_result@.len() ==> r == Err::<String, StoreError>(
                StoreError::IndexOutOfRange { index: i, len: self.vec_result@.len() as usize },
            ),
    {
        match self.vec_result.get(i) {
            Ok(v) => Ok(v.clone()),
            Err(e) => Err(e),
        }
    }

    /// Appends `v` to the result log.
    pub fn set_vec_result(&mut self, v: String)
        ensures
            *final(self) == (BackendState { vec_result: final(self).vec_result, ..*old(self) }),
            final(self).vec_result@ == old(self).vec_result@.push(v),
    {
        self.vec_result.append(v);
    }

    pub fn vec_results_len(&self) -> (r: usize)
        ensures
            r == self.vec_result@.len(),
    {
        self.vec_result.length()
    }

    /// The balance stored under `key`.
    pub fn get_balance(&self, key: String) -> (r: Result<u64, StoreError>)
        requires
            self.wf(),
        ensures
            self.balance@.contains_key(key@) ==> r == Ok::<u64, StoreError>(self.balance@[key@]),
            !self.balance@.contains_key(key@) ==> r == Err::<u64, StoreError>(StoreError::KeyNotFound),
    {
        match self.balance.get(&key) {
            Ok(v) => Ok(*v),
            Err(e) => Err(e),
        }
    }

    /// Stores `value` as the balance of `key`, replacing any earlier one.
    pub fn set_balance(&mut self, key: String, value: u64)
        requires
            old(self).wf(),
        ensures
            final(self).wf(),
            *final(self) == (BackendState { balance: final(self).balance, ..*old(self) }),
            final(self).balance@ == old(self).balance@.insert(key@, value),
    {
        self.balance.set(key, value);
    }

    /// How many distinct keys hold a balance.
    pub fn balances_len(&self) -> (r: usize)
        requires
            self.wf(),
        ensures
            r == self.balance@.len(),
    {
        self.balance.length()
    }

    /// The user name stored under `key`.
    pub fn get_username(&self, key: u64) -> (r: Result<String, StoreError>)
        requires
            self.wf(),
        ensures
            self.username@.contains_key(key) ==> r == Ok::<String, StoreError>(self.username@[key]),
            !self.username@.contains_key(key) ==> r == Err::<String, StoreError>(StoreError::KeyNotFound),
    {
        match self.username.get(&key) {
            Ok(v) => Ok(v.clone()),
            Err(e) => Err(e),
        }
    }

    /// Stores `value` as the user name of `key`, replacing any earlier one.
    pub fn set_username(&mut self, key: u64, value: String)
        requires
            old(self).wf(),
        ensures
            final(self).wf(),
            *final(self) == (BackendState { username: final(self).username, ..*old(self) }),
            final(self).username@ == old(self).username@.insert(key, value),
    {
        self.username.set(key, value);
    }

    /// How many distinct keys hold a user name.
    pub fn usernames_len(&self) -> (r: usize)
        requires
            self.wf(),
        ensures
            r == self.username@.len(),
    {
        self.username.length()
    }

    pub fn get_rpc(&self) -> (r: String)
        ensures
            r == self.rpc@,
    {
        self.rpc.get().clone()
    }

    pub fn set_rpc(&mut self, v: String)
        ensures
            *final(self) == (BackendState { rpc: final(self).rpc, ..*old(self) }),
            final(self).rpc@ == v,
    {
        self.rpc.set(v);
    }

    pub fn get_chain_id(&self) -> (r: u8)
        ensures
            r == self.chain_id@,
    {
        *self.chain_id.get()
    }

    pub fn set_chain_id(&mut self, v: u8)
        ensures
            *final(self) == (BackendState { chain_id: final(self).chain_id, ..*old(self) }),
            final(self).chain_id@ == v,
    {
        self.chain_id.set(v);
    }

    pub fn get_dst_address(&self) -> (r: String)
        ensures
            r == self.dst_address@,
    {
        self.dst_address.get().clone()
    }

    pub fn set_dst_address(&mut self, v: String)
        ensures
            *final(self) == (BackendState { dst_address: final(self).dst_address, ..*old(self) }),
            final(self).dst_address@ == v,
    {
        self.dst_address.set(v);
    }

    /// Fills the three configuration cells in one step; every other store is
    /// left as it was. Calling it again overwrites all three.
    pub fn setup(&mut self, rpc: String, chain_id: u8, dst_address: String)
        ensures
            *final(self) == (BackendState {
                rpc: final(self).rpc,
                chain_id: final(self).chain_id,
                dst_address: final(self).dst_address,
                ..*old(self)
            }),
            final(self).rpc@ == rpc,
            final(self).chain_id@ == chain_id,
            final(self).dst_address@ == dst_address,
    {
        self.set_rpc(rpc);
        self.set_chain_id(chain_id);
        self.set_dst_address(dst_address);
    }

    /// Every timestamp the timer has logged, oldest first.
    pub fn get_hello_tss(&self) -> (r: Vec<u64>)
        ensures
            r@ == self.hello_ts@,
    {
        let r = self.hello_ts.all().clone();
        assert(r@ =~= self.hello_ts@);
        r
    }

    /// The `i`-th timestamp the timer logged.
    pub fn get_hello_ts(&self, i: usize) -> (r: Result<u64, StoreError>)
        ensures
            i < self.hello_ts@.len() ==> r == Ok::<u64, StoreError>(self.hello_ts@[i as int]),
            i >= self.hello_ts@.len() ==> r == Err::<u64, StoreError>(
                StoreError::IndexOutOfRange { index: i, len: self.hello_ts@.len() as usize },
            ),
    {
        match self.hello_ts.get(i) {
            Ok(v) => Ok(*v),
            Err(e) => Err(e),
        }
    }

    /// Appends `v` to the timestamp log.
    pub fn set_hello_ts(&mut self, v: u64)
        ensures
            *final(self) == (BackendState { hello_ts: final(self).hello_ts, ..*old(self) }),
            final(self).hello_ts@ == old(self).hello_ts@.push(v),
    {
        self.hello_ts.append(v);
    }

    pub fn hello_tss_len(&self) -> (r: usize)
        ensures
            r == self.hello_ts@.len(),
    {
        self.hello_ts.length()
    }

    /// The message the timer stored for timestamp `key`.
    pub fn get_hello_msg(&self, key: u64) -> (r: Result<String, StoreError>)
        requires
            self.wf(),
        ensures
            self.hello_msg@.contains_key(key) ==> r == Ok::<String, StoreError>(self.hello_msg@[key]),
            !self.hello_msg@.contains_key(key) ==> r == Err::<String, StoreError>(StoreError::KeyNotFound),
    {
        match self.hello_msg.get(&key) {
            Ok(v) => Ok(v.clone()),
            Err(e) => Err(e),
        }
    }

    /// Stores `value` as the message of timestamp `key`, replacing any
    /// earlier one.
    pub fn set_hello_msg(&mut self, key: u64, value: String)
        requires
            old(self).wf(),
        ensures
            final(self).wf(),
            *final(self) == (BackendState { hello_msg: final(self).hello_msg, ..*old(self) }),
            final(self).hello_msg@ == old(self).hello_msg@.insert(key, value),
    {
        self.hello_msg.set(key, value);
    }

    pub fn hello_msgs_len(&self) -> (r: usize)
        requires
            self.wf(),
        ensures
            r == self.hello_msg@.len(),
    {
        self.hello_msg.length()
    }

    /// One tick of the greeting timer, given the clock reading `now`: logs
    /// `now` and stores `Hello, <now>!` under it; nothing else changes.
    pub fn hello(&mut self, now: u64)
        requires
            old(self).wf(),
        ensures
            final(self).wf(),
            *final(self) == (BackendState {
                hello_ts: final(self).hello_ts,
                hello_msg: final(self).hello_msg,
                ..*old(self)
            }),
            final(self).hello_ts@ == old(self).hello_ts@.push(now),
            final(self).hello_msg.view().dom() == old(self).hello_msg@.dom().insert(now),
            final(self).hello_msg@[now]@ == hello_text(now),
            forall|k: u64| k != now && old(self).hello_msg@.contains_key(k)
                ==> final(self).hello_msg@[k] == old(self).hello_msg@[k],
    {
        let mut msg = String::from_str("Hello, ");
        push_decimal(&mut msg, now);
        msg.append("!");
        proof {
            reveal_strlit("Hello, ");
            reveal_strlit("!");
            assert(msg@ =~= hello_text(now));
        }
        self.set_hello_ts(now);
        self.set_hello_msg(now, msg);
    }
}

/// `setup` followed by reads of the three configuration cells gives back
/// exactly the values passed, whatever the state before; a second `setup`
/// overwrites all three. `after` is `before` once `setup(rpc, chain_id,
/// dst_address)` has run.
pub proof fn lemma_setup_reads_back(
    before: BackendState,
    after: BackendState,
    rpc: String,
    chain_id: u8,
    dst_address: String,
)
    requires
        after == (BackendState {
            rpc: after.rpc,
            chain_id: after.chain_id,
            dst_address: after.dst_address,
            ..before
        }),
        after.rpc@ == rpc,
        after.chain_id@ == chain_id,
        after.dst_address@ == dst_address,
    ensures
        after.rpc@@ == rpc@,
        after.chain_id@ == chain_id,
        after.dst_address@@ == dst_address@,
        after.last_timestamp == before.last_timestamp,
        after.hello_ts == before.hello_ts,
        after.balance == before.balance,
{
}

} // verus!

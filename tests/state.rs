use sample_ic_web3_macros_backend::{BackendState, StoreError};

#[test]
fn test_setup() {
    let mut state = BackendState::new();
    let rpc = String::from("rpc");
    let chain_id = 1;
    let dst_address = String::from("dst_address");
    state.setup(rpc.clone(), chain_id, dst_address.clone());
    assert_eq!(state.get_rpc(), rpc);
    assert_eq!(state.get_chain_id(), chain_id);
    assert_eq!(state.get_dst_address(), dst_address);
}

#[test]
fn test_last_timestamp() {
    let mut state = BackendState::new();
    assert_eq!(state.get_last_timestamp(), 100);
    state.set_last_timestamp(200);
    assert_eq!(state.get_last_timestamp(), 200);
}

#[test]
fn test_latest_result() {
    let mut state = BackendState::new();
    assert_eq!(state.get_latest_result(), String::from(""));
    state.set_latest_result(String::from("UPDATED"));
    assert_eq!(state.get_latest_result(), String::from("UPDATED"));
}

#[test]
fn test_vec_results() {
    let mut state = BackendState::new();
    assert_eq!(state.vec_results_len(), 0);
    let datum1 = String::from("RESULT1");
    let datum2 = String::from("RESULT2");
    state.set_vec_result(datum1.clone());
    state.set_vec_result(datum2.clone());
    assert_eq!(state.vec_results_len(), 2);
    assert_eq!(state.get_vec_results(), vec![datum1.clone(), datum2.clone()]);
    assert_eq!(state.get_vec_result(0), Ok(datum1.clone()));
    assert_eq!(state.get_vec_result(1), Ok(datum2.clone()));
}

#[test]
fn test_balances() {
    let mut state = BackendState::new();
    assert_eq!(state.balances_len(), 0);
    let datum1 = String::from("BALANCE1");
    let datum2 = String::from("BALANCE2");
    state.set_balance(datum1.clone(), 100);
    state.set_balance(datum2.clone(), 200);
    assert_eq!(state.balances_len(), 2);
    assert_eq!(state.get_balance(datum1.clone()), Ok(100));
    assert_eq!(state.get_balance(datum2.clone()), Ok(200));
}

#[test]
fn test_usernames() {
    let mut state = BackendState::new();
    assert_eq!(state.usernames_len(), 0);
    let datum1 = String::from("USERNAME1");
    let datum2 = String::from("USERNAME2");
    state.set_username(1, datum1.clone());
    state.set_username(2, datum2.clone());
    assert_eq!(state.usernames_len(), 2);
    assert_eq!(state.get_username(1), Ok(datum1.clone()));
    assert_eq!(state.get_username(2), Ok(datum2.clone()));
}

#[test]
fn fresh_cells_read_their_defaults() {
    let state = BackendState::new();
    assert_eq!(state.get_last_timestamp(), 100);
    assert_eq!(state.get_latest_result(), String::new());
    assert_eq!(state.get_rpc(), String::new());
    assert_eq!(state.get_chain_id(), 0);
    assert_eq!(state.get_dst_address(), String::new());
    assert_eq!(state.get_vec_results(), Vec::<String>::new());
    assert_eq!(state.get_hello_tss(), Vec::<u64>::new());
    assert_eq!(state.hello_msgs_len(), 0);
}

#[test]
fn last_write_wins_on_a_cell() {
    let mut state = BackendState::new();
    state.set_last_timestamp(1);
    state.set_last_timestamp(7);
    state.set_last_timestamp(3);
    assert_eq!(state.get_last_timestamp(), 3);
    state.set_latest_result(String::from("a"));
    state.set_latest_result(String::from("b"));
    assert_eq!(state.get_latest_result(), String::from("b"));
}

#[test]
fn reading_past_the_log_end_is_out_of_range() {
    let mut state = BackendState::new();
    assert_eq!(
        state.get_vec_result(0),
        Err(StoreError::IndexOutOfRange { index: 0, len: 0 })
    );
    state.set_vec_result(String::from("RESULT1"));
    state.set_vec_result(String::from("RESULT2"));
    let len = state.vec_results_len();
    assert_eq!(
        state.get_vec_result(len),
        Err(StoreError::IndexOutOfRange { index: 2, len: 2 })
    );
    assert_eq!(
        state.get_hello_ts(5),
        Err(StoreError::IndexOutOfRange { index: 5, len: 0 })
    );
}

#[test]
fn missing_keys_are_not_found() {
    let mut state = BackendState::new();
    assert_eq!(state.get_balance(String::from("NOBODY")), Err(StoreError::KeyNotFound));
    state.set_username(1, String::from("USERNAME1"));
    assert_eq!(state.get_username(2), Err(StoreError::KeyNotFound));
    assert_eq!(state.get_hello_msg(9), Err(StoreError::KeyNotFound));
}

#[test]
fn rewriting_a_key_overwrites_without_growing() {
    let mut state = BackendState::new();
    state.set_balance(String::from("BALANCE1"), 100);
    state.set_balance(String::from("BALANCE2"), 200);
    state.set_balance(String::from("BALANCE1"), 300);
    assert_eq!(state.balances_len(), 2);
    assert_eq!(state.get_balance(String::from("BALANCE1")), Ok(300));
    assert_eq!(state.get_balance(String::from("BALANCE2")), Ok(200));
    state.set_balance(String::from("BALANCE3"), 0);
    assert_eq!(state.balances_len(), 3);
}

#[test]
fn setup_overwrites_earlier_setup_and_nothing_else() {
    let mut state = BackendState::new();
    state.set_last_timestamp(42);
    state.setup(String::from("first"), 5, String::from("addr1"));
    state.setup(String::from("second"), 9, String::from("addr2"));
    assert_eq!(state.get_rpc(), String::from("second"));
    assert_eq!(state.get_chain_id(), 9);
    assert_eq!(state.get_dst_address(), String::from("addr2"));
    assert_eq!(state.get_last_timestamp(), 42);
}

#[test]
fn timer_tick_logs_timestamp_and_greeting() {
    let mut state = BackendState::new();
    state.hello(1_700_000_000_123);
    state.hello(0);
    assert_eq!(state.get_hello_tss(), vec![1_700_000_000_123, 0]);
    assert_eq!(state.hello_tss_len(), 2);
    assert_eq!(state.get_hello_ts(1), Ok(0));
    assert_eq!(
        state.get_hello_msg(1_700_000_000_123),
        Ok(String::from("Hello, 1700000000123!"))
    );
    assert_eq!(state.get_hello_msg(0), Ok(String::from("Hello, 0!")));
    assert_eq!(state.hello_msgs_len(), 2);
}

#[test]
fn timer_tick_at_same_timestamp_keeps_one_message() {
    let mut state = BackendState::new();
    state.hello(5);
    state.hello(5);
    assert_eq!(state.get_hello_tss(), vec![5, 5]);
    assert_eq!(state.hello_msgs_len(), 1);
    assert_eq!(state.get_hello_msg(5), Ok(String::from("Hello, 5!")));
}

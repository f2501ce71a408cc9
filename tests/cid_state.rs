use cid_state::{CidState, ConnectionId, IssuedCid, TransportErrorCode};

fn issued(sequence: u64) -> IssuedCid {
    IssuedCid { sequence, id: ConnectionId::new(&[sequence as u8; 8]) }
}

fn batch(first: u64, count: u64) -> Vec<IssuedCid> {
    (first..first + count).map(issued).collect()
}

#[test]
fn construct_has_handshake_cid_active() {
    let mut st = CidState::new(8, None);
    assert_eq!(st.active_seq(), (0, 0));
    assert_eq!(st.retire_prior_to(), 0);
    assert_eq!(st.cid_len(), 8);
    assert_eq!(st.next_timeout(), None);
}

#[test]
fn scenario_retire_handshake_cid() {
    let mut st = CidState::new(8, None);
    assert_eq!(st.on_cid_retirement(0, 2), Ok(true));
    // Retiring it again is harmless.
    assert_eq!(st.on_cid_retirement(0, 2), Ok(true));
    assert_eq!(st.on_cid_retirement(0, 0), Ok(false));
}

#[test]
fn scenario_batch_gets_one_expiry_entry() {
    let mut st = CidState::new(8, Some(5_000));
    let t0: u64 = 1_000;
    st.new_cids(&batch(1, 2), t0);
    assert_eq!(st.active_seq(), (0, 2));
    assert_eq!(st.next_timeout(), Some(t0 + 5_000));
    // One entry: the timer pops it and asks to retire up to sequence 2.
    assert!(st.on_cid_timeout());
    assert_eq!(st.retire_prior_to(), 3);
    assert_eq!(st.next_timeout(), None);
}

#[test]
fn scenario_unissued_sequence_is_violation() {
    let mut st = CidState::new(8, None);
    st.new_cids(&batch(1, 2), 0);
    let err = st.on_cid_retirement(5, 10).unwrap_err();
    assert_eq!(err.code, TransportErrorCode::ProtocolViolation);
    assert_eq!(err.reason, "RETIRE_CONNECTION_ID for unissued sequence number");
    assert_eq!(st.active_seq(), (0, 2));
    // Exactly `issued` is still accepted.
    assert_eq!(st.on_cid_retirement(3, 10), Ok(true));
    assert_eq!(st.active_seq(), (0, 2));
}

#[test]
fn retirement_with_cids_disabled_is_violation() {
    for seq in [0u64, 1, 100, u64::MAX] {
        let mut st = CidState::new(0, None);
        let err = st.on_cid_retirement(seq, 4).unwrap_err();
        assert_eq!(err.code, TransportErrorCode::ProtocolViolation);
        assert_eq!(err.reason, "RETIRE_CONNECTION_ID when CIDs aren't in use");
        assert_eq!(st.active_seq(), (0, 0));
    }
}

#[test]
fn limit_is_compared_after_removal() {
    let mut st = CidState::new(8, None);
    st.new_cids(&batch(1, 3), 0);
    // Active {0,1,2,3}; retiring 0 leaves three.
    assert_eq!(st.on_cid_retirement(0, 3), Ok(false));
    assert_eq!(st.on_cid_retirement(1, 3), Ok(true));
    assert_eq!(st.active_seq(), (2, 3));
    assert_eq!(st.on_cid_retirement(2, 1), Ok(false));
    assert_eq!(st.on_cid_retirement(2, 2), Ok(true));
}

#[test]
fn empty_batch_changes_nothing() {
    let mut st = CidState::new(8, Some(10));
    st.new_cids(&[], 5);
    assert_eq!(st.next_timeout(), None);
    assert_eq!(st.active_seq(), (0, 0));
    assert_eq!(st.on_cid_retirement(2, 5).unwrap_err().code, TransportErrorCode::ProtocolViolation);
}

#[test]
fn no_lifetime_records_no_expiry() {
    let mut st = CidState::new(8, None);
    st.new_cids(&batch(1, 4), 7);
    assert_eq!(st.next_timeout(), None);
    assert!(!st.on_cid_timeout());
    assert_eq!(st.retire_prior_to(), 0);
}

#[test]
fn batches_at_same_instant_merge() {
    let mut st = CidState::new(8, Some(100));
    st.new_cids(&batch(1, 1), 50);
    st.new_cids(&batch(2, 1), 50);
    st.new_cids(&batch(3, 2), 60);
    assert_eq!(st.next_timeout(), Some(150));
    assert!(st.on_cid_timeout());
    assert_eq!(st.retire_prior_to(), 3);
    assert_eq!(st.next_timeout(), Some(160));
}

#[test]
fn expiry_overflow_records_nothing() {
    let mut st = CidState::new(8, Some(10));
    st.new_cids(&batch(1, 1), u64::MAX - 5);
    assert_eq!(st.next_timeout(), None);
}

#[test]
fn timeout_waits_for_peer_to_honour_previous_request() {
    let mut st = CidState::new(8, Some(100));
    st.new_cids(&batch(1, 1), 0);
    st.new_cids(&batch(2, 1), 10);
    // Retire prior to 2: sequences 0 and 1 are still held by the peer.
    assert!(st.on_cid_timeout());
    assert_eq!(st.retire_prior_to(), 2);
    assert_eq!(st.next_timeout(), Some(110));
    // The peer has not retired 0 and 1: the threshold stays.
    assert!(!st.on_cid_timeout());
    assert_eq!(st.retire_prior_to(), 2);
    assert_eq!(st.next_timeout(), None);
}

#[test]
fn timeout_advances_once_peer_complies() {
    let mut st = CidState::new(8, Some(100));
    st.new_cids(&batch(1, 1), 0);
    st.new_cids(&batch(2, 1), 10);
    assert!(st.on_cid_timeout());
    assert_eq!(st.on_cid_retirement(0, 8), Ok(true));
    assert_eq!(st.on_cid_retirement(1, 8), Ok(true));
    assert!(st.on_cid_timeout());
    assert_eq!(st.retire_prior_to(), 3);
}

#[test]
fn timeout_reports_false_when_peer_already_retired() {
    let mut st = CidState::new(8, Some(100));
    st.new_cids(&batch(1, 1), 0);
    st.new_cids(&batch(2, 1), 10);
    assert_eq!(st.on_cid_retirement(0, 8), Ok(true));
    assert_eq!(st.on_cid_retirement(1, 8), Ok(true));
    assert!(!st.on_cid_timeout());
    assert_eq!(st.retire_prior_to(), 2);
}

#[test]
fn threshold_never_decreases() {
    let mut st = CidState::new(8, Some(10));
    let mut last = st.retire_prior_to();
    for i in 1..20u64 {
        st.new_cids(&batch(i, 1), i);
        if i % 3 == 0 {
            let _ = st.on_cid_timeout();
        }
        if i % 2 == 0 {
            let _ = st.on_cid_retirement(i - 2, 4);
        }
        assert!(st.retire_prior_to() >= last);
        last = st.retire_prior_to();
        let (lo, hi) = st.active_seq();
        assert!(lo <= hi && hi <= i);
    }
}

#[test]
fn assign_retire_seq_returns_rise() {
    let mut st = CidState::new(8, None);
    st.new_cids(&batch(1, 4), 0);
    assert_eq!(st.assign_retire_seq(3), 3);
    assert_eq!(st.retire_prior_to(), 3);
    assert_eq!(st.assign_retire_seq(5), 2);
    assert_eq!(st.retire_prior_to(), 5);
}

use quick_bool::state::exchange_result;
use quick_bool::state::settle;
use quick_bool::state::state_for;
use quick_bool::state::state_is_set;
use quick_bool::state::state_value;
use quick_bool::state::FALSE;
use quick_bool::state::TRUE;
use quick_bool::state::UNSET;

#[test]
fn test_codes() {
    assert_eq!(UNSET, 0);
    assert_eq!(TRUE, 1);
    assert_eq!(FALSE, 0xFF);
}

#[test]
fn test_state_value_of_each_code() {
    assert_eq!(state_value(UNSET), None);
    assert_eq!(state_value(TRUE), Some(true));
    assert_eq!(state_value(FALSE), Some(false));
    assert_eq!(state_value(7), Some(false));
}

#[test]
fn test_state_is_set_of_each_code() {
    assert!(!state_is_set(UNSET));
    assert!(state_is_set(TRUE));
    assert!(state_is_set(FALSE));
    assert!(state_is_set(42));
}

#[test]
fn test_state_for() {
    assert_eq!(state_for(true), 1);
    assert_eq!(state_for(false), 0xFF);
}

#[test]
fn test_stored_value_reads_back() {
    for value in [true, false] {
        let code = state_for(value);
        assert_eq!(state_value(code), Some(value));
        assert!(state_is_set(code));
    }
}

#[test]
fn test_is_set_agrees_with_value() {
    for raw in 0..=255u8 {
        assert_eq!(state_is_set(raw), state_value(raw).is_some());
    }
}

#[test]
fn test_reset_code_reads_unset() {
    assert_eq!(state_value(UNSET), None);
    assert!(!state_is_set(UNSET));
}

#[test]
fn test_exchange_result_won() {
    assert!(exchange_result(true, Ok(UNSET)));
    assert!(!exchange_result(false, Ok(UNSET)));
}

#[test]
fn test_exchange_result_lost() {
    assert!(exchange_result(false, Err(TRUE)));
    assert!(!exchange_result(true, Err(FALSE)));
}

#[test]
fn test_exchange_answers_stored_value() {
    for computed in [true, false] {
        for actual in [TRUE, FALSE] {
            let answer = exchange_result(computed, Err(actual));
            assert_eq!(state_value(actual), Some(answer));
        }
        let answer = exchange_result(computed, Ok(UNSET));
        assert_eq!(state_value(state_for(computed)), Some(answer));
    }
}

#[test]
fn test_settle_set_byte_calls_nothing() {
    let r = settle(TRUE, || panic!("not called"), |_: u8| -> Result<u8, u8> { panic!("not called") });
    assert!(r);
    let r = settle(FALSE, || panic!("not called"), |_: u8| -> Result<u8, u8> { panic!("not called") });
    assert!(!r);
}

#[test]
fn test_settle_unset_byte_won_exchange() {
    let mut handed = Vec::new();
    let mut calls = 0;
    let r = settle(
        UNSET,
        || {
            calls += 1;
            false
        },
        |t: u8| {
            handed.push(t);
            Ok(UNSET)
        },
    );
    assert!(!r);
    assert_eq!(calls, 1);
    assert_eq!(handed, vec![FALSE]);

    let r = settle(UNSET, || true, |t: u8| {
        assert_eq!(t, TRUE);
        Ok(UNSET)
    });
    assert!(r);
}

#[test]
fn test_settle_unset_byte_lost_exchange() {
    let r = settle(UNSET, || true, |_: u8| Err(FALSE));
    assert!(!r);
    let r = settle(UNSET, || false, |_: u8| Err(TRUE));
    assert!(r);
}

use gasguard::property::{execute, BatchMsg, ExecuteMsg};
use gasguard::token::TokenError;

#[test]
fn token_error_codes() {
    assert_eq!(TokenError::Unauthorized.code(), 1);
    assert_eq!(TokenError::InsufficientBalance.code(), 2);
    assert_eq!(TokenError::InsufficientAllowance.code(), 3);
    assert_eq!(TokenError::InvalidAddress.code(), 4);
    assert_eq!(TokenError::ArithmeticOverflow.code(), 5);
    assert_eq!(TokenError::AlreadyInitialized.code(), 6);
    assert!(TokenError::Unauthorized < TokenError::AlreadyInitialized);
}

fn run(msg: ExecuteMsg<u32>) -> Result<String, String> {
    execute(
        msg,
        |id: String, m: u32| Ok(format!("set {} {}", id, m)),
        |id: String, m: u32| if m == 0 { Err(format!("empty {}", id)) } else { Ok(format!("update {} {}", id, m)) },
        |msgs: Vec<BatchMsg<u32>>| Ok(format!("batch of {}", msgs.len())),
    )
}

#[test]
fn execute_dispatches_by_message_kind() {
    assert_eq!(run(ExecuteMsg::SetMetadata { token_id: "t1".to_string(), metadata: 7 }), Ok("set t1 7".to_string()));
    assert_eq!(run(ExecuteMsg::UpdateMetadata { token_id: "t2".to_string(), metadata: 0 }), Err("empty t2".to_string()));
    let msgs = vec![
        BatchMsg::SetMetadata { token_id: "a".to_string(), metadata: 1 },
        BatchMsg::UpdateMetadata { token_id: "b".to_string(), metadata: 2 },
    ];
    assert_eq!(run(ExecuteMsg::Batch { msgs }), Ok("batch of 2".to_string()));
}

use tbg::error::{push_decimal, TBGError};

#[test]
fn fixed_error_texts() {
    assert_eq!(TBGError::FailSerialize.to_display_string(), "Failure to serialize string.");
    assert_eq!(TBGError::TimeOut.to_display_string(), "No message received before timeout ended.");
    assert_eq!(TBGError::InvalidID.to_display_string(), "No pair found for given ID.");
    assert_eq!(
        TBGError::InvalidName.to_display_string(),
        "Name is already taken or otherwise invalid"
    );
    assert_eq!(TBGError::SendFailure.to_display_string(), "Failed to send message to client.");
    assert_eq!(TBGError::DataStreamEarlyEOF.to_display_string(), "Data stream ended early");
    assert_eq!(TBGError::FailDeserialize.to_display_string(), "Failure to deserialize message.");
    assert_eq!(TBGError::EmptyMessage.to_display_string(), "Message is empty.");
    assert_eq!(
        TBGError::DuplicateEntry.to_display_string(),
        "Name is already taken or otherwise invalid."
    );
}

#[test]
fn error_texts_with_values() {
    assert_eq!(
        TBGError::FailToConnect(String::from("10.0.0.1:8080")).to_display_string(),
        "IP 10.0.0.1:8080 failed to connect to server."
    );
    assert_eq!(
        TBGError::MessageOverflow(4096).to_display_string(),
        "Incoming message size of 4096 bytes too large"
    );
    assert_eq!(
        TBGError::SizeMismatch(10, 12).to_display_string(),
        "Read 10 bytes but expected 12 bytes."
    );
    assert_eq!(
        TBGError::FailToInitializeServer(String::from("address in use")).to_display_string(),
        "Fail to initialize server: address in use"
    );
    assert_eq!(TBGError::Other(String::from("Player kicked")).to_display_string(), "Player kicked");
}

#[test]
fn decimal_rendering() {
    let mut s = String::from("n=");
    push_decimal(&mut s, 0);
    assert_eq!(s, "n=0");
    let mut s = String::new();
    push_decimal(&mut s, 10);
    assert_eq!(s, "10");
    let mut s = String::new();
    push_decimal(&mut s, 907);
    assert_eq!(s, "907");
    let mut s = String::new();
    push_decimal(&mut s, u32::MAX as usize);
    assert_eq!(s, "4294967295");
}

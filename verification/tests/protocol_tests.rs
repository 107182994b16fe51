use motion_desk::position::Height;
use motion_desk::protocol::{
    dpg_read_request, find_characteristic, height_from_notification, is_desk_name,
    locate_characteristics, scan_tries, starts_with_desk, after_attempt, RetryStep, user_id_write, CharacteristicSet,
    MissingCharacteristic, CMD_STOP, CMD_WAKEUP, CTRL_CHAR, DPG_CHAR, DPG_GET_CAPABILITIES,
    DPG_USER_ID, POS_CHAR, REF_CHAR,
};
use motion_desk::position::le_bytes;
use motion_desk::protocol::{first_desk, handshake_steps, is_dpg_reply, HandshakeStep};

#[test]
fn command_bytes() {
    assert_eq!(le_bytes(CMD_WAKEUP), [0xFE, 0x00]);
    assert_eq!(le_bytes(CMD_STOP), [0xFF, 0x00]);
}

#[test]
fn dpg_requests() {
    assert_eq!(dpg_read_request(DPG_GET_CAPABILITIES), [0x7F, 0x80, 0x00]);
    assert_eq!(dpg_read_request(DPG_USER_ID), [0x7F, 0x86, 0x00]);
}

#[test]
fn user_id_is_rewritten_with_first_byte_one() {
    let w = user_id_write(&[0x01, 0x10, 0x05, 0xAA, 0xBB]).unwrap();
    assert_eq!(w, vec![0x7F, 0x86, 0x80, 0x01, 0xAA, 0xBB]);
}

#[test]
fn user_id_single_byte() {
    assert_eq!(user_id_write(&[0x01, 0x00, 0x00]), Some(vec![0x7F, 0x86, 0x80, 0x01]));
}

#[test]
fn user_id_already_registered() {
    assert_eq!(user_id_write(&[0x01, 0x10, 0x01, 0xAA]), None);
}

#[test]
fn user_id_invalid_reply() {
    assert_eq!(user_id_write(&[0x02, 0x10, 0x05]), None);
    assert_eq!(user_id_write(&[0x01, 0x10]), None);
    assert_eq!(user_id_write(&[]), None);
}

#[test]
fn find_first_characteristic() {
    let ids = [CTRL_CHAR, POS_CHAR, POS_CHAR];
    assert_eq!(find_characteristic(&ids, POS_CHAR), Some(1));
    assert_eq!(find_characteristic(&ids, DPG_CHAR), None);
}

#[test]
fn locate_all_characteristics() {
    let ids = [7u128, DPG_CHAR, REF_CHAR, CTRL_CHAR, POS_CHAR];
    assert_eq!(
        locate_characteristics(&ids),
        Ok(CharacteristicSet { pos: 4, ctrl: 3, reference: 2, dpg: 1 })
    );
}

#[test]
fn locate_reports_first_missing() {
    assert_eq!(locate_characteristics(&[]), Err(MissingCharacteristic::Position));
    assert_eq!(locate_characteristics(&[POS_CHAR]), Err(MissingCharacteristic::Control));
    assert_eq!(
        locate_characteristics(&[POS_CHAR, CTRL_CHAR]),
        Err(MissingCharacteristic::ReferenceInput)
    );
    assert_eq!(
        locate_characteristics(&[POS_CHAR, CTRL_CHAR, REF_CHAR]),
        Err(MissingCharacteristic::Dpg)
    );
}

#[test]
fn notifications_of_position_only() {
    assert_eq!(
        height_from_notification(POS_CHAR, &[0xDC, 0x05, 0x00, 0x00]),
        Some(Height { raw: 1500, speed: 0 })
    );
    assert_eq!(height_from_notification(DPG_CHAR, &[0xDC, 0x05, 0x00, 0x00]), None);
    assert_eq!(height_from_notification(POS_CHAR, &[0xDC, 0x05]), None);
}

#[test]
fn desk_names() {
    assert!(is_desk_name("DESK 5790"));
    assert!(is_desk_name("desk 5790"));
    assert!(is_desk_name("Desk"));
    assert!(!is_desk_name("DES"));
    assert!(!is_desk_name("My DESK"));
    assert!(!is_desk_name(""));
}

#[test]
fn desk_name_prefix_after_uppercasing() {
    assert!(starts_with_desk("DESKTOP"));
    assert!(!starts_with_desk("desk"));
}

#[test]
fn scan_tries_per_poll() {
    assert_eq!(scan_tries(30_000), 60);
    assert_eq!(scan_tries(1_000), 2);
    assert_eq!(scan_tries(499), 1);
    assert_eq!(scan_tries(0), 1);
}

#[test]
fn connection_retries() {
    assert_eq!(after_attempt(0, true), RetryStep::Connected);
    assert_eq!(after_attempt(0, false), RetryStep::RetryAfterReset);
    assert_eq!(after_attempt(1, false), RetryStep::RetryAfterReset);
    assert_eq!(after_attempt(2, false), RetryStep::GiveUp);
    assert_eq!(after_attempt(2, true), RetryStep::Connected);
    assert_eq!(after_attempt(7, false), RetryStep::GiveUp);
}

#[test]
fn handshake_order() {
    assert_eq!(
        handshake_steps(),
        [
            HandshakeStep::Subscribe,
            HandshakeStep::Request(DPG_GET_CAPABILITIES),
            HandshakeStep::Request(DPG_USER_ID),
            HandshakeStep::WriteUserId,
            HandshakeStep::Unsubscribe,
        ]
    );
}

#[test]
fn dpg_replies() {
    assert!(is_dpg_reply(DPG_CHAR));
    assert!(!is_dpg_reply(POS_CHAR));
}

#[test]
fn scan_picks_first_desk() {
    let names = vec![None, Some("Phone".to_string()), Some("desk 1".to_string()), Some("DESK 2".to_string())];
    assert_eq!(first_desk(&names), Some(2));
    assert_eq!(first_desk(&vec![None, Some("Mouse".to_string())]), None);
    assert_eq!(first_desk(&Vec::new()), None);
}

//! The LINAK GATT protocol: characteristic identifiers, command framing and
//! the DPG user-id handshake.
use vstd::prelude::*;
use vstd::utf8::encode_utf8;
use crate::position::{Height, parse_height, le_u16, le_i16};

verus! {

/// Reference output: position (`u16` LE, tenths of a millimetre) and speed (`i16` LE).
pub const POS_CHAR: u128 = 0x99fa0021_338a_1024_8a49_009c0215f78a;

/// Control input: wake-up and stop commands (`u16` LE).
pub const CTRL_CHAR: u128 = 0x99fa0002_338a_1024_8a49_009c0215f78a;

/// Reference input: target raw position (`u16` LE).
pub const REF_CHAR: u128 = 0x99fa0031_338a_1024_8a49_009c0215f78a;

/// DPG channel: `[0x7F, cmd, 0x00]` reads, `[0x7F, cmd, 0x80, data..]` writes.
pub const DPG_CHAR: u128 = 0x99fa0011_338a_1024_8a49_009c0215f78a;

/// Wake-up command, written little-endian as `[0xFE, 0x00]`.
pub const CMD_WAKEUP: u16 = 0x00FE;

/// Stop command, written little-endian as `[0xFF, 0x00]`.
pub const CMD_STOP: u16 = 0x00FF;

/// DPG command that reads the controller capabilities.
pub const DPG_GET_CAPABILITIES: u8 = 0x80;

/// DPG command that reads or writes the user id.
pub const DPG_USER_ID: u8 = 0x86;

/// The request that reads DPG register `cmd`.
pub fn dpg_read_request(cmd: u8) -> (b: [u8; 3])
    ensures
        b@ == seq![0x7Fu8, cmd, 0x00u8],
{
    let b = [0x7Fu8, cmd, 0x00u8];
    assert(b@ =~= seq![0x7Fu8, cmd, 0x00u8]);
    b
}

/// One step of the DPG handshake.
#[derive(Debug, Clone, Copy, PartialEq, Eq, Structural)]
pub enum HandshakeStep {
    /// Subscribe to notifications of the DPG characteristic.
    Subscribe,
    /// Write `dpg_read_request` of this register and wait for its notified reply.
    Request(u8),
    /// Write `user_id_write` of the last reply, when it gives a payload.
    WriteUserId,
    /// Unsubscribe from the DPG characteristic.
    Unsubscribe,
}

/// The DPG handshake in order: without it the firmware silently ignores
/// every control write.
pub fn handshake_steps() -> (s: [HandshakeStep; 5])
    ensures
        s@ == seq![
            HandshakeStep::Subscribe,
            HandshakeStep::Request(DPG_GET_CAPABILITIES),
            HandshakeStep::Request(DPG_USER_ID),
            HandshakeStep::WriteUserId,
            HandshakeStep::Unsubscribe,
        ],
{
    let s = [
        HandshakeStep::Subscribe,
        HandshakeStep::Request(DPG_GET_CAPABILITIES),
        HandshakeStep::Request(DPG_USER_ID),
        HandshakeStep::WriteUserId,
        HandshakeStep::Unsubscribe,
    ];
    assert(s@ =~= seq![
        HandshakeStep::Subscribe,
        HandshakeStep::Request(DPG_GET_CAPABILITIES),
        HandshakeStep::Request(DPG_USER_ID),
        HandshakeStep::WriteUserId,
        HandshakeStep::Unsubscribe,
    ]);
    s
}

/// Whether a notification of characteristic `uuid` is a DPG reply.
pub fn is_dpg_reply(uuid: u128) -> (b: bool)
    ensures
        b == (uuid == DPG_CHAR),
{
    uuid == DPG_CHAR
}

/// The user-id write that the handshake owes after reading `resp`: only a
/// valid reply (`resp[0] == 1`, with data from index 2) whose user id does not
/// already start with 1 is answered, by the same id with its first byte set to 1.
pub open spec fn spec_user_id_write(resp: Seq<u8>) -> Option<Seq<u8>> {
    if resp.len() > 2 && resp[0] == 1 && resp[2] != 1 {
        Some(seq![0x7Fu8, DPG_USER_ID, 0x80u8, 1u8] + resp.subrange(3, resp.len() as int))
    } else {
        None
    }
}

/// The DPG payload to write after the user-id read answered `resp`, if any.
pub fn user_id_write(resp: &[u8]) -> (w: Option<Vec<u8>>)
    ensures
        w matches Some(v) ==> spec_user_id_write(resp@) == Some(v@),
        w is None ==> spec_user_id_write(resp@) is None,
{
    if resp.len() > 2 && resp[0] == 1 && resp[2] != 1 {
        let mut payload: Vec<u8> = Vec::new();
        payload.push(0x7F);
        payload.push(DPG_USER_ID);
        payload.push(0x80);
        payload.push(1);
        let mut i: usize = 3;
        while i < resp.len()
            invariant
                3 <= i <= resp@.len(),
                payload@ =~= seq![0x7Fu8, DPG_USER_ID, 0x80u8, 1u8] + resp@.subrange(3, i as int),
            decreases resp@.len() - i,
        {
            payload.push(resp[i]);
            i = i + 1;
        }
        Some(payload)
    } else {
        None
    }
}

/// Index of the first characteristic whose identifier is `want`.
pub fn find_characteristic(uuids: &[u128], want: u128) -> (r: Option<usize>)
    ensures
        r matches Some(i) ==> i < uuids@.len() && uuids@[i as int] == want && forall|j: int|
            0 <= j < i ==> uuids@[j] != want,
        r is None ==> forall|j: int| 0 <= j < uuids@.len() ==> uuids@[j] != want,
{
    let mut i: usize = 0;
    while i < uuids.len()
        invariant
            i <= uuids@.len(),
            forall|j: int| 0 <= j < i ==> uuids@[j] != want,
        decreases uuids@.len() - i,
    {
        if uuids[i] == want {
            return Some(i);
        }
        i = i + 1;
    }
    None
}

/// Positions of the four characteristics the driver needs, in the list the
/// desk advertised.
#[derive(Debug, Clone, Copy, PartialEq, Eq, Structural)]
pub struct CharacteristicSet {
    pub pos: usize,
    pub ctrl: usize,
    pub reference: usize,
    pub dpg: usize,
}

/// The first characteristic, in the order position, control, reference
/// input, DPG, that the desk does not offer.
#[derive(Debug, Clone, Copy, PartialEq, Eq, Structural)]
pub enum MissingCharacteristic {
    Position,
    Control,
    ReferenceInput,
    Dpg,
}

/// Whether `uuids` holds `want`.
pub open spec fn offers(uuids: Seq<u128>, want: u128) -> bool {
    exists|j: int| 0 <= j < uuids.len() && uuids[j] == want
}

/// Whether `i` is the first position of `want` in `uuids`.
pub open spec fn first_at(uuids: Seq<u128>, want: u128, i: int) -> bool {
    0 <= i < uuids.len() && uuids[i] == want && forall|j: int| 0 <= j < i ==> uuids[j] != want
}

/// Locates the characteristics the driver needs among those the desk advertised.
pub fn locate_characteristics(uuids: &[u128]) -> (r: Result<CharacteristicSet, MissingCharacteristic>)
    ensures
        r matches Ok(c) ==> first_at(uuids@, POS_CHAR, c.pos as int) && first_at(
            uuids@,
            CTRL_CHAR,
            c.ctrl as int,
        ) && first_at(uuids@, REF_CHAR, c.reference as int) && first_at(
            uuids@,
            DPG_CHAR,
            c.dpg as int,
        ),
        r == Err::<CharacteristicSet, _>(MissingCharacteristic::Position) <==> !offers(uuids@, POS_CHAR),
        r == Err::<CharacteristicSet, _>(MissingCharacteristic::Control) <==> offers(uuids@, POS_CHAR)
            && !offers(uuids@, CTRL_CHAR),
        r == Err::<CharacteristicSet, _>(MissingCharacteristic::ReferenceInput) <==> offers(
            uuids@,
            POS_CHAR,
        ) && offers(uuids@, CTRL_CHAR) && !offers(uuids@, REF_CHAR),
        r == Err::<CharacteristicSet, _>(MissingCharacteristic::Dpg) <==> offers(uuids@, POS_CHAR)
            && offers(uuids@, CTRL_CHAR) && offers(uuids@, REF_CHAR) && !offers(uuids@, DPG_CHAR),
{
    let pos = match find_characteristic(uuids, POS_CHAR) {
        Some(i) => i,
        None => return Err(MissingCharacteristic::Position),
    };
    let ctrl = match find_characteristic(uuids, CTRL_CHAR) {
        Some(i) => i,
        None => return Err(MissingCharacteristic::Control),
    };
    let reference = match find_characteristic(uuids, REF_CHAR) {
        Some(i) => i,
        None => return Err(MissingCharacteristic::ReferenceInput),
    };
    let dpg = match find_characteristic(uuids, DPG_CHAR) {
        Some(i) => i,
        None => return Err(MissingCharacteristic::Dpg),
    };
    Ok(CharacteristicSet { pos, ctrl, reference, dpg })
}

/// Interval between two looks at the advertisements during a scan: 0.5 s.
pub const SCAN_POLL_MS: u128 = 500;

/// Connection attempts made once a desk is found; waking from standby often
/// drops the first.
pub const CONNECT_ATTEMPTS: u32 = 3;

/// Pause before a connection attempt is retried, after disconnecting, in milliseconds.
pub const RETRY_PAUSE_MS: u64 = 1000;

/// What follows a connection attempt.
#[derive(Debug, Clone, Copy, PartialEq, Eq, Structural)]
pub enum RetryStep {
    /// The attempt succeeded: the desk is ready.
    Connected,
    /// Disconnect, pause `RETRY_PAUSE_MS` and make the next attempt.
    RetryAfterReset,
    /// Give up and report the error of this last attempt.
    GiveUp,
}

/// The step after attempt number `attempt` (counted from 0) succeeded (`ok`) or
/// failed: a failure is retried until `CONNECT_ATTEMPTS` attempts have been made.
pub open spec fn spec_after_attempt(attempt: int, ok: bool) -> RetryStep {
    if ok {
        RetryStep::Connected
    } else if attempt + 1 < CONNECT_ATTEMPTS {
        RetryStep::RetryAfterReset
    } else {
        RetryStep::GiveUp
    }
}

/// Decides what follows connection attempt number `attempt` (counted from 0).
pub fn after_attempt(attempt: u32, ok: bool) -> (r: RetryStep)
    ensures
        r == spec_after_attempt(attempt as int, ok),
{
    if ok {
        RetryStep::Connected
    } else if attempt < CONNECT_ATTEMPTS - 1 {
        RetryStep::RetryAfterReset
    } else {
        RetryStep::GiveUp
    }
}

/// Number of attempts made when every attempt fails from `attempt` on.
pub open spec fn attempts_until_give_up(attempt: nat) -> nat
    decreases CONNECT_ATTEMPTS - attempt,
{
    if spec_after_attempt(attempt as int, false) == RetryStep::GiveUp {
        attempt + 1
    } else {
        attempts_until_give_up(attempt + 1)
    }
}

/// Law: when every attempt fails, exactly `CONNECT_ATTEMPTS` attempts are made,
/// each retry preceded by a reset; a success ends the attempts at once.
pub proof fn law_retries_bounded(attempt: nat)
    requires
        attempt < CONNECT_ATTEMPTS,
    ensures
        attempts_until_give_up(attempt) == CONNECT_ATTEMPTS,
        spec_after_attempt(attempt as int, true) == RetryStep::Connected,
        attempt + 1 < CONNECT_ATTEMPTS ==> spec_after_attempt(attempt as int, false)
            == RetryStep::RetryAfterReset,
    decreases CONNECT_ATTEMPTS - attempt,
{
    if attempt + 1 < CONNECT_ATTEMPTS {
        law_retries_bounded(attempt + 1);
    }
}

/// Number of looks at the advertisements within a scan of `timeout_ms`: one per
/// poll interval, and at least one.
pub fn scan_tries(timeout_ms: u128) -> (n: u128)
    ensures
        n == (if timeout_ms / SCAN_POLL_MS >= 1 { timeout_ms / SCAN_POLL_MS } else { 1 }),
        n >= 1,
{
    let n = timeout_ms / SCAN_POLL_MS;
    if n >= 1 { n } else { 1 }
}

/// A position reading carried by a notification of characteristic `uuid`:
/// only notifications of the position characteristic that decode count.
pub fn height_from_notification(uuid: u128, value: &[u8]) -> (r: Option<Height>)
    ensures
        r is Some <==> (uuid == POS_CHAR && value@.len() >= 4),
        r matches Some(h) ==> h.raw == le_u16(value@[0], value@[1]) && h.speed == le_i16(
            value@[2],
            value@[3],
        ),
{
    if uuid != POS_CHAR {
        return None;
    }
    match parse_height(value) {
        Ok(h) => Some(h),
        Err(_) => None,
    }
}

/// What `str::to_uppercase` returns for a string: the Unicode upper-case mapping.
pub uninterp spec fn uppercase(s: Seq<char>) -> Seq<char>;

/// Calls `str::to_uppercase`; its result is the upper-case mapping of `s`.
#[verifier::external_body]
fn to_uppercase(s: &str) -> (r: String)
    ensures
        r@ == uppercase(s@),
{
    s.to_uppercase()
}

/// Whether a byte string begins with `DESK`.
pub open spec fn has_desk_prefix(bytes: Seq<u8>) -> bool {
    &&& bytes.len() >= 4
    &&& bytes[0] == 0x44u8
    &&& bytes[1] == 0x45u8
    &&& bytes[2] == 0x53u8
    &&& bytes[3] == 0x4Bu8
}

/// Whether an already upper-cased advertised name begins with `DESK`.
pub fn starts_with_desk(upper: &str) -> (b: bool)
    ensures
        b == has_desk_prefix(encode_utf8(upper@)),
{
    let bytes = upper.as_bytes();
    bytes.len() >= 4 && bytes[0] == 0x44u8 && bytes[1] == 0x45u8 && bytes[2] == 0x53u8 && bytes[3]
        == 0x4Bu8
}

/// Whether an advertised local name (if any) is that of a desk.
pub open spec fn spec_is_desk(name: Option<String>) -> bool {
    match name {
        Some(n) => has_desk_prefix(encode_utf8(uppercase(n@))),
        None => false,
    }
}

/// The peripheral a scan picks among those seen, given their advertised
/// names: the first with a desk name.
pub fn first_desk(names: &Vec<Option<String>>) -> (r: Option<usize>)
    ensures
        r matches Some(i) ==> i < names@.len() && spec_is_desk(names@[i as int]) && forall|j: int|
            0 <= j < i ==> !spec_is_desk(#[trigger] names@[j]),
        r is None ==> forall|j: int| 0 <= j < names@.len() ==> !spec_is_desk(#[trigger] names@[j]),
{
    let mut i: usize = 0;
    while i < names.len()
        invariant
            i <= names@.len(),
            forall|j: int| 0 <= j < i ==> !spec_is_desk(#[trigger] names@[j]),
        decreases names@.len() - i,
    {
        let hit = match &names[i] {
            Some(n) => is_desk_name(n.as_str()),
            None => false,
        };
        if hit {
            return Some(i);
        }
        i = i + 1;
    }
    None
}

/// Whether an advertised local name is that of a desk: its upper-case form
/// starts with `DESK`.
pub fn is_desk_name(name: &str) -> (b: bool)
    ensures
        b == has_desk_prefix(encode_utf8(uppercase(name@))),
{
    let upper = to_uppercase(name);
    starts_with_desk(upper.as_str())
}

} // verus!

//! Protocol constants shared by both transports.

use vstd::prelude::*;

verus! {

/// Longest frame body the device accepts, from its firmware's RPC layer.
pub const MAX_FRAME_LENGTH: usize = 1536;

/// Baud rate of the device's serial link.
pub const FLIPPER_BAUD: u32 = 115200;

/// How many bytes of a rolling handshake window are kept when draining the
/// serial stream for a pattern.  Every pattern searched for is far shorter,
/// so an occurrence that straddles two reads still fits in the window.
pub const PATTERN_WINDOW: usize = 32;

/// Flipper Zero BLE serial service UUID.
pub const BLE_SERIALSVC_UUID: u128 = 0x8fe5b3d5_2e7f_4a98_2a48_7acc60fe0000;

/// Flipper Zero read (notify) characteristic UUID.
pub const BLE_RX_CHARACTERISTIC_UUID: u128 = 0x19ed82ae_ed21_4c9d_4145_228e61fe0000;

/// Flipper Zero write characteristic UUID.
pub const BLE_TX_CHARACTERISTIC_UUID: u128 = 0x19ed82ae_ed21_4c9d_4145_228e62fe0000;

/// Flipper Zero overflow (flow control) characteristic UUID.
pub const BLE_OVERFLOW_CHARACTERISTIC_UUID: u128 = 0x19ed82ae_ed21_4c9d_4145_228e63fe0000;

/// The device's shell prompt bytes, human readable as `"\n>: "`.  Seeing
/// them means the interactive shell is ready for a command.
pub open spec fn spec_prompt_pattern() -> Seq<u8> {
    seq![0x0au8, 0x3eu8, 0x3au8, 0x20u8]
}

/// The command that switches the shell into binary frame mode, the ASCII
/// bytes of `"start_rpc_session\r"`.
pub open spec fn spec_session_command() -> Seq<u8> {
    seq![
        0x73u8, 0x74u8, 0x61u8, 0x72u8, 0x74u8, 0x5fu8, 0x72u8, 0x70u8, 0x63u8, 0x5fu8,
        0x73u8, 0x65u8, 0x73u8, 0x73u8, 0x69u8, 0x6fu8, 0x6eu8, 0x0du8,
    ]
}

/// The echo the device sends back once the session command is accepted, the
/// ASCII bytes of `"start_rpc_session\r\n"`.
pub open spec fn spec_session_echo() -> Seq<u8> {
    spec_session_command() + seq![0x0au8]
}

/// Exec copy of [`spec_prompt_pattern`].
pub fn prompt_pattern() -> (r: Vec<u8>)
    ensures
        r@ == spec_prompt_pattern(),
{
    let mut v: Vec<u8> = Vec::new();
    v.push(0x0a);
    v.push(0x3e);
    v.push(0x3a);
    v.push(0x20);
    proof {
        assert(v@ =~= spec_prompt_pattern());
    }
    v
}

/// Exec copy of [`spec_session_command`].
pub fn session_command() -> (r: Vec<u8>)
    ensures
        r@ == spec_session_command(),
{
    let mut v: Vec<u8> = Vec::new();
    v.push(0x73);
    v.push(0x74);
    v.push(0x61);
    v.push(0x72);
    v.push(0x74);
    v.push(0x5f);
    v.push(0x72);
    v.push(0x70);
    v.push(0x63);
    v.push(0x5f);
    v.push(0x73);
    v.push(0x65);
    v.push(0x73);
    v.push(0x73);
    v.push(0x69);
    v.push(0x6f);
    v.push(0x6e);
    v.push(0x0d);
    proof {
        assert(v@ =~= spec_session_command());
    }
    v
}

/// Exec copy of [`spec_session_echo`].
pub fn session_echo() -> (r: Vec<u8>)
    ensures
        r@ == spec_session_echo(),
{
    let mut v = session_command();
    v.push(0x0a);
    proof {
        assert(v@ =~= spec_session_echo());
    }
    v
}

} // verus!

//! Decoder and boundary checks for the IPC message fuzz surface.
//!
//! Input layout: `[msg_type: u32 LE][payload_len: u32 LE][payload bytes]`.
//! The length field is never trusted: it must not run past the buffer nor
//! exceed an absolute cap. Each message type then applies its own shape
//! check before the payload is handed on.

use vstd::prelude::*;

use crate::bytes::le32_at;
use crate::bytes::read_le32;
use vstd::slice::slice_subrange;
use vstd::slice::slice_to_vec;

verus! {

/// Largest payload length the decoder accepts.
pub const MAX_PAYLOAD_LEN: usize = 0x10_0000;

/// Largest argument count an RPC call may claim.
pub const MAX_RPC_ARGS: u32 = 16;

/// An IPC message decoded from one fuzz input buffer.
#[derive(Debug, PartialEq, Eq)]
pub enum IpcMessage {
    /// Type 0: a bare notification; valid only with an empty payload.
    Notification,
    /// Type 1: a data identifier followed by an opaque body.
    DataTransfer { data_id: u32, body: Vec<u8> },
    /// Type 2: a method identifier and an argument count of at most
    /// [`MAX_RPC_ARGS`].
    RpcCall { method_id: u32, num_args: u32 },
    /// Any other type is accepted as an opaque pass-through.
    PassThrough { msg_type: u32, payload: Vec<u8> },
}

/// The message type field of the buffer.
pub open spec fn ipc_msg_type(data: Seq<u8>) -> int {
    le32_at(data, 0)
}

/// The payload length field of the buffer.
pub open spec fn ipc_payload_len(data: Seq<u8>) -> int {
    le32_at(data, 4)
}

/// The header is present and its length field is honest: it does not run
/// past the buffer and does not exceed the cap.
pub open spec fn ipc_header_ok(data: Seq<u8>) -> bool {
    &&& data.len() >= 8
    &&& ipc_payload_len(data) <= data.len() - 8
    &&& ipc_payload_len(data) <= MAX_PAYLOAD_LEN
}

/// The payload bytes announced by the header.
pub open spec fn ipc_payload(data: Seq<u8>) -> Seq<u8>
    recommends
        ipc_header_ok(data),
{
    data.subrange(8, 8 + ipc_payload_len(data))
}

/// What a decoded message must be for the buffer: the per-type shape
/// checks, and the exact field values each variant carries.
pub open spec fn ipc_msg_matches(data: Seq<u8>, msg: IpcMessage) -> bool {
    let t = ipc_msg_type(data);
    let p = ipc_payload(data);
    match msg {
        IpcMessage::Notification => t == 0 && p.len() == 0,
        IpcMessage::DataTransfer { data_id, body } => {
            &&& t == 1
            &&& p.len() >= 4
            &&& data_id == le32_at(p, 0)
            &&& body@ == p.skip(4)
        },
        IpcMessage::RpcCall { method_id, num_args } => {
            &&& t == 2
            &&& p.len() >= 8
            &&& method_id == le32_at(p, 0)
            &&& num_args == le32_at(p, 4)
            &&& num_args <= MAX_RPC_ARGS
        },
        IpcMessage::PassThrough { msg_type, payload } => {
            &&& t != 0 && t != 1 && t != 2
            &&& msg_type == t
            &&& payload@ == p
        },
    }
}

/// When the decoder declines a buffer whose header is honest: a
/// notification with a non-empty payload, a data transfer or RPC call
/// with too short a payload, or an RPC call claiming too many arguments.
pub open spec fn ipc_declines(data: Seq<u8>) -> bool
    recommends
        ipc_header_ok(data),
{
    let t = ipc_msg_type(data);
    let p = ipc_payload(data);
    ||| t == 0 && p.len() != 0
    ||| t == 1 && p.len() < 4
    ||| t == 2 && p.len() < 8
    ||| t == 2 && p.len() >= 8 && le32_at(p, 4) > MAX_RPC_ARGS
}

/// Fuzz entry for the IPC surface: decodes the header, checks the length
/// field against the remaining buffer and the cap, and dispatches on the
/// message type. Declines malformed input with no other effect; total on
/// all inputs.
pub fn fuzz_ipc_message(data: &[u8]) -> (r: Option<IpcMessage>)
    ensures
        match r {
            Some(msg) => ipc_header_ok(data@) && ipc_msg_matches(data@, msg),
            None => !ipc_header_ok(data@) || ipc_declines(data@),
        },
{
    if data.len() < 8 {
        return None;
    }
    let msg_type = read_le32(data, 0);
    let payload_len = read_le32(data, 4) as usize;
    if payload_len > data.len() - 8 {
        return None;
    }
    if payload_len > MAX_PAYLOAD_LEN {
        return None;
    }
    let payload = slice_subrange(data, 8, 8 + payload_len);

    if msg_type == 0 {
        if payload.len() == 0 {
            Some(IpcMessage::Notification)
        } else {
            None
        }
    } else if msg_type == 1 {
        if payload.len() >= 4 {
            let data_id = read_le32(payload, 0);
            let body = slice_to_vec(slice_subrange(payload, 4, payload.len()));
            proof {
                assert(body@ =~= ipc_payload(data@).skip(4));
            }
            Some(IpcMessage::DataTransfer { data_id, body })
        } else {
            None
        }
    } else if msg_type == 2 {
        if payload.len() >= 8 {
            let method_id = read_le32(payload, 0);
            let num_args = read_le32(payload, 4);
            if num_args > MAX_RPC_ARGS {
                None
            } else {
                Some(IpcMessage::RpcCall { method_id, num_args })
            }
        } else {
            None
        }
    } else {
        Some(IpcMessage::PassThrough { msg_type, payload: slice_to_vec(payload) })
    }
}

} // verus!

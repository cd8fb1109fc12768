//! Scenario tests for the four fuzz decoders: exact buffers in, exact
//! decisions out.

use kernel_harness::allocator::{fuzz_allocator, AllocationRecord};
use kernel_harness::ipc::{fuzz_ipc_message, IpcMessage};
use kernel_harness::path::fuzz_path_parser;
use kernel_harness::syscall::{decode_syscall, fuzz_syscall, fuzz_syscall_dispatcher};

fn syscall_buffer(number: u64, args: &[u64]) -> Vec<u8> {
    let mut buf = Vec::new();
    buf.extend_from_slice(&number.to_le_bytes());
    for a in args {
        buf.extend_from_slice(&a.to_le_bytes());
    }
    buf
}

#[test]
fn read_with_negative_fd_is_rejected() {
    // read (0) with fd = -1: the whole request is dropped.
    let mut buf = syscall_buffer(0, &[(-1i64) as u64]);
    buf.extend_from_slice(&[0u8; 40]);
    assert_eq!(buf.len(), 56);
    assert_eq!(fuzz_syscall(&buf), Some(false));
}

#[test]
fn mmap_with_misaligned_address_is_rejected() {
    // mmap (9) with addr = 0x1001 (non-zero, not page-aligned).
    let mut buf = syscall_buffer(9, &[0x1001, 0x1000]);
    buf.extend_from_slice(&[0u8; 32]);
    assert_eq!(buf.len(), 56);
    assert_eq!(fuzz_syscall(&buf), Some(false));
}

#[test]
fn valid_read_is_accepted() {
    let buf = syscall_buffer(0, &[3, 0x1000, 128, 0, 0, 0]);
    assert_eq!(fuzz_syscall(&buf), Some(true));
}

#[test]
fn read_rejections_cover_each_bound() {
    // user-space boundary on the buffer address
    let high = syscall_buffer(1, &[3, 0x0000_8000_0000_0000, 8, 0, 0, 0]);
    assert_eq!(fuzz_syscall(&high), Some(false));
    // count cap
    let big = syscall_buffer(0, &[3, 0x1000, 0x7FFF_F001, 0, 0, 0]);
    assert_eq!(fuzz_syscall(&big), Some(false));
    // just under the cap passes
    let ok = syscall_buffer(0, &[3, 0x1000, 0x7FFF_F000, 0, 0, 0]);
    assert_eq!(fuzz_syscall(&ok), Some(true));
}

#[test]
fn open_requires_nonnull_user_path() {
    let null_path = syscall_buffer(2, &[0, 0, 0, 0, 0, 0]);
    assert_eq!(fuzz_syscall(&null_path), Some(false));
    let kernel_path = syscall_buffer(2, &[0xFFFF_8000_0000_0000, 0, 0]);
    assert_eq!(fuzz_syscall(&kernel_path), Some(false));
    let fine = syscall_buffer(2, &[0x4000, 0, 0]);
    assert_eq!(fuzz_syscall(&fine), Some(true));
}

#[test]
fn unknown_syscall_passes_through() {
    let buf = syscall_buffer(1234, &[]);
    assert_eq!(fuzz_syscall(&buf), Some(true));
}

#[test]
fn short_syscall_buffer_decodes_to_nothing() {
    assert_eq!(fuzz_syscall(&[0u8; 7]), None);
    assert_eq!(fuzz_syscall(&[]), None);
}

#[test]
fn missing_syscall_arguments_read_as_zero() {
    // open (2) with no argument bytes at all: path address 0, rejected.
    let buf = syscall_buffer(2, &[]);
    let req = decode_syscall(&buf).unwrap();
    assert_eq!(req.number, 2);
    assert_eq!(req.args, [0u64; 6]);
    assert!(!fuzz_syscall_dispatcher(req.number, &req.args));

    // a partial argument (fewer than 8 bytes) also reads as zero
    let mut partial = syscall_buffer(7, &[11, 22]);
    partial.extend_from_slice(&[0xFF, 0xFF, 0xFF]);
    let req = decode_syscall(&partial).unwrap();
    assert_eq!(req.args, [11, 22, 0, 0, 0, 0]);
}

fn alloc_record(op: u8, size: u32, align: u32) -> Vec<u8> {
    let mut buf = vec![op];
    buf.extend_from_slice(&size.to_le_bytes());
    buf.extend_from_slice(&align.to_le_bytes());
    buf
}

#[test]
fn allocate_then_deallocate_leaves_no_live_records() {
    // Allocate(size = 64, align = 8), then Deallocate(index 0).
    let mut buf = alloc_record(0, 64, 8);
    buf.extend_from_slice(&alloc_record(1, 0, 0));
    let live = fuzz_allocator(&buf);
    assert!(live.is_empty());
}

#[test]
fn allocate_records_handle_and_size() {
    let live = fuzz_allocator(&alloc_record(0, 64, 8));
    assert_eq!(live, vec![AllocationRecord { handle: 64 | 8, size: 64 }]);
}

#[test]
fn allocator_clamps_size_and_alignment() {
    // A size that is 0 after clamping is a no-op.
    let live = fuzz_allocator(&alloc_record(0, 0x100000, 8));
    assert!(live.is_empty());
    // A non-power-of-two alignment falls back to 8.
    let live = fuzz_allocator(&alloc_record(0, 32, 12));
    assert_eq!(live, vec![AllocationRecord { handle: 32 | 8, size: 32 }]);
    // A power-of-two alignment is capped at 4096.
    let live = fuzz_allocator(&alloc_record(0, 32, 8192));
    assert_eq!(live, vec![AllocationRecord { handle: 32 | 4096, size: 32 }]);
}

#[test]
fn reallocate_replaces_size_in_place() {
    // Allocate(64, 8), then Reallocate picking index 0 with new size 96.
    let mut buf = alloc_record(0, 64, 8);
    buf.extend_from_slice(&alloc_record(2, 0, 96));
    let live = fuzz_allocator(&buf);
    assert_eq!(live, vec![AllocationRecord { handle: 96 | 64, size: 96 }]);
}

#[test]
fn deallocate_on_empty_set_is_a_no_op() {
    let live = fuzz_allocator(&alloc_record(1, 5, 5));
    assert!(live.is_empty());
    let live = fuzz_allocator(&alloc_record(2, 5, 5));
    assert!(live.is_empty());
}

#[test]
fn trailing_partial_allocator_record_is_discarded() {
    let mut buf = alloc_record(0, 64, 8);
    buf.extend_from_slice(&[0, 1, 2]);
    let live = fuzz_allocator(&buf);
    assert_eq!(live.len(), 1);
}

fn ipc_buffer(msg_type: u32, payload: &[u8]) -> Vec<u8> {
    let mut buf = Vec::new();
    buf.extend_from_slice(&msg_type.to_le_bytes());
    buf.extend_from_slice(&(payload.len() as u32).to_le_bytes());
    buf.extend_from_slice(payload);
    buf
}

#[test]
fn ipc_notification_requires_empty_payload() {
    assert_eq!(fuzz_ipc_message(&ipc_buffer(0, &[])), Some(IpcMessage::Notification));
    assert_eq!(fuzz_ipc_message(&ipc_buffer(0, &[1])), None);
}

#[test]
fn ipc_length_field_is_not_trusted() {
    // The length field claims more bytes than the buffer holds.
    let mut buf = Vec::new();
    buf.extend_from_slice(&1u32.to_le_bytes());
    buf.extend_from_slice(&5u32.to_le_bytes());
    buf.extend_from_slice(&[0xAB; 4]);
    assert_eq!(fuzz_ipc_message(&buf), None);
    // A buffer shorter than the header decodes to nothing.
    assert_eq!(fuzz_ipc_message(&[0u8; 7]), None);
}

#[test]
fn ipc_payload_cap_is_enforced() {
    let payload = vec![0u8; 0x100001];
    let buf = ipc_buffer(3, &payload);
    assert_eq!(fuzz_ipc_message(&buf), None);
}

#[test]
fn ipc_data_transfer_splits_id_and_body() {
    let buf = ipc_buffer(1, &[0x78, 0x56, 0x34, 0x12, 0xAA, 0xBB]);
    assert_eq!(
        fuzz_ipc_message(&buf),
        Some(IpcMessage::DataTransfer { data_id: 0x12345678, body: vec![0xAA, 0xBB] })
    );
    // fewer than four payload bytes: declined
    assert_eq!(fuzz_ipc_message(&ipc_buffer(1, &[1, 2, 3])), None);
}

#[test]
fn ipc_rpc_call_caps_argument_count() {
    let mut payload = Vec::new();
    payload.extend_from_slice(&7u32.to_le_bytes());
    payload.extend_from_slice(&16u32.to_le_bytes());
    assert_eq!(
        fuzz_ipc_message(&ipc_buffer(2, &payload)),
        Some(IpcMessage::RpcCall { method_id: 7, num_args: 16 })
    );
    let mut over = Vec::new();
    over.extend_from_slice(&7u32.to_le_bytes());
    over.extend_from_slice(&17u32.to_le_bytes());
    assert_eq!(fuzz_ipc_message(&ipc_buffer(2, &over)), None);
    assert_eq!(fuzz_ipc_message(&ipc_buffer(2, &[1, 2, 3, 4])), None);
}

#[test]
fn ipc_unknown_type_passes_through() {
    let buf = ipc_buffer(9, &[1, 2, 3]);
    assert_eq!(
        fuzz_ipc_message(&buf),
        Some(IpcMessage::PassThrough { msg_type: 9, payload: vec![1, 2, 3] })
    );
}

#[test]
fn path_normalization_drops_dots_and_pops_parents() {
    // "/a/../b/./c" normalizes to ["b", "c"].
    let analysis = fuzz_path_parser(b"/a/../b/./c").unwrap();
    assert_eq!(analysis.components, vec!["b".to_string(), "c".to_string()]);
    assert!(analysis.has_dot_dot);
    assert!(analysis.has_absolute);
    assert!(!analysis.has_null_byte);
}

#[test]
fn path_parent_pop_on_empty_stack_is_a_no_op() {
    let analysis = fuzz_path_parser(b"/../a").unwrap();
    assert_eq!(analysis.components, vec!["a".to_string()]);
}

#[test]
fn path_segments_with_null_characters_are_dropped() {
    let analysis = fuzz_path_parser(b"a\0b/c").unwrap();
    assert_eq!(analysis.components, vec!["c".to_string()]);
    assert!(analysis.has_null_byte);
    assert!(!analysis.has_absolute);
}

#[test]
fn path_that_is_not_text_decodes_to_nothing() {
    assert!(fuzz_path_parser(&[0xFF, 0xFE, b'/']).is_none());
}

#[test]
fn path_with_multibyte_text_keeps_its_characters() {
    let analysis = fuzz_path_parser("α/β".as_bytes()).unwrap();
    assert_eq!(analysis.components, vec!["α".to_string(), "β".to_string()]);
}

#[test]
fn every_decoder_survives_arbitrary_buffers() {
    // the universal fuzz safety check: whatever the bytes, every
    // decoder returns a decision and nothing else happens
    let mut state: u64 = 0x1234_5678_9ABC_DEF0;
    let mut next = || {
        state = state.wrapping_mul(6364136223846793005).wrapping_add(1442695040888963407);
        state >> 24
    };
    for len in 0..256 {
        let buf: Vec<u8> = (0..len).map(|_| next() as u8).collect();
        let _ = fuzz_syscall(&buf);
        let _ = fuzz_allocator(&buf);
        let _ = fuzz_ipc_message(&buf);
        let _ = fuzz_path_parser(&buf);
    }
}

#[test]
fn empty_path_has_no_components() {
    let analysis = fuzz_path_parser(b"").unwrap();
    assert!(analysis.components.is_empty());
    assert!(!analysis.has_dot_dot);
    assert!(!analysis.has_absolute);
}

use vi5_render::capture::{align_to, copy_rows, pack_rows};
use vi5_render::codec::{has_frame_marker, packed_offset, read_frame_nonce, read_message_from_image};
use vi5_render::dispatch::{
    crop_region, BatchReply, Delivery, HandlerKind, PageReply, PaintDispatchTable, PaintRoute,
    RegionOutcome, SingleRenderReply, CONTROL_NONCE, RESERVED_NONCE_MAX,
};
use vi5_render::types::{InitializeResponse, RenderResponseData};

/// Packs a message the way the page does: marker, nonce, length, message,
/// three bytes per pixel with an opaque alpha, zero padding at the end.
fn encode_frame(nonce: u32, message: &[u8]) -> Vec<u8> {
    let mut logical = vec![255u8, 192, 128];
    logical.extend_from_slice(&nonce.to_le_bytes());
    logical.extend_from_slice(&(message.len() as u32).to_le_bytes());
    logical.extend_from_slice(message);
    let pixels = (logical.len() + 2) / 3;
    let mut raw = vec![0u8; pixels * 4];
    for p in 0..pixels {
        for c in 0..3 {
            let l = p * 3 + c;
            if l < logical.len() {
                raw[p * 4 + c] = logical[l];
            }
        }
        raw[p * 4 + 3] = 255;
    }
    raw
}

fn message_of_len(len: usize) -> Vec<u8> {
    (0..len).map(|i| (i * 7 + 3) as u8).collect()
}

fn round_trip(len: usize) {
    let message = message_of_len(len);
    let frame = encode_frame(0xDEAD_BEEF, &message);
    assert!(has_frame_marker(&frame));
    assert_eq!(read_frame_nonce(&frame), Some(0xDEAD_BEEF));
    assert_eq!(read_message_from_image(&frame), Some(message));
}

#[test]
fn frame_round_trip_empty() {
    round_trip(0);
}

#[test]
fn frame_round_trip_one_byte() {
    round_trip(1);
}

#[test]
fn frame_round_trip_three_bytes() {
    round_trip(3);
}

#[test]
fn frame_round_trip_four_bytes() {
    round_trip(4);
}

#[test]
fn frame_round_trip_thousand_bytes() {
    round_trip(1000);
}

#[test]
fn packed_offsets_skip_alpha() {
    let offsets: Vec<u64> = (0..8).map(packed_offset).collect();
    assert_eq!(offsets, vec![0, 1, 2, 4, 5, 6, 8, 9]);
}

#[test]
fn truncated_frame_is_not_decoded() {
    let frame = encode_frame(5000, &message_of_len(10));
    let short = &frame[..frame.len() - 8];
    assert_eq!(read_message_from_image(short), None);
    assert_eq!(read_message_from_image(&frame[..12]), None);
    assert_eq!(read_frame_nonce(&frame[..8]), None);
}

#[test]
fn marker_needs_opaque_alpha() {
    let mut frame = encode_frame(7, b"x");
    frame[3] = 128;
    assert!(!has_frame_marker(&frame));
    assert!(!has_frame_marker(&[255, 192, 128]));
}

#[test]
fn align_to_rounds_up() {
    assert_eq!(align_to(0, 256), 0);
    assert_eq!(align_to(1, 256), 256);
    assert_eq!(align_to(256, 256), 256);
    assert_eq!(align_to(257, 256), 512);
    assert_eq!(align_to(64 * 4, 256), 256);
}

#[test]
fn pack_rows_drops_row_padding() {
    // two rows of one pixel, rows eight bytes apart
    let buffer = vec![1u8, 2, 3, 4, 0, 0, 0, 0, 5, 6, 7, 8, 0, 0, 0, 0];
    assert_eq!(pack_rows(&buffer, 1, 2, 8), Some(vec![1, 2, 3, 4, 5, 6, 7, 8]));
    assert_eq!(pack_rows(&buffer, 1, 3, 8), None);
    assert_eq!(pack_rows(&buffer, 2, 2, 8), Some(buffer.clone()));
}

#[test]
fn copy_rows_of_nothing_is_empty() {
    assert_eq!(copy_rows(&[], 10, 4, 4, 0), Some(vec![]));
    assert_eq!(copy_rows(&[1, 2], 0, 4, 4, 1), None);
}

#[test]
fn crop_region_cuts_rows() {
    // a 3x2 frame whose bytes count up
    let frame: Vec<u8> = (0..24).collect();
    assert_eq!(crop_region(&frame, 3, 1, 0, 2, 2), Some(vec![4, 5, 6, 7, 8, 9, 10, 11, 16, 17, 18, 19, 20, 21, 22, 23]));
    assert_eq!(crop_region(&frame, 3, 2, 1, 2, 1), None);
    assert_eq!(crop_region(&frame, 3, 0, 1, 1, 2), None);
    assert_eq!(crop_region(&frame, 3, -1, 0, 1, 1), None);
}

#[test]
fn registering_a_registered_nonce_is_refused() {
    let mut table = PaintDispatchTable::new();
    assert_eq!(table.register(5000, HandlerKind::Batch), Ok(()));
    assert_eq!(table.register(5000, HandlerKind::Control), Err(HandlerKind::Batch));
    assert_eq!(table.lookup(5000), Some(HandlerKind::Batch));
}

#[test]
fn reserved_nonces_are_not_handed_to_batches() {
    let mut table = PaintDispatchTable::new();
    assert!(!table.try_reserve(RESERVED_NONCE_MAX));
    assert!(!table.try_reserve(0));
    assert!(table.try_reserve(RESERVED_NONCE_MAX + 1));
    assert!(!table.try_reserve(RESERVED_NONCE_MAX + 1));
    let n = table.reserve_nonce().expect("a free nonce");
    assert!(n > RESERVED_NONCE_MAX);
    assert_eq!(table.lookup(n), Some(HandlerKind::Batch));
}

#[test]
fn expired_nonce_is_dropped_as_unmatched() {
    let mut table = PaintDispatchTable::new();
    assert!(table.try_reserve(4242));
    assert!(table.unregister(4242));
    assert_eq!(table.lookup(4242), None);
    let frame = encode_frame(4242, b"late");
    assert!(matches!(table.on_software_paint(&frame, frame.len() / 4, 1), PaintRoute::Unmatched(4242)));
    let reply = PageReply::Rendered(BatchReply { items: vec![], is_incomplete: false });
    assert!(matches!(table.deliver(4242, &frame, frame.len() / 4, reply), Delivery::Unmatched));
    assert!(!table.unregister(4242));
}

#[test]
fn stray_paint_is_ignored() {
    let table = PaintDispatchTable::new();
    let frame = vec![10u8; 64];
    assert!(matches!(table.on_software_paint(&frame, 16, 1), PaintRoute::NotAFrame));
}

#[test]
fn paint_for_registered_nonce_carries_its_message() {
    let mut table = PaintDispatchTable::new();
    table.reset_for_load();
    let frame = encode_frame(CONTROL_NONCE, b"hello");
    match table.on_software_paint(&frame, frame.len() / 4, 1) {
        PaintRoute::Matched { nonce, kind, frame: packed, message } => {
            assert_eq!(nonce, CONTROL_NONCE);
            assert_eq!(kind, HandlerKind::Control);
            assert_eq!(packed, frame);
            assert_eq!(message, Some(b"hello".to_vec()));
        }
        other => panic!("unexpected route {:?}", other),
    }
}

#[test]
fn control_nonce_completes_once() {
    let mut table = PaintDispatchTable::new();
    table.reset_for_load();
    let info = InitializeResponse { project_name: "proj".to_string(), renderer_version: "1.0".to_string() };
    match table.deliver(CONTROL_NONCE, &[], 0, PageReply::Initialized(info)) {
        Delivery::Initialized(Ok(i)) => assert_eq!(i.project_name, "proj"),
        other => panic!("unexpected delivery {:?}", other),
    }
    assert_eq!(table.lookup(CONTROL_NONCE), None);
}

#[test]
fn batch_stream_continues_until_complete() {
    let mut table = PaintDispatchTable::new();
    assert!(table.try_reserve(9000));
    // a 2x1 frame
    let frame = vec![1u8, 2, 3, 4, 5, 6, 7, 8];
    let first = PageReply::Rendered(BatchReply {
        items: vec![SingleRenderReply { nonce: 1, outcome: RegionOutcome::Rendered { x: 1, y: 0, width: 1, height: 1 } }],
        is_incomplete: true,
    });
    match table.deliver(9000, &frame, 2, first) {
        Delivery::Batch { responses, complete } => {
            assert!(!complete);
            assert_eq!(responses.len(), 1);
            assert_eq!(responses[0].render_nonce, 1);
            match &responses[0].response {
                RenderResponseData::Success { width, height, image_data } => {
                    assert_eq!((*width, *height), (1, 1));
                    assert_eq!(image_data, &vec![5, 6, 7, 8]);
                }
                other => panic!("unexpected response {:?}", other),
            }
        }
        other => panic!("unexpected delivery {:?}", other),
    }
    assert_eq!(table.lookup(9000), Some(HandlerKind::Batch));
    let last = PageReply::Rendered(BatchReply {
        items: vec![
            SingleRenderReply { nonce: 2, outcome: RegionOutcome::Failed("boom".to_string()) },
            SingleRenderReply { nonce: 3, outcome: RegionOutcome::Rendered { x: 0, y: 0, width: 3, height: 1 } },
        ],
        is_incomplete: false,
    });
    match table.deliver(9000, &frame, 2, last) {
        Delivery::Batch { responses, complete } => {
            assert!(complete);
            assert_eq!(responses.len(), 2);
            assert!(matches!(&responses[0].response, RenderResponseData::Error(m) if m == "boom"));
            assert!(matches!(&responses[1].response, RenderResponseData::Error(_)));
        }
        other => panic!("unexpected delivery {:?}", other),
    }
    assert_eq!(table.lookup(9000), None);
}

#[test]
fn reported_batch_failure_ends_the_batch() {
    let mut table = PaintDispatchTable::new();
    assert!(table.try_reserve(9001));
    match table.deliver(9001, &[], 0, PageReply::Failed("bad".to_string())) {
        Delivery::Batch { responses, complete } => {
            assert!(complete);
            assert!(responses.is_empty());
        }
        other => panic!("unexpected delivery {:?}", other),
    }
    assert_eq!(table.lookup(9001), None);
}

use makerpnp::camera::{
    chunk_send_step, ChunkSendOutcome, ChunkStep,
    frame_counts, frame_length_from_prefix, frame_length_prefix, retry_backoff_us, split_frame,
    CameraCommandError, CameraCommandErrorCode, CameraIdentifier, CommandArg, OperatorCommandResponse,
    CameraStreamerCommandResult, Command, CHUNK_SIZE,
};
use makerpnp::frame_assembly::{pace_frame, repaint_delay_us, FrameAssembler, FramePacing};

#[test]
fn camera_identifier_label_and_value() {
    let id = CameraIdentifier::new(7);
    assert_eq!(id.label(), "C007");
    assert_eq!(CameraIdentifier::new(255).label(), "C255");
    assert_eq!(u8::from(id), 7);
    assert_eq!(id.id(), 7);
    assert!(CameraIdentifier::new(1) < CameraIdentifier::new(2));
}

#[test]
fn command_errors() {
    let e = CameraCommandError::new(CameraCommandErrorCode::Busy);
    assert!(e.args.is_empty());
    let e = e.with_args(vec![CommandArg::U32(3), CommandArg::String("x".to_string())]);
    assert_eq!(e.code, CameraCommandErrorCode::Busy);
    assert_eq!(e.args.len(), 2);
    assert_eq!(CameraCommandErrorCode::NotStreaming.value(), 2);
    assert_eq!(CameraCommandErrorCode::from_value(0), Some(CameraCommandErrorCode::InvalidIdentifier));
    assert_eq!(CameraCommandErrorCode::from_value(3), None);
    let r = OperatorCommandResponse::CameraCommandResult(Ok(CameraStreamerCommandResult::Acknowledged));
    assert!(matches!(r.clone(), OperatorCommandResponse::CameraCommandResult(Ok(_))));
}

#[test]
fn split_into_chunks() {
    let data: Vec<u8> = (0..2500u32).map(|i| (i % 251) as u8).collect();
    let chunks = split_frame(&data);
    assert_eq!(chunks.len(), 3);
    assert_eq!(chunks[0].bytes.len(), CHUNK_SIZE);
    assert_eq!(chunks[2].bytes.len(), 2500 - 2 * CHUNK_SIZE);
    assert_eq!(chunks[2].chunk_index, 2);
    let joined: Vec<u8> = chunks.iter().flat_map(|c| c.bytes.clone()).collect();
    assert_eq!(joined, data);
    assert_eq!(frame_counts(2500), (2500, 3));
    assert_eq!(frame_counts(2048), (2048, 2));
    assert_eq!(frame_counts(0), (0, 0));
    assert!(split_frame(&[]).is_empty());
}

#[test]
fn reassemble_out_of_order_with_duplicates() {
    let data: Vec<u8> = (0..3000u32).map(|i| (i * 7 % 256) as u8).collect();
    let chunks = split_frame(&data);
    let mut assembler: FrameAssembler<&str> = FrameAssembler::new();
    assembler.begin_frame(42, chunks.len() as u32, 1_000, "meta");
    assert!(assembler.accept_chunk(42, 2, &chunks[2].bytes).is_none());
    // a second copy of a chunk is ignored
    assert!(assembler.accept_chunk(42, 2, &[9, 9, 9]).is_none());
    // chunks of unknown frames and out-of-range indices are ignored
    assert!(assembler.accept_chunk(41, 0, &chunks[0].bytes).is_none());
    assert!(assembler.accept_chunk(42, 7, &chunks[0].bytes).is_none());
    assert!(assembler.accept_chunk(42, 0, &chunks[0].bytes).is_none());
    let done = assembler.accept_chunk(42, 1, &chunks[1].bytes).expect("complete");
    assert_eq!(done.frame_number, 42);
    assert_eq!(done.meta, "meta");
    assert_eq!(done.data, data);
    // the frame has left the assembler
    assert!(assembler.accept_chunk(42, 1, &chunks[1].bytes).is_none());
}

#[test]
fn reannouncing_a_frame_restarts_it() {
    let mut assembler: FrameAssembler<u32> = FrameAssembler::new();
    assembler.begin_frame(1, 2, 0, 10);
    assert!(assembler.accept_chunk(1, 0, &[1]).is_none());
    assembler.begin_frame(1, 1, 5, 11);
    let done = assembler.accept_chunk(1, 0, &[2, 3]).expect("complete");
    assert_eq!(done.meta, 11);
    assert_eq!(done.data, vec![2, 3]);
}

#[test]
fn stale_frames_are_dropped() {
    let mut assembler: FrameAssembler<()> = FrameAssembler::new();
    assembler.begin_frame(1, 2, 0, ());
    assembler.begin_frame(2, 2, 900_000, ());
    assembler.begin_frame(3, 2, 2_000_000, ());
    let dropped = assembler.discard_stale(1_500_000, 1_000_000);
    assert_eq!(dropped, vec![1]);
    assert!(assembler.accept_chunk(1, 0, &[1]).is_none());
    assert!(assembler.accept_chunk(2, 0, &[1]).is_none());
    assert!(assembler.accept_chunk(2, 1, &[2]).is_some());
    // a start time in the future counts as no time elapsed
    assert!(assembler.discard_stale(1_500_000, 0).is_empty());
}

#[test]
fn length_prefix() {
    assert_eq!(frame_length_prefix(0x0001_0203), [0, 1, 2, 3]);
    assert_eq!(frame_length_from_prefix([0, 1, 2, 3]), 0x0001_0203);
    assert_eq!(frame_length_from_prefix(frame_length_prefix(123_456)), 123_456);
}

#[test]
fn retry_backoff() {
    assert_eq!(retry_backoff_us(0), 100);
    assert_eq!(retry_backoff_us(1), 200);
    assert_eq!(retry_backoff_us(3), 800);
    assert_eq!(retry_backoff_us(4), 1600);
    assert_eq!(retry_backoff_us(100), 1600);
}

#[test]
fn frames_are_paced() {
    assert_eq!(pace_frame(1_000, 1_000, 33_333), FramePacing::Wait);
    assert_eq!(pace_frame(999, 1_000, 33_333), FramePacing::Wait);
    assert_eq!(
        pace_frame(1_001, 1_000, 33_333),
        FramePacing::Render { next_render_after_us: 34_333, lagged: false }
    );
    assert_eq!(
        pace_frame(34_333, 1_000, 33_333),
        FramePacing::Render { next_render_after_us: 34_333, lagged: false }
    );
    assert_eq!(
        pace_frame(50_000, 1_000, 33_333),
        FramePacing::Render { next_render_after_us: 83_333, lagged: true }
    );
}

#[test]
fn repaint_waits_until_the_next_frame_is_due() {
    assert_eq!(repaint_delay_us(5_000, 2_000), 3_000);
    assert_eq!(repaint_delay_us(5_000, 5_000), 0);
    assert_eq!(repaint_delay_us(5_000, 9_000), 0);
}

#[test]
fn io_board_commands_compare_by_value() {
    assert_eq!(Command::Test(7), Command::Test(7));
    assert_ne!(Command::Test(7), Command::Test(8));
    assert_ne!(Command::BeginYeetTest, Command::EndYeetTest);
    let copy = Command::Test(3);
    assert_eq!(copy.clone(), Command::Test(3));
}

#[test]
fn chunk_retries_back_off_then_give_up() {
    assert_eq!(chunk_send_step(ChunkSendOutcome::Sent, 0, 0), ChunkStep::Next);
    assert_eq!(chunk_send_step(ChunkSendOutcome::Failed, 0, 0), ChunkStep::Abort);
    assert_eq!(
        chunk_send_step(ChunkSendOutcome::QueueFull, 50, 0),
        ChunkStep::RetryAt { since_first_attempt_us: 100 }
    );
    assert_eq!(
        chunk_send_step(ChunkSendOutcome::QueueFull, 5_000, 3),
        ChunkStep::RetryAt { since_first_attempt_us: 800 }
    );
    assert_eq!(
        chunk_send_step(ChunkSendOutcome::QueueFull, 100_000, 9),
        ChunkStep::RetryAt { since_first_attempt_us: 1_600 }
    );
    assert_eq!(chunk_send_step(ChunkSendOutcome::QueueFull, 100_001, 1), ChunkStep::Abort);
}

#[test]
fn frame_counts_at_the_largest_announceable_frame() {
    let len = (u32::MAX - 1023) as usize;
    assert_eq!(frame_counts(len), (u32::MAX - 1023, 4_194_303));
    assert_eq!(frame_counts(1025), (1025, 2));
}

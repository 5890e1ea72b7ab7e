use gpu_core::command::CommandType;
use gpu_core::device::Device;

// Family 0 carries every capability; families 1 and 2 are dedicated compute
// and transfer.
fn families() -> Vec<(usize, u32)> {
    vec![(0, 0b111), (1, 0b010), (2, 0b100)]
}

fn device(frame_count: u32) -> Device {
    Device::new(frame_count, &families(), 1024).unwrap()
}

#[test]
fn fresh_device_starts_at_frame_zero_and_is_ready() {
    let d = device(3);
    assert_eq!(d.frame_sema.counter, 0);
    assert_eq!(d.gpu_frame_signaled, 0);
    assert_eq!(d.frame_wait_value(), 0);
    assert_eq!(d.try_new_frame(), Some(0));
    assert_eq!(d.new_frame(), 0);
}

#[test]
fn end_frame_advances_the_global_counter_by_one() {
    let mut d = device(2);
    d.end_frame();
    assert_eq!(d.frame_sema.counter, 1);
    d.end_frame();
    assert_eq!(d.frame_sema.counter, 2);
}

#[test]
fn five_ended_frames_with_matching_signals_give_slot_two_without_blocking() {
    // Three frames in flight; five frames ended, each with its signal
    // observed: the next frame must not block and reuses slot 5 mod 3 = 2.
    let mut d = device(3);
    for k in 1..=5u64 {
        d.end_frame();
        d.observe_frame_signal(k);
    }
    assert_eq!(d.frame_sema.counter, 5);
    assert_eq!(d.try_new_frame(), Some(2));
    assert_eq!(d.new_frame(), 2);
}

#[test]
fn gpu_stall_blocks_on_the_frames_in_flight_boundary() {
    // Three frames in flight, no GPU signal at all: the first two frames
    // stay ready, the third would block.
    let mut d = device(3);
    d.end_frame();
    assert_eq!(d.try_new_frame(), Some(1));
    d.end_frame();
    assert_eq!(d.try_new_frame(), Some(2));
    d.end_frame();
    assert_eq!(d.try_new_frame(), None);
    assert_eq!(d.frame_wait_value(), 1);
    // The GPU finishing the first frame unblocks exactly one more frame.
    d.observe_frame_signal(1);
    assert_eq!(d.try_new_frame(), Some(0));
    d.end_frame();
    assert_eq!(d.try_new_frame(), None);
}

#[test]
fn single_frame_in_flight_serializes_every_frame() {
    let mut d = device(1);
    assert_eq!(d.try_new_frame(), Some(0));
    d.end_frame();
    // With one frame in flight the CPU may never run ahead.
    assert_eq!(d.try_new_frame(), None);
    d.observe_frame_signal(1);
    assert_eq!(d.try_new_frame(), Some(0));
}

#[test]
fn wait_value_trails_the_counter_by_frames_in_flight_minus_one() {
    let mut d = device(3);
    for _ in 0..7 {
        d.end_frame();
    }
    let w = d.frame_wait_value();
    assert_eq!(w, 5);
    d.observe_frame_signal(5);
    assert_eq!(d.try_new_frame(), Some(1));
}

#[test]
fn observation_never_moves_backwards() {
    let mut d = device(2);
    for _ in 0..4 {
        d.end_frame();
    }
    d.observe_frame_signal(3);
    assert_eq!(d.gpu_frame_signaled, 3);
    d.observe_frame_signal(2);
    assert_eq!(d.gpu_frame_signaled, 3);
}

#[test]
fn semaphore_advance_counts_submitted_work() {
    let d = device(2);
    let mut sema = d.create_timeline_semaphore(77);
    assert_eq!(sema.counter, 0);
    assert_eq!(sema.handle, 77);
    sema.advance();
    sema.advance();
    assert_eq!(sema.signal_target(), 2);
    assert_eq!(sema.handle, 77);
}

#[test]
fn queue_at_picks_the_selected_family() {
    let d = device(2);
    assert_eq!(d.queue_at(CommandType::Graphics).family_index, 0);
    assert_eq!(d.queue_at(CommandType::Transfer).family_index, 2);
    assert_eq!(d.queue_at(CommandType::Compute).family_index, 1);
    assert_eq!(d.queue_at(CommandType::Graphics).semaphore.counter, 0);
}

use ecp5::command::Command;
use ecp5::device::Ecp5;
use ecp5::driver::Pin;
use ecp5::errors::FpgaError;
use ecp5::server::BitstreamType;
use ecp5::server::FpgaServer;
use ecp5::sim::EventRec;
use ecp5::sim::SimDevice;

const WRITE_ENABLED: [u8; 4] = [0x00, 0x00, 0x04, 0x00];
const IDLE_STATUS: [u8; 4] = [0x00, 0x00, 0x00, 0x00];
const BSE_CRC_MISMATCH: [u8; 4] = [0x01, 0x80, 0x00, 0x00];

fn server_ready_to_load(done_after: u32) -> FpgaServer<SimDevice> {
    let mut sim = SimDevice::new(done_after);
    sim.read_queue.push(WRITE_ENABLED.to_vec());
    FpgaServer::new(Ecp5::new(sim))
}

fn log(server: &FpgaServer<SimDevice>) -> &Vec<EventRec> {
    &server.device.driver.log
}

fn index_of(server: &FpgaServer<SimDevice>, wanted: &EventRec) -> Option<usize> {
    log(server).iter().position(|e| e == wanted)
}

#[test]
fn start_opens_the_burst_under_the_held_lock() {
    let mut server = server_ready_to_load(0);
    assert_eq!(server.start_bitstream_load(BitstreamType::Uncompressed), Ok(()));
    let events = log(&server);
    let n = events.len();
    assert_eq!(events[n - 1], EventRec::CommandWrite(Command::BitstreamBurst));
    assert_eq!(events[n - 2], EventRec::Lock);
    assert_eq!(events[n - 3], EventRec::PinSet(Pin::DesignResetN, false));
    // The lock stays held for the chunks to follow.
    assert!(server.device.driver.chan_locked);
    // The device was already write-enabled, so no mode change was issued.
    assert!(index_of(&server, &EventRec::CommandWrite(Command::EnableConfigurationMode)).is_none());
}

#[test]
fn start_enters_configuration_mode_when_needed() {
    let mut sim = SimDevice::new(0);
    sim.read_queue.push(IDLE_STATUS.to_vec());
    sim.read_queue.push(WRITE_ENABLED.to_vec());
    let mut server = FpgaServer::new(Ecp5::new(sim));
    assert_eq!(server.start_bitstream_load(BitstreamType::Uncompressed), Ok(()));
    let enables = log(&server)
        .iter()
        .filter(|e| matches!(e, EventRec::CommandWrite(Command::EnableConfigurationMode)))
        .count();
    assert_eq!(enables, 1);
}

#[test]
fn start_fails_when_the_device_refuses_configuration_mode() {
    let mut sim = SimDevice::new(0);
    sim.read_queue.push(IDLE_STATUS.to_vec());
    sim.read_queue.push(IDLE_STATUS.to_vec());
    let mut server = FpgaServer::new(Ecp5::new(sim));
    assert_eq!(
        server.start_bitstream_load(BitstreamType::Uncompressed),
        Err(FpgaError::InvalidState)
    );
    // The burst was never opened, no pin was touched, and configuration
    // mode was attempted exactly once.
    assert!(index_of(&server, &EventRec::CommandWrite(Command::BitstreamBurst)).is_none());
    assert!(!log(&server).iter().any(|e| matches!(e, EventRec::PinSet(_, _))));
    let enables = log(&server)
        .iter()
        .filter(|e| matches!(e, EventRec::CommandWrite(Command::EnableConfigurationMode)))
        .count();
    assert_eq!(enables, 1);
    assert!(!server.device.driver.chan_locked);
}

#[test]
fn second_start_while_loading_is_rejected_without_corruption() {
    let mut server = server_ready_to_load(0);
    assert_eq!(server.start_bitstream_load(BitstreamType::Uncompressed), Ok(()));
    let events_before = log(&server).clone();
    assert_eq!(
        server.start_bitstream_load(BitstreamType::Compressed),
        Err(FpgaError::InvalidState)
    );
    // Nothing reached the device and the open transaction survived.
    assert_eq!(log(&server), &events_before);
    assert!(server.device.driver.chan_locked);
    assert_eq!(server.continue_bitstream_load(&[0x11]), Ok(()));
}

#[test]
fn continue_without_open_load_is_a_programming_error() {
    let mut server = FpgaServer::new(Ecp5::new(SimDevice::new(0)));
    assert_eq!(server.continue_bitstream_load(&[1, 2, 3]), Err(FpgaError::InvalidState));
    assert!(log(&server).is_empty());
}

#[test]
fn finish_without_open_load_is_a_programming_error() {
    let mut server = FpgaServer::new(Ecp5::new(SimDevice::new(0)));
    assert_eq!(server.finish_bitstream_load(25, 1000), Err(FpgaError::InvalidState));
    assert!(log(&server).is_empty());
}

#[test]
fn uncompressed_chunks_are_forwarded_verbatim() {
    let mut server = server_ready_to_load(0);
    server.start_bitstream_load(BitstreamType::Uncompressed).unwrap();
    server.continue_bitstream_load(&[1, 2, 3]).unwrap();
    server.continue_bitstream_load(&[4, 5]).unwrap();
    let writes: Vec<Vec<u8>> = log(&server)
        .iter()
        .filter_map(|e| match e {
            EventRec::DataWrite(d) => Some(d.clone()),
            _ => None,
        })
        .collect();
    assert_eq!(writes, vec![vec![1, 2, 3], vec![4, 5]]);
}

#[test]
fn compressed_chunks_are_expanded_inline() {
    let mut server = server_ready_to_load(0);
    server.start_bitstream_load(BitstreamType::Compressed).unwrap();
    server.continue_bitstream_load(&[0x01, 0xde, 0xad, 0x82, 0x00]).unwrap();
    let writes: Vec<Vec<u8>> = log(&server)
        .iter()
        .filter_map(|e| match e {
            EventRec::DataWrite(d) => Some(d.clone()),
            _ => None,
        })
        .collect();
    assert_eq!(writes, vec![vec![0xde, 0xad, 0x00, 0x00, 0x00, 0x00, 0x00]]);
}

#[test]
fn split_compressed_stream_writes_identical_bytes() {
    let stream: Vec<u8> = vec![0x03, 1, 2, 3, 4, 0x9b, 0x55, 0x00, 0xee];
    let collect_writes = |server: &FpgaServer<SimDevice>| -> Vec<u8> {
        log(server)
            .iter()
            .filter_map(|e| match e {
                EventRec::DataWrite(d) => Some(d.clone()),
                _ => None,
            })
            .flatten()
            .collect()
    };

    let mut whole = server_ready_to_load(0);
    whole.start_bitstream_load(BitstreamType::Compressed).unwrap();
    whole.continue_bitstream_load(&stream).unwrap();
    let whole_bytes = collect_writes(&whole);

    for cut in 0..=stream.len() {
        let mut split = server_ready_to_load(0);
        split.start_bitstream_load(BitstreamType::Compressed).unwrap();
        split.continue_bitstream_load(&stream[..cut]).unwrap();
        split.continue_bitstream_load(&stream[cut..]).unwrap();
        assert_eq!(collect_writes(&split), whole_bytes, "split at {cut}");
    }
}

#[test]
fn chunk_ending_inside_a_run_produces_no_write_yet() {
    let mut server = server_ready_to_load(0);
    server.start_bitstream_load(BitstreamType::Compressed).unwrap();
    // The run's control byte alone: more data is required, not an error.
    server.continue_bitstream_load(&[0x85]).unwrap();
    assert!(index_of(&server, &EventRec::DataWrite(vec![0xcc; 8])).is_none());
    server.continue_bitstream_load(&[0xcc]).unwrap();
    assert!(index_of(&server, &EventRec::DataWrite(vec![0xcc; 8])).is_some());
}

#[test]
fn rejected_bitstream_leaves_configuration_mode_open() {
    let mut server = server_ready_to_load(0);
    server.start_bitstream_load(BitstreamType::Uncompressed).unwrap();
    server.continue_bitstream_load(&[0xaa, 0xbb]).unwrap();
    // Post-load polling sees the device idle — a zero-subfield word — but
    // the decisive status read after the busy wait carries bitstream-error
    // subfield 3 (CRC mismatch), and the decisive read decides.
    server.device.driver.read_queue.push(IDLE_STATUS.to_vec());
    server.device.driver.read_queue.push(BSE_CRC_MISMATCH.to_vec());
    assert_eq!(
        server.finish_bitstream_load(25, 1000),
        Err(FpgaError::BitstreamError(3))
    );
    // No transition out of configuration mode was attempted and the design
    // stays in reset, so the caller may retry via Refresh.
    assert!(index_of(&server, &EventRec::CommandWrite(Command::DisableConfigurationMode)).is_none());
    assert!(index_of(&server, &EventRec::PinSet(Pin::DesignResetN, true)).is_none());
    assert!(!server.device.driver.chan_locked);
}

#[test]
fn accepted_bitstream_wakes_the_device_and_releases_the_design() {
    let mut server = server_ready_to_load(2);
    server.start_bitstream_load(BitstreamType::Uncompressed).unwrap();
    server.continue_bitstream_load(&[0xaa, 0xbb]).unwrap();
    // Status polls after release read zeroes: idle, no bitstream error.
    assert_eq!(server.finish_bitstream_load(25, 1000), Ok(()));

    let events = log(&server);
    let n = events.len();
    // The burst lock was released before any post-load polling.
    let burst = index_of(&server, &EventRec::CommandWrite(Command::BitstreamBurst)).unwrap();
    assert_eq!(events[burst + 2], EventRec::Release);
    // Leaving configuration mode precedes the DONE wait, which precedes the
    // settle delay and the final release of the design from reset.
    let disable =
        index_of(&server, &EventRec::CommandWrite(Command::DisableConfigurationMode)).unwrap();
    let done = index_of(&server, &EventRec::PinRead(Pin::Done, true)).unwrap();
    assert!(disable < done);
    assert_eq!(events[n - 2], EventRec::Sleep(25));
    assert_eq!(events[n - 1], EventRec::PinSet(Pin::DesignResetN, true));
    assert!(!server.device.driver.chan_locked);
    // The DONE pin was polled until it asserted: two low reads first.
    let low_reads = events
        .iter()
        .filter(|e| matches!(e, EventRec::PinRead(Pin::Done, false)))
        .count();
    assert_eq!(low_reads, 2);
}

#[test]
fn stale_error_subfield_during_busy_wait_is_ignored() {
    // While still busy the status word shows subfield 3, but the decisive
    // read after busy clears shows zero: the load is accepted.
    let mut server = server_ready_to_load(1);
    server.start_bitstream_load(BitstreamType::Uncompressed).unwrap();
    server.continue_bitstream_load(&[0xaa]).unwrap();
    let busy_with_stale_error: [u8; 4] = [0x01, 0x80, 0x10, 0x00];
    server.device.driver.read_queue.push(busy_with_stale_error.to_vec());
    server.device.driver.read_queue.push(IDLE_STATUS.to_vec());
    assert_eq!(server.finish_bitstream_load(25, 1000), Ok(()));
    assert!(index_of(&server, &EventRec::CommandWrite(Command::DisableConfigurationMode)).is_some());
}

#[test]
fn no_empty_write_is_ever_issued() {
    let mut server = server_ready_to_load(0);
    server.start_bitstream_load(BitstreamType::Compressed).unwrap();
    // Several splits that strand the decompressor mid-token.
    for chunk in [&[0x85u8][..], &[0xcc], &[0x02], &[], &[1, 2], &[3]] {
        server.continue_bitstream_load(chunk).unwrap();
    }
    assert!(!log(&server).iter().any(|e| matches!(e, EventRec::DataWrite(d) if d.is_empty())));
}

#[test]
fn a_new_load_can_start_after_a_rejected_one() {
    let mut server = server_ready_to_load(0);
    server.start_bitstream_load(BitstreamType::Uncompressed).unwrap();
    server.device.driver.read_queue.push(IDLE_STATUS.to_vec());
    server.device.driver.read_queue.push(BSE_CRC_MISMATCH.to_vec());
    assert_eq!(
        server.finish_bitstream_load(25, 1000),
        Err(FpgaError::BitstreamError(3))
    );
    // The port is still write-enabled after the caller's Refresh; a new
    // transaction may open.
    server.device.driver.read_queue.push(WRITE_ENABLED.to_vec());
    assert_eq!(server.start_bitstream_load(BitstreamType::Uncompressed), Ok(()));
}

use gled::output_merge::{hover_blink_value, OutputMerger, OutputPackage};

const MS: u64 = 1_000_000;

fn universe_with(first: u8, second: u8) -> [u8; 512] {
    let mut u = [0u8; 512];
    u[0] = first;
    u[1] = second;
    u
}

#[test]
fn blink_value_is_a_triangle_over_512_ms() {
    assert_eq!(hover_blink_value(0), 0);
    assert_eq!(hover_blink_value(100), 156);
    assert_eq!(hover_blink_value(255), 1);
    assert_eq!(hover_blink_value(256), 0);
    assert_eq!(hover_blink_value(257), 1);
    assert_eq!(hover_blink_value(511), 255);
    assert_eq!(hover_blink_value(512), 0);
    assert_eq!(hover_blink_value(612), 156);
}

#[test]
fn empty_merger_sends_nothing() {
    let merger = OutputMerger::new(0);
    assert_eq!(merger.output_for(1, false, 0), None);
}

#[test]
fn single_source_is_sent_as_is() {
    let mut merger = OutputMerger::new(0);
    let out = merger.receive(OutputPackage::Gled { recipient: 3, data: universe_with(9, 8) }, 10 * MS, 0);
    assert_eq!(out, Some((3, universe_with(9, 8))));
    let out = merger.receive(
        OutputPackage::ArtnetInput { recipient: 4, data: universe_with(1, 2), htp: false },
        20 * MS,
        0,
    );
    assert_eq!(out, Some((4, universe_with(1, 2))));
}

#[test]
fn htp_input_merges_channel_by_channel() {
    let mut merger = OutputMerger::new(0);
    merger.receive(OutputPackage::Gled { recipient: 1, data: universe_with(100, 50) }, MS, 0);
    let out = merger.receive(
        OutputPackage::ArtnetInput { recipient: 1, data: universe_with(10, 200), htp: true },
        2 * MS,
        0,
    );
    assert_eq!(out, Some((1, universe_with(100, 200))));
}

#[test]
fn ltp_input_takes_the_newer_source() {
    let mut merger = OutputMerger::new(0);
    merger.receive(OutputPackage::Gled { recipient: 1, data: universe_with(100, 50) }, MS, 0);
    let out = merger.receive(
        OutputPackage::ArtnetInput { recipient: 1, data: universe_with(10, 200), htp: false },
        2 * MS,
        0,
    );
    assert_eq!(out, Some((1, universe_with(10, 200))));
    let out = merger.receive(OutputPackage::Gled { recipient: 1, data: universe_with(7, 7) }, 3 * MS, 0);
    assert_eq!(out, Some((1, universe_with(7, 7))));
}

#[test]
fn repeated_blank_frames_do_not_count_as_updates() {
    let mut merger = OutputMerger::new(0);
    merger.receive(OutputPackage::Gled { recipient: 1, data: [0u8; 512] }, MS, 0);
    merger.receive(
        OutputPackage::ArtnetInput { recipient: 1, data: universe_with(10, 20), htp: false },
        2 * MS,
        0,
    );
    // A second blank frame keeps the first frame's update time, so the
    // Art-Net input stays the newer source.
    let out = merger.receive(OutputPackage::Gled { recipient: 1, data: [0u8; 512] }, 3 * MS, 0);
    assert_eq!(out, Some((1, universe_with(10, 20))));
    // A frame with content is an update.
    let out = merger.receive(OutputPackage::Gled { recipient: 1, data: universe_with(1, 0) }, 4 * MS, 0);
    assert_eq!(out, Some((1, universe_with(1, 0))));
}

#[test]
fn hovered_recipient_gets_the_blink_pattern() {
    let mut merger = OutputMerger::new(0);
    merger.receive(OutputPackage::Gled { recipient: 1, data: universe_with(100, 50) }, MS, 0);
    let out = merger.receive(OutputPackage::Hovered { recipient: 1 }, 2 * MS, 77);
    assert_eq!(out, Some((1, [77u8; 512])));
    let out = merger.receive(OutputPackage::Hovered { recipient: 9 }, 3 * MS, 5);
    assert_eq!(out, Some((9, [5u8; 512])));
}

#[test]
fn stale_sources_are_dropped_after_a_second() {
    let mut merger = OutputMerger::new(0);
    merger.receive(OutputPackage::Gled { recipient: 1, data: universe_with(100, 50) }, MS, 0);
    merger.receive(
        OutputPackage::ArtnetInput { recipient: 1, data: universe_with(3, 3), htp: true },
        MS,
        0,
    );
    // Within a second both stay.
    merger.receive(OutputPackage::Gled { recipient: 2, data: universe_with(1, 1) }, 900 * MS, 0);
    assert_eq!(merger.output_for(1, false, 0), Some(universe_with(100, 50)));
    // After a second, the next expiry run drops both sources of recipient 1.
    let out = merger.receive(OutputPackage::Gled { recipient: 2, data: universe_with(1, 1) }, 1200 * MS, 0);
    assert_eq!(out, Some((2, universe_with(1, 1))));
    assert_eq!(merger.output_for(1, false, 0), None);
}

#[test]
fn expiry_waits_for_its_interval() {
    let mut merger = OutputMerger::new(0);
    merger.receive(OutputPackage::Gled { recipient: 1, data: universe_with(5, 5) }, 0, 0);
    // The expiry at 300 ms resets the clock; at 1100 ms less than 250 ms have
    // passed since the one at 900 ms, so recipient 1 survives until 1200 ms.
    merger.receive(OutputPackage::Gled { recipient: 2, data: universe_with(1, 1) }, 300 * MS, 0);
    merger.receive(OutputPackage::Gled { recipient: 2, data: universe_with(1, 1) }, 900 * MS, 0);
    merger.receive(OutputPackage::Gled { recipient: 2, data: universe_with(1, 1) }, 1100 * MS, 0);
    assert_eq!(merger.output_for(1, false, 0), Some(universe_with(5, 5)));
    merger.receive(OutputPackage::Gled { recipient: 2, data: universe_with(1, 1) }, 1200 * MS, 0);
    assert_eq!(merger.output_for(1, false, 0), None);
}

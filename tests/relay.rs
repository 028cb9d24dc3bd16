use eo_relay::{
    decode_length, encode_length, keeps_accepting, AcceptEvent, Bridge, BridgeAction,
    BridgeEvent, FrameReader, ProxyState, ReadOutcome, MAX_FRAME_LEN,
};

#[test]
fn length_round_trip_over_the_whole_range() {
    for n in 0..=MAX_FRAME_LEN {
        let h = encode_length(n);
        assert_eq!(decode_length(h[0], h[1]), Some(n));
    }
}

#[test]
fn length_header_bytes_are_biased_most_significant_first() {
    assert_eq!(encode_length(0), [1, 1]);
    assert_eq!(encode_length(3), [1, 4]);
    assert_eq!(encode_length(252), [1, 253]);
    assert_eq!(encode_length(253), [2, 1]);
    assert_eq!(encode_length(533), [3, 28]);
    assert_eq!(encode_length(64008), [253, 253]);
}

#[test]
fn decode_length_of_known_headers() {
    assert_eq!(decode_length(1, 4), Some(3));
    assert_eq!(decode_length(3, 28), Some(533));
    assert_eq!(decode_length(1, 1), Some(0));
    assert_eq!(decode_length(254, 4), Some(3));
    assert_eq!(decode_length(2, 254), Some(253));
}

#[test]
fn decode_length_rejects_out_of_range_headers() {
    assert_eq!(decode_length(0, 0), None);
    assert_eq!(decode_length(1, 0), None);
    assert_eq!(decode_length(2, 0), None);
    assert_eq!(decode_length(0, 5), None);
    assert_eq!(decode_length(255, 255), None);
    assert_eq!(decode_length(254, 255), Some(254));
    assert_eq!(decode_length(253, 254), Some(252 * 253));
}

#[test]
fn reader_yields_frame_read_one_byte_at_a_time() {
    let mut r = FrameReader::new();
    let frame = [1u8, 4, 0xAA, 0xBB, 0xCC];
    assert_eq!(r.wanted(), 2);
    for (i, b) in frame.iter().enumerate() {
        let out = r.feed(&[*b]);
        if i + 1 < frame.len() {
            assert_eq!(out, ReadOutcome::NeedMore);
        } else {
            assert_eq!(out, ReadOutcome::Frame(frame.to_vec()));
        }
    }
    assert_eq!(r.wanted(), 2);
}

#[test]
fn reader_wanted_tracks_header_then_payload() {
    let mut r = FrameReader::new();
    assert_eq!(r.feed(&[1]), ReadOutcome::NeedMore);
    assert_eq!(r.wanted(), 1);
    assert_eq!(r.feed(&[6]), ReadOutcome::NeedMore);
    assert_eq!(r.wanted(), 5);
    assert_eq!(r.feed(&[9, 9]), ReadOutcome::NeedMore);
    assert_eq!(r.wanted(), 3);
    assert_eq!(r.feed(&[8, 7, 6]), ReadOutcome::Frame(vec![1, 6, 9, 9, 8, 7, 6]));
}

#[test]
fn reader_yields_two_frames_in_sequence() {
    let mut r = FrameReader::new();
    assert_eq!(r.feed(&[1, 2]), ReadOutcome::NeedMore);
    assert_eq!(r.feed(&[5]), ReadOutcome::Frame(vec![1, 2, 5]));
    assert_eq!(r.feed(&[1, 3]), ReadOutcome::NeedMore);
    assert_eq!(r.feed(&[7, 8]), ReadOutcome::Frame(vec![1, 3, 7, 8]));
}

#[test]
fn reader_zero_length_frame_is_header_only() {
    let mut r = FrameReader::new();
    assert_eq!(r.feed(&[1, 1]), ReadOutcome::Frame(vec![1, 1]));
}

#[test]
fn reader_end_of_stream_in_header_and_payload() {
    let mut r = FrameReader::new();
    assert_eq!(r.feed(&[]), ReadOutcome::EndOfStream);
    assert_eq!(r.feed(&[1]), ReadOutcome::NeedMore);
    assert_eq!(r.feed(&[]), ReadOutcome::EndOfStream);
    assert_eq!(r.wanted(), 2);
    assert_eq!(r.feed(&[1, 5]), ReadOutcome::NeedMore);
    assert_eq!(r.feed(&[1, 2]), ReadOutcome::NeedMore);
    assert_eq!(r.feed(&[]), ReadOutcome::EndOfStream);
    assert_eq!(r.wanted(), 2);
}

#[test]
fn reader_rejects_reserved_zero_byte_in_header() {
    let mut r = FrameReader::new();
    assert_eq!(r.feed(&[2]), ReadOutcome::NeedMore);
    assert_eq!(r.feed(&[0]), ReadOutcome::Malformed);
}

#[test]
fn reader_malformed_header() {
    let mut r = FrameReader::new();
    assert_eq!(r.feed(&[0, 0]), ReadOutcome::Malformed);
    assert_eq!(r.wanted(), 2);
}

#[test]
fn large_frame_in_uneven_reads() {
    let n = MAX_FRAME_LEN;
    let h = encode_length(n);
    let mut frame = h.to_vec();
    for i in 0..n {
        frame.push((i % 251) as u8);
    }
    let mut r = FrameReader::new();
    let mut pos = 0;
    let mut step = 1;
    let mut got = None;
    while pos < frame.len() {
        let take = step.min(r.wanted());
        let out = r.feed(&frame[pos..pos + take]);
        pos += take;
        step = step * 3 % 1000 + 1;
        if out != ReadOutcome::NeedMore {
            got = Some(out);
        }
    }
    assert_eq!(got, Some(ReadOutcome::Frame(frame)));
}

#[test]
fn end_to_end_scenario() {
    let mut b = Bridge::new();
    assert_eq!(
        b.handle(BridgeEvent::ClientBinary(vec![0x01, 0x02, 0x03])),
        BridgeAction::WriteBackend(vec![0x01, 0x02, 0x03])
    );
    let h = encode_length(3);
    assert_eq!(b.handle(BridgeEvent::BackendData(h.to_vec())), BridgeAction::Continue);
    assert_eq!(b.wanted(), 3);
    assert_eq!(
        b.handle(BridgeEvent::BackendData(vec![0xAA, 0xBB, 0xCC])),
        BridgeAction::Continue
    );
    assert!(b.has_pending());
    assert_eq!(
        b.handle(BridgeEvent::SendReady),
        BridgeAction::SendClient(vec![h[0], h[1], 0xAA, 0xBB, 0xCC])
    );
    assert!(!b.has_pending());
    assert_eq!(b.handle(BridgeEvent::SendReady), BridgeAction::Continue);
    assert!(!b.is_closed());
}

#[test]
fn zero_length_backend_frame_closes_bridge() {
    let mut b = Bridge::new();
    assert_eq!(b.handle(BridgeEvent::BackendData(vec![1, 3])), BridgeAction::Continue);
    assert_eq!(b.handle(BridgeEvent::BackendData(vec![7, 7])), BridgeAction::Continue);
    assert!(b.has_pending());
    assert_eq!(b.handle(BridgeEvent::BackendData(vec![1])), BridgeAction::Continue);
    assert_eq!(b.handle(BridgeEvent::BackendData(vec![1])), BridgeAction::Close);
    assert!(b.is_closed());
    assert!(!b.has_pending());
    assert_eq!(b.handle(BridgeEvent::SendReady), BridgeAction::Close);
    assert_eq!(b.handle(BridgeEvent::ClientBinary(vec![5])), BridgeAction::Close);
}

#[test]
fn shutdown_closes_every_bridge_mid_transfer() {
    let mut bridges: Vec<Bridge> = (0..5).map(|_| Bridge::new()).collect();
    for (i, b) in bridges.iter_mut().enumerate() {
        assert_eq!(b.handle(BridgeEvent::BackendData(vec![1, 4])), BridgeAction::Continue);
        if i % 2 == 0 {
            assert_eq!(b.handle(BridgeEvent::BackendData(vec![9, 9, 9])), BridgeAction::Continue);
            assert!(b.has_pending());
        } else {
            assert_eq!(b.handle(BridgeEvent::BackendData(vec![9])), BridgeAction::Continue);
        }
    }
    for b in bridges.iter_mut() {
        assert_eq!(b.handle(BridgeEvent::Shutdown), BridgeAction::Close);
        assert!(b.is_closed());
        assert!(!b.has_pending());
        assert_eq!(b.handle(BridgeEvent::SendReady), BridgeAction::Close);
    }
}

#[test]
fn bridge_ignores_other_client_messages() {
    let mut b = Bridge::new();
    assert_eq!(b.handle(BridgeEvent::ClientOther), BridgeAction::Continue);
    assert!(!b.is_closed());
}

#[test]
fn bridge_closes_on_each_failure() {
    let events = [
        BridgeEvent::ClientClosed,
        BridgeEvent::BackendFailed,
        BridgeEvent::ClientSendFailed,
        BridgeEvent::BackendData(vec![]),
        BridgeEvent::BackendData(vec![0, 0]),
    ];
    for ev in events {
        let mut b = Bridge::new();
        assert_eq!(b.handle(ev), BridgeAction::Close);
        assert!(b.is_closed());
    }
}

#[test]
fn bridge_forwards_frames_in_arrival_order() {
    let mut b = Bridge::new();
    assert_eq!(b.handle(BridgeEvent::BackendData(vec![1, 2])), BridgeAction::Continue);
    assert_eq!(b.handle(BridgeEvent::BackendData(vec![10])), BridgeAction::Continue);
    assert_eq!(b.handle(BridgeEvent::BackendData(vec![1, 2])), BridgeAction::Continue);
    assert_eq!(b.handle(BridgeEvent::BackendData(vec![20])), BridgeAction::Continue);
    assert_eq!(b.handle(BridgeEvent::SendReady), BridgeAction::SendClient(vec![1, 2, 10]));
    assert_eq!(b.handle(BridgeEvent::SendReady), BridgeAction::SendClient(vec![1, 2, 20]));
}

#[test]
fn proxy_state_start_and_stop() {
    let mut s: ProxyState<u32> = ProxyState::new();
    assert!(!s.is_running());
    assert_eq!(s.stop(), None);
    assert_eq!(s.start(1), None);
    assert!(s.is_running());
    assert_eq!(s.start(2), Some(1));
    assert_eq!(s.stop(), Some(2));
    assert!(!s.is_running());
    assert_eq!(s.stop(), None);
}

#[test]
fn accept_loop_stops_on_shutdown_only() {
    assert!(!keeps_accepting(AcceptEvent::Shutdown));
    assert!(keeps_accepting(AcceptEvent::Accepted));
    assert!(keeps_accepting(AcceptEvent::AcceptFailed));
}

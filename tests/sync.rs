use mediatimer::client::{ConnectRetry, CONNECT_ATTEMPTS, CONNECT_RETRY_DELAY_MS};
use mediatimer::log::{log_error, log_info, log_warn};
use mediatimer::protocol::{ControlMessage, RecordFramer};
use mediatimer::receiver::{DriftMonitor, Phase, ReceiverArgs, ReceiverState};
use mediatimer::scheduler::{announce, announcement, LEAD_SECONDS, RTP_CLOCK_RATE};
use mediatimer::server::ControlServer;
use mediatimer::sr::{decode_sr, parse_rtcp_sr_packet, read_be_u32};
use mediatimer::time::{ntp_now, unix_to_ntp, NtpTimestamp, NTP_UNIX_OFFSET};
use std::cmp::Ordering;

fn sender_report(ntp_seconds: u32, ntp_fraction: u32, rtp_timestamp: u32) -> Vec<u8> {
    let mut p = vec![0u8; 28];
    p[0] = 0x80;
    p[1] = 200;
    p[4..8].copy_from_slice(&0xdead_beefu32.to_be_bytes());
    p[8..12].copy_from_slice(&ntp_seconds.to_be_bytes());
    p[12..16].copy_from_slice(&ntp_fraction.to_be_bytes());
    p[16..20].copy_from_slice(&rtp_timestamp.to_be_bytes());
    p
}

fn sr_message(start: Option<NtpTimestamp>) -> ControlMessage {
    ControlMessage::Sr {
        ntp_seconds: 3_900_000_000,
        ntp_fraction: 77,
        rtp_timestamp: 123_456,
        clock_rate: 90_000,
        start_at_ntp_seconds: start.map(|t| t.seconds),
        start_at_ntp_fraction: start.map(|t| t.fraction),
    }
}

#[test]
fn unix_epoch_maps_to_ntp_offset() {
    let t = unix_to_ntp(0, 0).unwrap();
    assert_eq!(t, NtpTimestamp::new(2_208_988_800, 0));
    assert_eq!(NTP_UNIX_OFFSET, 2_208_988_800);
}

#[test]
fn nanoseconds_scale_to_fraction() {
    assert_eq!(unix_to_ntp(1, 500_000_000).unwrap(), NtpTimestamp::new(2_208_988_801, 2_147_483_648));
    assert_eq!(unix_to_ntp(7, 250_000_000).unwrap().fraction, 1_073_741_824);
    assert_eq!(unix_to_ntp(7, 1).unwrap().fraction, 4);
    assert_eq!(unix_to_ntp(7, 999_999_999).unwrap().fraction, 4_294_967_291);
}

#[test]
fn fraction_increases_within_a_second() {
    let mut last = unix_to_ntp(100, 0).unwrap().fraction;
    for nanos in [1u32, 2, 3, 1_000, 499_999_999, 500_000_000, 999_999_998, 999_999_999] {
        let f = unix_to_ntp(100, nanos).unwrap();
        assert_eq!(f.seconds, 100 + NTP_UNIX_OFFSET);
        assert!(f.fraction > last);
        last = f.fraction;
    }
}

#[test]
fn unix_seconds_beyond_the_field_give_nothing() {
    assert_eq!(unix_to_ntp(u64::MAX, 0), None);
    assert_eq!(unix_to_ntp(u64::MAX - NTP_UNIX_OFFSET, 0).unwrap().seconds, u64::MAX);
}

#[test]
fn clock_now_is_past_the_unix_epoch() {
    let now = ntp_now().unwrap();
    assert!(now.seconds > NTP_UNIX_OFFSET + 1_600_000_000);
}

#[test]
fn timestamps_compare_and_advance() {
    let a = NtpTimestamp::new(10, 5);
    let b = NtpTimestamp::new(10, 6);
    let c = NtpTimestamp::new(11, 0);
    assert_eq!(a.compare(&b), Ordering::Less);
    assert_eq!(c.compare(&b), Ordering::Greater);
    assert_eq!(a.compare(&a), Ordering::Equal);
    assert!(b.is_at_or_after(&a));
    assert!(!a.is_at_or_after(&b));
    assert_eq!(a.add_seconds(5), Some(NtpTimestamp::new(15, 5)));
    assert_eq!(NtpTimestamp::new(u64::MAX, 0).add_seconds(1), None);
}

#[test]
fn sender_report_fields_are_read_big_endian() {
    let p = sender_report(0x83aa_7e80, 0x1234_5678, 0xcafe_f00d);
    assert_eq!(parse_rtcp_sr_packet(&p), Some((0x83aa_7e80, 0x1234_5678, 0xcafe_f00d)));
    assert_eq!(read_be_u32(&p, 4), 0xdead_beef);
    let s = decode_sr(&p, 90_000).unwrap();
    assert_eq!((s.ntp_seconds, s.ntp_fraction, s.rtp_timestamp, s.clock_rate), (0x83aa_7e80, 0x1234_5678, 0xcafe_f00d, 90_000));
}

#[test]
fn short_or_mistyped_packets_are_rejected() {
    let p = sender_report(1, 2, 3);
    assert_eq!(parse_rtcp_sr_packet(&p[..27]), None);
    assert_eq!(parse_rtcp_sr_packet(&[]), None);
    let mut rr = p.clone();
    rr[1] = 201;
    assert_eq!(parse_rtcp_sr_packet(&rr), None);
    let mut long = p.clone();
    long.extend_from_slice(&[9u8; 40]);
    assert_eq!(parse_rtcp_sr_packet(&long), Some((1, 2, 3)));
}

#[test]
fn records_split_at_newlines() {
    let mut f = RecordFramer::new();
    f.push_bytes(b"{\"type\":\"heart");
    assert_eq!(f.next_record(), None);
    f.push_bytes(b"beat\"}\n\nnext");
    assert_eq!(f.next_record(), Some(b"{\"type\":\"heartbeat\"}".to_vec()));
    assert_eq!(f.next_record(), Some(Vec::new()));
    assert_eq!(f.next_record(), None);
    assert_eq!(f.finish(), Some(b"next".to_vec()));
    assert_eq!(f.finish(), None);
}

#[test]
fn start_fields_must_come_together() {
    let t = NtpTimestamp::new(4_000_000_000, 9);
    assert!(sr_message(Some(t)).is_well_formed());
    assert!(sr_message(None).is_well_formed());
    let half = ControlMessage::Sr {
        ntp_seconds: 1,
        ntp_fraction: 2,
        rtp_timestamp: 3,
        clock_rate: 4,
        start_at_ntp_seconds: Some(5),
        start_at_ntp_fraction: None,
    };
    assert!(!half.is_well_formed());
    assert_eq!(half.start_instant(), None);
    assert_eq!(sr_message(Some(t)).start_instant(), Some(t));
}

#[test]
fn heartbeat_seconds_wrap_to_32_bits() {
    let hb = ControlMessage::heartbeat(NtpTimestamp::new((1u64 << 32) + 5, 17));
    assert_eq!(hb, ControlMessage::Heartbeat { ntp_seconds: 5, ntp_fraction: 17 });
    assert!(!hb.is_sr());
}

#[test]
fn broadcast_reaches_every_client_in_order() {
    let mut server: ControlServer<u32> = ControlServer::new();
    for id in 1..=3 {
        server.accept(id);
    }
    let sr = sr_message(None);
    server.enqueue(sr);
    assert!(server.has_pending());
    assert_eq!(server.pending(), &vec![sr]);
    server.finish_broadcast(&vec![false, false, false]);
    assert!(!server.has_pending());
    assert_eq!(server.clients(), &vec![1, 2, 3]);
    server.finish_heartbeat(&vec![false, false, false]);
    assert_eq!(server.clients(), &vec![1, 2, 3]);
}

#[test]
fn failed_clients_are_pruned_once() {
    let mut server: ControlServer<u32> = ControlServer::new();
    for id in [10, 20, 30, 40] {
        server.accept(id);
    }
    server.enqueue(sr_message(None));
    server.finish_broadcast(&vec![false, true, false, true]);
    assert_eq!(server.clients(), &vec![10, 30]);
    server.finish_heartbeat(&vec![true, false]);
    assert_eq!(server.clients(), &vec![30]);
    server.enqueue(sr_message(None));
    assert_eq!(server.pending().len(), 1);
}

#[test]
fn receiver_waits_for_the_start_instant() {
    let start = NtpTimestamp::new(5_000, 100);
    let mut r = ReceiverState::new();
    assert_eq!(r.phase, Phase::Connecting);
    r.prerolled();
    assert_eq!(r.phase, Phase::Prerolled);
    assert!(!r.poll(NtpTimestamp::new(6_000, 0)));
    r.on_message(&sr_message(Some(start)));
    assert_eq!(r.scheduled_start, Some(start));
    assert_eq!(r.last_sr.unwrap().rtp_timestamp, 123_456);
    assert!(!r.poll(NtpTimestamp::new(4_999, u32::MAX)));
    assert!(!r.poll(NtpTimestamp::new(5_000, 99)));
    assert_eq!(r.phase, Phase::Prerolled);
    assert!(r.poll(NtpTimestamp::new(5_000, 100)));
    assert_eq!(r.phase, Phase::Playing);
    assert!(!r.poll(NtpTimestamp::new(9_000, 0)));
}

#[test]
fn receiver_takes_the_last_start_and_ignores_heartbeats() {
    let mut r = ReceiverState::new();
    r.prerolled();
    r.on_message(&sr_message(Some(NtpTimestamp::new(100, 0))));
    r.on_message(&sr_message(Some(NtpTimestamp::new(200, 0))));
    r.on_message(&ControlMessage::Heartbeat { ntp_seconds: 1, ntp_fraction: 1 });
    r.on_message(&sr_message(None));
    assert_eq!(r.scheduled_start, Some(NtpTimestamp::new(200, 0)));
    assert!(!r.poll(NtpTimestamp::new(150, 0)));
    assert!(r.poll(NtpTimestamp::new(200, 0)));
}

#[test]
fn past_start_plays_at_the_next_poll() {
    let mut r = ReceiverState::new();
    r.prerolled();
    r.on_message(&sr_message(Some(NtpTimestamp::new(10, 0))));
    assert!(r.poll(NtpTimestamp::new(50, 0)));
    assert_eq!(r.phase, Phase::Playing);
}

#[test]
fn receiver_does_not_start_before_preroll() {
    let mut r = ReceiverState::new();
    r.on_message(&sr_message(Some(NtpTimestamp::new(10, 0))));
    assert!(!r.poll(NtpTimestamp::new(50, 0)));
    assert_eq!(r.phase, Phase::Connecting);
    r.prerolled();
    assert!(r.poll(NtpTimestamp::new(50, 0)));
}

#[test]
fn drift_monitor_keeps_the_latest_report() {
    let mut d = DriftMonitor::new();
    assert_eq!(d.observe(&[1, 2, 3]), None);
    assert_eq!(d.latest, None);
    assert_eq!(d.observe(&sender_report(1, 2, 3)), Some((1, 2, 3)));
    assert_eq!(d.observe(&[0u8; 28]), None);
    assert_eq!(d.latest, Some((1, 2, 3)));
}

#[test]
fn reconnect_gives_up_after_the_configured_attempts() {
    let mut policy = ConnectRetry::persistent();
    let mut attempts = 0u32;
    let mut waited = 0u64;
    while policy.should_attempt() {
        attempts += 1;
        waited += policy.record_failure();
    }
    assert_eq!(attempts, CONNECT_ATTEMPTS);
    assert_eq!(attempts, 10);
    assert_eq!(waited, 10 * CONNECT_RETRY_DELAY_MS);
    assert_eq!(waited, 2_000);
    assert_eq!(policy.failures(), 10);
}

#[test]
fn reconnect_with_no_attempts_fails_at_once() {
    let policy = ConnectRetry::new(0, 50);
    assert!(!policy.should_attempt());
}

#[test]
fn sender_report_becomes_an_announcement() {
    let p = sender_report(3_900_000_000, 0x4000_0000, 777);
    let now = NtpTimestamp::new(3_900_000_010, 5);
    let m = announcement(&p, now).unwrap();
    assert_eq!(
        m,
        ControlMessage::Sr {
            ntp_seconds: 3_900_000_000,
            ntp_fraction: 0x4000_0000,
            rtp_timestamp: 777,
            clock_rate: RTP_CLOCK_RATE,
            start_at_ntp_seconds: Some(3_900_000_010 + LEAD_SECONDS),
            start_at_ntp_fraction: Some(0x4000_0000),
        }
    );
    assert_eq!(RTP_CLOCK_RATE, 90_000);
    assert_eq!(LEAD_SECONDS, 5);
    assert_eq!(announcement(&p[..20], now), None);
}

#[test]
fn announce_stamps_with_the_clock() {
    let p = sender_report(1, 2, 3);
    let before = ntp_now().unwrap();
    let m = announce(&p).unwrap();
    let after = ntp_now().unwrap();
    match m {
        ControlMessage::Sr { start_at_ntp_seconds: Some(s), start_at_ntp_fraction: Some(f), .. } => {
            assert!(s >= before.seconds + LEAD_SECONDS && s <= after.seconds + LEAD_SECONDS);
            assert_eq!(f, 2);
        }
        _ => panic!("not an announcement"),
    }
    assert_eq!(announce(&[0u8; 4]), None);
}

#[test]
fn receiver_args_report_their_ports() {
    let a = ReceiverArgs::new(5004, "autovideosink".to_string(), "127.0.0.1:9000".to_string());
    assert_eq!(a.port(), 5004);
    assert_eq!(a.rtcp_port(), Some(5005));
    assert_eq!(a.display_sink(), "autovideosink");
    assert_eq!(a.control_addr(), "127.0.0.1:9000");
    assert_eq!(ReceiverArgs::new(65_535, String::new(), String::new()).rtcp_port(), None);
}

#[test]
fn logging_without_a_backend_is_harmless() {
    log_info("info");
    log_warn("warn");
    log_error("error");
}

#[test]
fn two_receivers_start_together_two_seconds_after_the_announcement() {
    let enqueued_at = NtpTimestamp::new(3_950_000_000, 0);
    let start = enqueued_at.add_seconds(2).unwrap();
    let mut server: ControlServer<usize> = ControlServer::new();
    server.accept(0);
    server.accept(1);
    let sr = sr_message(Some(start));
    server.enqueue(sr);

    let mut inbox: Vec<Vec<ControlMessage>> = vec![Vec::new(), Vec::new()];
    let batch = server.pending().clone();
    for &c in server.clients() {
        inbox[c].extend(batch.iter().copied());
    }
    server.finish_broadcast(&vec![false, false]);
    let hb = ControlMessage::heartbeat(enqueued_at);
    for &c in server.clients() {
        inbox[c].push(hb);
    }
    server.finish_heartbeat(&vec![false, false]);
    assert_eq!(inbox[0], vec![sr, hb]);
    assert_eq!(inbox[1], vec![sr, hb]);

    let mut receivers = vec![ReceiverState::new(), ReceiverState::new()];
    for (r, msgs) in receivers.iter_mut().zip(inbox.iter()) {
        r.prerolled();
        for m in msgs {
            r.on_message(m);
        }
    }
    let step = (1u64 << 32) / 16;
    let mut started_after: Vec<Option<u64>> = vec![None, None];
    for tick in 0..48u64 {
        let units = enqueued_at.fraction as u64 + tick * step;
        let now = NtpTimestamp::new(enqueued_at.seconds + units / (1u64 << 32), (units % (1u64 << 32)) as u32);
        for (i, r) in receivers.iter_mut().enumerate() {
            if r.poll(now) {
                started_after[i] = Some(tick * 62_500);
            }
        }
    }
    // polled every 62.5 ms: both start at the first poll 2.0 s after the enqueue
    assert_eq!(started_after, vec![Some(2_000_000), Some(2_000_000)]);
    assert!(receivers.iter().all(|r| r.phase == Phase::Playing));
}

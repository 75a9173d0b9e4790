use uplink::config::{Config, Persistence, StreamConfig};
use uplink::error::Error;
use uplink::metrics::Metrics;
use uplink::mqtt::{Publish, QoS};
use uplink::serializer::{
    copy_of, get_payload, read_from_storage, write_to_storage, Action, Event, Flushed, Loaded,
    Sent, Serializer, Status, Storage, Tried,
};
use uplink::stream::{Buffer, Package, Payload};

fn config(persistent: bool) -> Config {
    Config {
        project_id: "demo".to_string(),
        device_id: "42".to_string(),
        bridge_port: 5555,
        max_packet_size: 1024 * 1024,
        flush_period: Some(2),
        streams: vec![
            ("metrics".to_string(), StreamConfig { topic: "m/topic".to_string(), buf_size: 1 }),
            ("gps".to_string(), StreamConfig { topic: "t/gps".to_string(), buf_size: 10 }),
        ],
        persistence: if persistent {
            Some(Persistence {
                path: "/tmp/uplink".to_string(),
                max_file_size: 1024,
                max_file_count: 3,
            })
        } else {
            None
        },
    }
}

fn package(topic: &str, first: u32, count: u32) -> Buffer<Payload> {
    let mut batch = Buffer::new("gps".to_string(), topic.to_string(), 100);
    for k in 0..count {
        batch.buffer.push(Payload {
            stream: "gps".to_string(),
            sequence: first + k,
            timestamp: 10 * (first + k) as u64,
            payload: b"{\"lat\":1}".to_vec(),
        });
    }
    batch
}

fn outgoing(batch: &Buffer<Payload>) -> Publish {
    Publish::new(batch.topic.clone(), QoS::AtLeastOnce, batch.serialize())
}

fn spooled(batch: &Buffer<Payload>) -> Publish {
    let mut publish = outgoing(batch);
    publish.pkid = 1;
    publish
}

fn normal_serializer() -> Serializer {
    let mut serializer = Serializer::new(&config(true)).unwrap();
    assert_eq!(serializer.start(), Action::Load);
    assert_eq!(*serializer.status(), Status::EventLoopReady);
    let action = serializer.handle::<Buffer<Payload>>(Event::Loaded(Loaded::Eof)).unwrap();
    assert_eq!(action, Action::Wait);
    assert_eq!(*serializer.status(), Status::Normal);
    serializer
}

#[test]
fn serializer_needs_metrics_stream() {
    let mut config = config(true);
    config.streams.remove(0);
    assert_eq!(Serializer::new(&config).err(), Some(Error::MissingMetrics));
}

#[test]
fn serializer_reports_on_configured_metrics_topic() {
    let serializer = Serializer::new(&config(false)).unwrap();
    assert_eq!(serializer.metrics().topic(), "m/topic");
    assert!(!serializer.persistent());
    assert!(Serializer::new(&config(true)).unwrap().persistent());
}

#[test]
fn get_payload_takes_topic_size_and_bytes_and_notes_anomalies() {
    let mut metrics = Metrics::new("m");
    let mut batch = package("t/gps", 1, 2);
    batch.anomalies = "gps.sequence: 2, 1".to_string();
    batch.anomaly_count = 3;
    let (topic, size, payload) = get_payload(&batch, &mut metrics);
    assert_eq!(topic, "t/gps");
    assert_eq!(payload, batch.serialize());
    assert_eq!(size, payload.len());
    assert_eq!(metrics.errors(), "gps.sequence: 2, 1 | ");
    assert_eq!(metrics.error_count(), 3);
}

#[test]
fn write_to_storage_encodes_publish_with_qos1_and_pkid1() {
    let mut metrics = Metrics::new("m");
    let storage = Some(Storage::new());
    let batch: Buffer<Payload> = Buffer::new("s".to_string(), "a/b".to_string(), 10);
    let bytes = write_to_storage(&batch, &mut metrics, &storage).unwrap().unwrap();
    assert_eq!(bytes, vec![0x32, 9, 0, 3, b'a', b'/', b'b', 0, 1, b'[', b']']);
    assert_eq!(metrics.total_disk_size(), 2);
}

#[test]
fn write_to_storage_uses_multi_byte_length_for_large_payload() {
    let mut metrics = Metrics::new("m");
    let storage = Some(Storage::new());
    let batch = package("a/b", 1, 10);
    let payload = batch.serialize();
    let body = 2 + 3 + 2 + payload.len();
    assert!(body >= 128 && body < 16_384);
    let bytes = write_to_storage(&batch, &mut metrics, &storage).unwrap().unwrap();
    assert_eq!(bytes[0], 0x32);
    assert_eq!(bytes[1], (body % 128) as u8 | 0x80);
    assert_eq!(bytes[2], (body / 128) as u8);
    assert_eq!(&bytes[3..10], &[0, 3, b'a', b'/', b'b', 0, 1]);
    assert_eq!(&bytes[10..], &payload[..]);
    assert_eq!(metrics.total_disk_size(), payload.len());
}

#[test]
fn write_to_storage_without_spool_fails() {
    let mut metrics = Metrics::new("m");
    let mut batch = package("t", 1, 1);
    batch.anomalies = "x".to_string();
    batch.anomaly_count = 1;
    assert_eq!(write_to_storage(&batch, &mut metrics, &None), Err(Error::MissingPersistence));
    assert_eq!(metrics.error_count(), 0);
    assert_eq!(metrics.total_disk_size(), 0);
}

#[test]
fn read_from_storage_without_spool_fails() {
    assert_eq!(read_from_storage(&mut None, 100), Err(Error::MissingPersistence));
}

#[test]
fn written_package_is_read_back_as_equal_publish() {
    let mut metrics = Metrics::new("m");
    let mut storage = Some(Storage::new());
    let first = package("t/gps", 1, 3);
    let second = package("t/imu", 4, 1);
    let mut segment = write_to_storage(&first, &mut metrics, &storage).unwrap().unwrap();
    segment.extend(write_to_storage(&second, &mut metrics, &storage).unwrap().unwrap());
    storage.as_mut().unwrap().load(segment);
    let read = read_from_storage(&mut storage, 1024).unwrap().unwrap();
    assert_eq!(read.topic, "t/gps");
    assert_eq!(read.payload, first.serialize());
    assert_eq!(read.qos, QoS::AtLeastOnce);
    assert_eq!(read, spooled(&first));
    let read = read_from_storage(&mut storage, 1024).unwrap().unwrap();
    assert_eq!(read, spooled(&second));
    assert_eq!(storage.as_ref().unwrap().unread(), 0);
    assert_eq!(read_from_storage(&mut storage, 1024), Ok(None));
}

#[test]
fn read_from_storage_respects_max_packet_size_and_rejects_garbage() {
    let mut metrics = Metrics::new("m");
    let mut storage = Some(Storage::new());
    let bytes = write_to_storage(&package("t", 1, 5), &mut metrics, &storage).unwrap().unwrap();
    storage.as_mut().unwrap().load(bytes);
    assert_eq!(read_from_storage(&mut storage, 4), Ok(None));
    storage.as_mut().unwrap().load(vec![0xc0, 0x00]);
    assert_eq!(read_from_storage(&mut storage, 1024), Ok(None));
    storage.as_mut().unwrap().load(vec![0x32]);
    assert_eq!(read_from_storage(&mut storage, 1024), Ok(None));
    assert_eq!(storage.as_ref().unwrap().unread(), 1);
}

#[test]
fn copy_of_publish_is_equal() {
    let publish = spooled(&package("t", 1, 2));
    assert_eq!(copy_of(&publish), publish);
}

#[test]
fn direct_mode_publishes_and_counts_each_package() {
    let mut serializer = Serializer::new(&config(false)).unwrap();
    assert_eq!(serializer.start(), Action::Wait);
    let batch = package("t/gps", 1, 2);
    let size = batch.serialize().len();
    let action = serializer.handle(Event::Data(package("t/gps", 1, 2))).unwrap();
    assert_eq!(action, Action::Send(outgoing(&batch)));
    assert_eq!(serializer.metrics().total_sent_size(), 0);
    let action = serializer.handle::<Buffer<Payload>>(Event::Sent(Sent::Delivered)).unwrap();
    assert_eq!(action, Action::Wait);
    assert_eq!(serializer.metrics().total_sent_size(), size);
    assert_eq!(*serializer.status(), Status::Normal);
}

#[test]
fn direct_mode_publishes_metrics_on_tick() {
    let mut serializer = Serializer::new(&config(false)).unwrap();
    serializer.start();
    let action = serializer.handle::<Buffer<Payload>>(Event::Tick(5_000)).unwrap();
    let Action::Send(publish) = action else { panic!("no publish") };
    assert_eq!(publish.topic, "m/topic");
    assert_eq!(publish.qos, QoS::AtLeastOnce);
    assert!(!publish.retain);
    let parsed: serde_json::Value = serde_json::from_slice(&publish.payload).unwrap();
    assert_eq!(parsed[0]["timestamp"].as_u64(), Some(5_000));
    assert_eq!(parsed[0]["sequence"].as_u64(), Some(1));
    serializer.handle::<Buffer<Payload>>(Event::Sent(Sent::Delivered)).unwrap();
    assert_eq!(serializer.metrics().total_sent_size(), publish.payload.len());
}

#[test]
fn direct_mode_fails_on_any_client_error() {
    for sent in [Sent::Failed, Sent::Reclaimed(spooled(&package("t", 1, 1)))] {
        let mut serializer = Serializer::new(&config(false)).unwrap();
        serializer.start();
        serializer.handle(Event::Data(package("t", 1, 1))).unwrap();
        let outcome = serializer.handle::<Buffer<Payload>>(Event::Sent(sent));
        assert_eq!(outcome, Err(Error::Client));
    }
}

#[test]
fn closed_collector_is_fatal_in_every_mode() {
    let mut direct = Serializer::new(&config(false)).unwrap();
    direct.start();
    assert_eq!(direct.handle::<Buffer<Payload>>(Event::Closed), Err(Error::Collector));
    let mut ready = Serializer::new(&config(true)).unwrap();
    ready.start();
    assert_eq!(ready.handle::<Buffer<Payload>>(Event::Closed), Err(Error::Collector));
    let mut normal = normal_serializer();
    assert_eq!(normal.handle::<Buffer<Payload>>(Event::Closed), Err(Error::Collector));
    normal.handle(Event::Data(package("t", 1, 1))).unwrap();
    let full = Tried::Full(outgoing(&package("t", 1, 1)));
    normal.handle::<Buffer<Payload>>(Event::Tried(full)).unwrap();
    assert_eq!(normal.handle::<Buffer<Payload>>(Event::Closed), Err(Error::Collector));
}

#[test]
fn normal_mode_fails_on_other_client_error() {
    let mut serializer = normal_serializer();
    serializer.handle(Event::Data(package("t", 1, 1))).unwrap();
    let outcome = serializer.handle::<Buffer<Payload>>(Event::Tried(Tried::Failed));
    assert_eq!(outcome, Err(Error::Client));
}

#[test]
fn happy_path_keeps_spool_untouched() {
    let mut serializer = normal_serializer();
    let mut published = Vec::new();
    let mut expected_size = 0;
    for k in 0..14u32 {
        let batch = package("t/gps", 10 * k, 1 + k % 3);
        expected_size += batch.serialize().len();
        let action = serializer.handle(Event::Data(package("t/gps", 10 * k, 1 + k % 3))).unwrap();
        assert_eq!(action, Action::TryPublish(outgoing(&batch)));
        published.push(action);
        let action = serializer.handle::<Buffer<Payload>>(Event::Tried(Tried::Accepted)).unwrap();
        assert_eq!(action, Action::Wait);
        assert_eq!(*serializer.status(), Status::Normal);
    }
    assert_eq!(published.len(), 14);
    assert_eq!(serializer.metrics().total_disk_size(), 0);
    assert_eq!(serializer.metrics().total_sent_size(), expected_size);
}

#[test]
fn backpressure_spills_to_disk_and_catches_up() {
    let mut serializer = normal_serializer();
    for k in 0..3u32 {
        serializer.handle(Event::Data(package("t/gps", k, 1))).unwrap();
        serializer.handle::<Buffer<Payload>>(Event::Tried(Tried::Accepted)).unwrap();
    }
    let sent_before = serializer.metrics().total_sent_size();
    let stalled = package("t/gps", 3, 1);
    let action = serializer.handle(Event::Data(package("t/gps", 3, 1))).unwrap();
    assert_eq!(action, Action::TryPublish(outgoing(&stalled)));
    let full = Tried::Full(outgoing(&stalled));
    let action = serializer.handle::<Buffer<Payload>>(Event::Tried(full)).unwrap();
    assert_eq!(action, Action::Publish(outgoing(&stalled)));
    assert_eq!(*serializer.status(), Status::SlowEventloop(outgoing(&stalled)));
    assert_eq!(serializer.metrics().total_sent_size(), sent_before);

    let mut spool = Vec::new();
    let mut spilled = Vec::new();
    let mut spilled_size = 0;
    for k in 4..9u32 {
        let batch = package("t/gps", k, 2);
        spilled_size += batch.serialize().len();
        let action = serializer.handle(Event::Data(package("t/gps", k, 2))).unwrap();
        let Action::Write(bytes) = action else { panic!("not written") };
        spool.extend(bytes);
        spilled.push(spooled(&batch));
        let action = serializer.handle::<Buffer<Payload>>(Event::Written(Flushed::Kept)).unwrap();
        assert_eq!(action, Action::Wait);
        assert_eq!(*serializer.status(), Status::SlowEventloop(outgoing(&stalled)));
    }
    assert_eq!(serializer.metrics().total_disk_size(), spilled_size);
    // ticks are not answered while the client is slow
    assert_eq!(serializer.handle::<Buffer<Payload>>(Event::Tick(1)).unwrap(), Action::Wait);
    assert_eq!(serializer.metrics().sequence(), 0);

    let action = serializer.handle::<Buffer<Payload>>(Event::Sent(Sent::Delivered)).unwrap();
    assert_eq!(action, Action::Load);
    assert_eq!(*serializer.status(), Status::EventLoopReady);
    let mut action =
        serializer.handle::<Buffer<Payload>>(Event::Loaded(Loaded::Segment(spool))).unwrap();
    for publish in spilled {
        assert_eq!(action, Action::Publish(publish));
        assert_eq!(*serializer.status(), Status::EventLoopReady);
        action = serializer.handle::<Buffer<Payload>>(Event::Sent(Sent::Delivered)).unwrap();
    }
    assert_eq!(action, Action::Load);
    let action = serializer.handle::<Buffer<Payload>>(Event::Loaded(Loaded::Eof)).unwrap();
    assert_eq!(action, Action::Wait);
    assert_eq!(*serializer.status(), Status::Normal);
    assert_eq!(serializer.metrics().total_disk_size(), 0);
    assert_eq!(serializer.metrics().total_sent_size(), sent_before + spilled_size);
}

#[test]
fn catchup_drains_spool_in_order() {
    let mut metrics = Metrics::new("m");
    let storage = Some(Storage::new());
    let mut segment = Vec::new();
    let mut expected = Vec::new();
    let mut total = 0;
    for k in 0..50u32 {
        let batch = package("t/gps", k, 1 + k % 4);
        total += batch.serialize().len();
        segment.extend(write_to_storage(&batch, &mut metrics, &storage).unwrap().unwrap());
        expected.push(spooled(&batch));
    }
    let mut serializer = Serializer::new(&config(true)).unwrap();
    assert_eq!(serializer.start(), Action::Load);
    let mut action =
        serializer.handle::<Buffer<Payload>>(Event::Loaded(Loaded::Segment(segment))).unwrap();
    let mut published = 0;
    for publish in expected {
        assert_eq!(action, Action::Publish(publish));
        published += 1;
        action = serializer.handle::<Buffer<Payload>>(Event::Sent(Sent::Delivered)).unwrap();
    }
    assert_eq!(published, 50);
    assert_eq!(action, Action::Load);
    assert_eq!(*serializer.status(), Status::EventLoopReady);
    serializer.handle::<Buffer<Payload>>(Event::Loaded(Loaded::Eof)).unwrap();
    assert_eq!(*serializer.status(), Status::Normal);
    assert_eq!(serializer.metrics().total_sent_size(), total);
    assert_eq!(serializer.metrics().total_disk_size(), 0);
}

#[test]
fn catchup_spills_new_packages_while_draining() {
    let mut metrics = Metrics::new("m");
    let storage = Some(Storage::new());
    let old = package("t/gps", 1, 1);
    let segment = write_to_storage(&old, &mut metrics, &storage).unwrap().unwrap();
    let mut serializer = Serializer::new(&config(true)).unwrap();
    serializer.start();
    let action =
        serializer.handle::<Buffer<Payload>>(Event::Loaded(Loaded::Segment(segment))).unwrap();
    assert_eq!(action, Action::Publish(spooled(&old)));
    let fresh = package("t/gps", 2, 1);
    let action = serializer.handle(Event::Data(package("t/gps", 2, 1))).unwrap();
    let expected = write_to_storage(&fresh, &mut metrics, &storage).unwrap().unwrap();
    assert_eq!(action, Action::Write(expected));
    assert_eq!(serializer.metrics().total_disk_size(), fresh.serialize().len());
    let action = serializer.handle::<Buffer<Payload>>(Event::Written(Flushed::Evicted)).unwrap();
    assert_eq!(action, Action::Wait);
    assert_eq!(serializer.metrics().lost_segments(), 1);
    serializer.handle::<Buffer<Payload>>(Event::Written(Flushed::Failed)).unwrap();
    assert_eq!(serializer.metrics().lost_segments(), 1);
    assert_eq!(*serializer.status(), Status::EventLoopReady);
}

#[test]
fn spool_failure_forces_normal_mode() {
    let mut serializer = Serializer::new(&config(true)).unwrap();
    serializer.start();
    let action = serializer.handle::<Buffer<Payload>>(Event::Loaded(Loaded::Failed)).unwrap();
    assert_eq!(action, Action::Wait);
    assert_eq!(*serializer.status(), Status::Normal);

    let mut serializer = Serializer::new(&config(true)).unwrap();
    serializer.start();
    let garbage = Loaded::Segment(vec![0xff, 0xff, 0xff, 0xff, 0xff, 0xff]);
    let action = serializer.handle::<Buffer<Payload>>(Event::Loaded(garbage)).unwrap();
    assert_eq!(action, Action::Wait);
    assert_eq!(*serializer.status(), Status::Normal);
}

#[test]
fn crash_keeps_writing_to_disk() {
    let mut metrics = Metrics::new("m");
    let storage = Some(Storage::new());
    let old = package("t/gps", 1, 1);
    let segment = write_to_storage(&old, &mut metrics, &storage).unwrap().unwrap();
    let mut serializer = Serializer::new(&config(true)).unwrap();
    serializer.start();
    serializer.handle::<Buffer<Payload>>(Event::Loaded(Loaded::Segment(segment))).unwrap();
    let mut reclaimed = outgoing(&old);
    reclaimed.pkid = 9;
    let crashed = Status::EventLoopCrash(copy_of(&reclaimed));
    let action =
        serializer.handle::<Buffer<Payload>>(Event::Sent(Sent::Reclaimed(reclaimed))).unwrap();
    assert_eq!(action, Action::Wait);
    assert_eq!(*serializer.status(), crashed);
    for k in 0..20u32 {
        let batch = package("t/gps", 100 + k, 1);
        let action = serializer.handle(Event::Data(package("t/gps", 100 + k, 1))).unwrap();
        let expected = write_to_storage(&batch, &mut metrics, &storage).unwrap().unwrap();
        assert_eq!(action, Action::Write(expected));
        let told = if k % 2 == 0 { Flushed::Failed } else { Flushed::Evicted };
        assert_eq!(
            serializer.handle::<Buffer<Payload>>(Event::Written(told)).unwrap(),
            Action::Wait
        );
        assert_eq!(*serializer.status(), crashed);
    }
    assert_eq!(serializer.metrics().lost_segments(), 10);
    for event in [
        Event::Tick(1),
        Event::Tried(Tried::Failed),
        Event::Sent(Sent::Failed),
        Event::Sent(Sent::Delivered),
        Event::Loaded(Loaded::Failed),
    ] {
        assert_eq!(serializer.handle::<Buffer<Payload>>(event).unwrap(), Action::Wait);
        assert_eq!(*serializer.status(), crashed);
    }
    assert_eq!(serializer.metrics().total_sent_size(), 0);
}

#[test]
fn catchup_fails_on_other_client_error() {
    let mut serializer = Serializer::new(&config(true)).unwrap();
    serializer.start();
    let outcome = serializer.handle::<Buffer<Payload>>(Event::Sent(Sent::Failed));
    assert_eq!(outcome, Err(Error::Client));
}

#[test]
fn slow_mode_fails_when_stalled_publish_fails() {
    for sent in [Sent::Failed, Sent::Reclaimed(outgoing(&package("t", 1, 1)))] {
        let mut serializer = normal_serializer();
        serializer.handle(Event::Data(package("t", 1, 1))).unwrap();
        let full = Tried::Full(outgoing(&package("t", 1, 1)));
        serializer.handle::<Buffer<Payload>>(Event::Tried(full)).unwrap();
        let outcome = serializer.handle::<Buffer<Payload>>(Event::Sent(sent));
        assert_eq!(outcome, Err(Error::Client));
    }
}

#[test]
fn mode_handlers_can_be_called_directly() {
    let mut serializer = normal_serializer();
    let batch = package("t", 1, 1);
    let action = serializer.normal(Event::Data(package("t", 1, 1))).unwrap();
    assert_eq!(action, Action::TryPublish(outgoing(&batch)));
    let full = Tried::Full(outgoing(&batch));
    assert_eq!(
        serializer.normal::<Buffer<Payload>>(Event::Tried(full)).unwrap(),
        Action::Publish(outgoing(&batch))
    );
    let Action::Write(bytes) = serializer.disk(Event::Data(package("t", 2, 1))).unwrap() else {
        panic!("not written")
    };
    assert_eq!(
        serializer.disk::<Buffer<Payload>>(Event::Sent(Sent::Delivered)).unwrap(),
        Action::Load
    );
    let loaded = Event::Loaded(Loaded::Segment(bytes));
    assert_eq!(
        serializer.catchup::<Buffer<Payload>>(loaded).unwrap(),
        Action::Publish(spooled(&package("t", 2, 1)))
    );
    let reclaimed = Event::Sent(Sent::Reclaimed(spooled(&package("t", 2, 1))));
    serializer.catchup::<Buffer<Payload>>(reclaimed).unwrap();
    assert!(matches!(serializer.crash(Event::Data(package("t", 3, 1))).unwrap(), Action::Write(_)));
    let mut direct = Serializer::new(&config(false)).unwrap();
    assert_eq!(
        direct.direct(Event::Data(package("t", 1, 1))).unwrap(),
        Action::Send(outgoing(&batch))
    );
}

#[test]
fn normal_mode_reports_metrics_on_tick() {
    let mut serializer = normal_serializer();
    let mut batch = package("t", 1, 1);
    batch.anomalies = "late".to_string();
    batch.anomaly_count = 1;
    let mut same = package("t", 1, 1);
    same.anomalies = "late".to_string();
    same.anomaly_count = 1;
    serializer.handle(Event::Data(batch)).unwrap();
    serializer.handle::<Buffer<Payload>>(Event::Tried(Tried::Accepted)).unwrap();
    let sent = same.serialize().len();
    let action = serializer.handle::<Buffer<Payload>>(Event::Tick(123)).unwrap();
    let Action::TryPublish(publish) = action else { panic!("no publish") };
    assert_eq!(publish.topic, "m/topic");
    assert_eq!(
        String::from_utf8(publish.payload.clone()).unwrap(),
        format!(
            "[{{\"sequence\":1,\"timestamp\":123,\"total_sent_size\":{sent},\"total_disk_size\":0,\"lost_segments\":0,\"errors\":\"late | \",\"error_count\":1}}]"
        )
    );
    serializer.handle::<Buffer<Payload>>(Event::Tried(Tried::Accepted)).unwrap();
    assert_eq!(serializer.metrics().total_sent_size(), sent + publish.payload.len());
    assert_eq!(serializer.metrics().errors(), "");
}

#[test]
fn resume_publishes_found_packet_or_turns_normal() {
    let mut serializer = Serializer::new(&config(true)).unwrap();
    serializer.start();
    let packet = spooled(&package("t", 1, 2));
    let action = serializer.resume(Some(spooled(&package("t", 1, 2))));
    assert_eq!(action, Action::Publish(packet));
    assert_eq!(*serializer.status(), Status::EventLoopReady);
    serializer.handle::<Buffer<Payload>>(Event::Sent(Sent::Delivered)).unwrap();
    assert_eq!(serializer.metrics().total_sent_size(), package("t", 1, 2).serialize().len());
    assert_eq!(serializer.resume(None), Action::Wait);
    assert_eq!(*serializer.status(), Status::Normal);
}

#[test]
fn slow_mode_always_hands_over_to_the_drain() {
    // a segment that holds garbage behind its first packet
    let mut metrics = Metrics::new("m");
    let storage = Some(Storage::new());
    let mut segment =
        write_to_storage(&package("t", 1, 1), &mut metrics, &storage).unwrap().unwrap();
    segment.extend([0xff, 0xff, 0xff, 0xff, 0xff, 0x01]);
    let mut serializer = Serializer::new(&config(true)).unwrap();
    serializer.start();
    let action =
        serializer.handle::<Buffer<Payload>>(Event::Loaded(Loaded::Segment(segment))).unwrap();
    assert_eq!(action, Action::Publish(spooled(&package("t", 1, 1))));
    // the garbage ends the drain
    let action = serializer.handle::<Buffer<Payload>>(Event::Sent(Sent::Delivered)).unwrap();
    assert_eq!(action, Action::Wait);
    assert_eq!(*serializer.status(), Status::Normal);
    // the next slow spell ends in the drain, not in normal mode
    serializer.handle(Event::Data(package("t", 2, 1))).unwrap();
    let full = Tried::Full(outgoing(&package("t", 2, 1)));
    serializer.handle::<Buffer<Payload>>(Event::Tried(full)).unwrap();
    let action = serializer.handle::<Buffer<Payload>>(Event::Sent(Sent::Delivered)).unwrap();
    assert_eq!(action, Action::Load);
    assert_eq!(*serializer.status(), Status::EventLoopReady);
    let action = serializer.handle::<Buffer<Payload>>(Event::Loaded(Loaded::Eof)).unwrap();
    assert_eq!(action, Action::Wait);
    assert_eq!(*serializer.status(), Status::Normal);
}

#[test]
fn metrics_report_is_always_there() {
    let mut serializer = normal_serializer();
    for now in [0u64, 1, u64::MAX] {
        let action = serializer.handle::<Buffer<Payload>>(Event::Tick(now)).unwrap();
        assert!(matches!(action, Action::TryPublish(_)));
        serializer.handle::<Buffer<Payload>>(Event::Tried(Tried::Accepted)).unwrap();
    }
    assert_eq!(serializer.metrics().sequence(), 3);
    assert_eq!(serializer.metrics().timestamp(), u64::MAX);
}

#[test]
fn read_back_takes_a_body_of_exactly_the_size_allowed() {
    let mut metrics = Metrics::new("m");
    let mut storage = Some(Storage::new());
    let batch: Buffer<Payload> = Buffer::new("s".to_string(), "a/b".to_string(), 10);
    let written = write_to_storage(&batch, &mut metrics, &storage).unwrap().unwrap();
    assert_eq!(written.len(), 2 + 9);
    let mut segment = written.clone();
    segment.extend([1, 2, 3]);
    storage.as_mut().unwrap().load(segment.clone());
    assert_eq!(read_from_storage(&mut storage, 9), Ok(Some(spooled(&batch))));
    assert_eq!(storage.as_ref().unwrap().unread(), 3);
    storage.as_mut().unwrap().load(segment);
    assert_eq!(read_from_storage(&mut storage, 8), Ok(None));
    assert_eq!(storage.as_ref().unwrap().unread(), 14);
}

use uplink::stream::{Buffer, Package, Payload, Stream, MAX_BUFFER_SIZE};

fn point(stream: &str, sequence: u32, body: &str) -> Payload {
    Payload {
        stream: stream.to_string(),
        sequence,
        timestamp: 1_000 + sequence as u64,
        payload: body.as_bytes().to_vec(),
    }
}

#[test]
fn full_batches_hold_contiguous_points_in_order() {
    let capacity = 3;
    let mut stream: Stream<Payload> = Stream::new("s".to_string(), "t/s".to_string(), capacity);
    let mut emitted = Vec::new();
    for k in 0..10u32 {
        let flushed = stream.fill(point("s", k, "{}"));
        assert_eq!(flushed.is_some(), (k as usize + 1) % capacity == 0);
        if let Some(batch) = flushed {
            emitted.push(batch);
        }
    }
    assert_eq!(emitted.len(), 10 / capacity);
    for (i, batch) in emitted.iter().enumerate() {
        assert_eq!(batch.buffer.len(), capacity);
        assert_eq!(batch.stream, "s");
        assert_eq!(batch.topic, "t/s");
        for (j, p) in batch.buffer.iter().enumerate() {
            assert_eq!(p.sequence as usize, i * capacity + j);
        }
    }
    assert_eq!(stream.len(), 10 % capacity);
}

#[test]
fn fill_returns_batch_exactly_at_capacity() {
    let mut stream: Stream<Payload> = Stream::new("s".to_string(), "t".to_string(), 2);
    assert!(stream.fill(point("s", 1, "{}")).is_none());
    assert_eq!(stream.len(), 1);
    let batch = stream.fill(point("s", 2, "{}")).unwrap();
    assert_eq!(batch.buffer.len(), 2);
    assert_eq!(stream.len(), 0);
    assert!(stream.fill(point("s", 3, "{}")).is_none());
}

#[test]
fn stream_without_capacity_emits_every_point_alone() {
    let mut stream: Stream<Payload> = Stream::new("s".to_string(), "t".to_string(), 0);
    for k in 0..4u32 {
        let batch = stream.fill(point("s", k, "{}")).unwrap();
        assert_eq!(batch.buffer.len(), 1);
        assert_eq!(batch.buffer[0].sequence, k);
    }
}

#[test]
fn flush_emits_partial_batch_and_is_noop_when_empty() {
    let mut stream: Stream<Payload> = Stream::new("s".to_string(), "t".to_string(), 10);
    assert!(stream.flush().is_none());
    stream.fill(point("s", 7, "{}"));
    let batch = stream.flush().unwrap();
    assert_eq!(batch.buffer.len(), 1);
    assert_eq!(batch.buffer[0].sequence, 7);
    assert_eq!(stream.len(), 0);
    assert!(stream.flush().is_none());
}

#[test]
fn dynamic_stream_has_synthesized_topic() {
    let stream: Stream<Payload> = Stream::dynamic("gps", "demo", "42");
    assert_eq!(stream.name(), "gps");
    assert_eq!(stream.topic(), "projects/demo/devices/42/streams/gps");
    assert_eq!(MAX_BUFFER_SIZE, 100);
    assert!(stream.is_named(&"gps".to_string()));
    assert!(!stream.is_named(&"imu".to_string()));
}

#[test]
fn dynamic_stream_emits_at_default_capacity() {
    let mut stream: Stream<Payload> = Stream::dynamic("gps", "demo", "42");
    for k in 0..99u32 {
        assert!(stream.fill(point("gps", k, "{}")).is_none());
    }
    assert_eq!(stream.fill(point("gps", 99, "{}")).unwrap().buffer.len(), 100);
}

#[test]
fn payload_getters() {
    let p = point("s", 5, "{}");
    assert_eq!(p.sequence(), 5);
    assert_eq!(p.timestamp(), 1_005);
}

#[test]
fn batch_serializes_as_json_array_without_stream_name() {
    let mut batch: Buffer<Payload> = Buffer::new("s".to_string(), "t/s".to_string(), 10);
    batch.buffer.push(Payload {
        stream: "s".to_string(),
        sequence: 1,
        timestamp: 2,
        payload: b"{\"a\":1}".to_vec(),
    });
    batch.buffer.push(Payload {
        stream: "s".to_string(),
        sequence: 20,
        timestamp: 18446744073709551615,
        payload: b"{}".to_vec(),
    });
    batch.buffer.push(Payload {
        stream: "s".to_string(),
        sequence: 4294967295,
        timestamp: 0,
        payload: b"{ \"x\" : \"y\" }".to_vec(),
    });
    let bytes = batch.serialize();
    assert_eq!(
        String::from_utf8(bytes.clone()).unwrap(),
        "[{\"sequence\":1,\"timestamp\":2,\"a\":1},{\"sequence\":20,\"timestamp\":18446744073709551615},{\"sequence\":4294967295,\"timestamp\":0, \"x\" : \"y\" }]"
    );
    let parsed: serde_json::Value = serde_json::from_slice(&bytes).unwrap();
    let array = parsed.as_array().unwrap();
    assert_eq!(array.len(), 3);
    assert_eq!(array[0].get("a").unwrap().as_u64(), Some(1));
    assert!(array[0].get("stream").is_none());
    assert_eq!(array[2].get("x").unwrap().as_str(), Some("y"));
    assert_eq!(Package::topic(&batch), "t/s");
}

#[test]
fn empty_batch_serializes_as_empty_array() {
    let batch: Buffer<Payload> = Buffer::new("s".to_string(), "t".to_string(), 10);
    assert_eq!(batch.serialize(), b"[]".to_vec());
}

#[test]
fn body_that_is_blank_or_no_object_adds_no_fields() {
    let mut batch: Buffer<Payload> = Buffer::new("s".to_string(), "t".to_string(), 10);
    for body in ["{ \t\r\n}", "", "7", "{", "[1]"] {
        batch.buffer.push(Payload {
            stream: "s".to_string(),
            sequence: 1,
            timestamp: 2,
            payload: body.as_bytes().to_vec(),
        });
    }
    let one = "{\"sequence\":1,\"timestamp\":2}";
    let expected = format!("[{one},{one},{one},{one},{one}]");
    assert_eq!(String::from_utf8(batch.serialize()).unwrap(), expected);
}

#[test]
fn anomalies_are_reported_only_when_noted() {
    let mut batch: Buffer<Payload> = Buffer::new("s".to_string(), "t".to_string(), 10);
    assert_eq!(Buffer::anomalies(&batch), None);
    batch.anomalies = "s.sequence: 3, 2".to_string();
    batch.anomaly_count = 4;
    assert_eq!(Buffer::anomalies(&batch), Some(("s.sequence: 3, 2".to_string(), 4)));
    assert_eq!(Package::anomalies(&batch), Some(("s.sequence: 3, 2".to_string(), 4)));
}

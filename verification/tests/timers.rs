use std::future::poll_fn;
use std::task::Poll;
use std::time::Duration;
use uplink::bridge::{Bridge, Collected, ACTION_TIMEOUT};
use uplink::config::{Config, Persistence, StreamConfig};
use uplink::delay::{DelayMap, Expiry, MAX_ENTRIES, MAX_PERIOD};
use uplink::handler::{Flush, Handled, StreamHandler, DEFAULT_FLUSH_PERIOD, MAX_STREAMS};
use uplink::serializer::{Action, Event, Loaded, Serializer, Status, Tried};
use uplink::stream::{Buffer, Payload, Stream};

fn runtime() -> tokio::runtime::Runtime {
    tokio::runtime::Builder::new_current_thread().enable_time().start_paused(true).build().unwrap()
}

async fn wait(millis: u64) {
    tokio::time::sleep(Duration::from_millis(millis)).await;
}

async fn poll_map(map: &mut DelayMap) -> Expiry {
    poll_fn(|cx| Poll::Ready(map.next(cx))).await
}

async fn poll_handler(handler: &mut StreamHandler) -> Flush {
    poll_fn(|cx| Poll::Ready(handler.next(cx))).await
}

fn fired(expiry: Expiry) -> Option<String> {
    match expiry {
        Expiry::Expired(item) => Some(item),
        _ => None,
    }
}

fn config(streams: &[(&str, usize)], flush_period: Option<u64>) -> Config {
    Config {
        project_id: "demo".to_string(),
        device_id: "42".to_string(),
        bridge_port: 5555,
        max_packet_size: 1024,
        flush_period,
        streams: streams
            .iter()
            .map(|(name, size)| {
                (name.to_string(), StreamConfig { topic: format!("t/{name}"), buf_size: *size })
            })
            .collect(),
        persistence: None,
    }
}

fn answers(capacity: usize) -> Stream<Payload> {
    Stream::new("action_status".to_string(), "t/action_status".to_string(), capacity)
}

fn point(stream: &str, sequence: u32) -> Payload {
    Payload {
        stream: stream.to_string(),
        sequence,
        timestamp: sequence as u64,
        payload: b"{}".to_vec(),
    }
}

#[test]
fn delay_map_limits() {
    assert_eq!(MAX_ENTRIES, (1 << 30) - 1);
    assert_eq!(MAX_PERIOD, (1 << 35) - 1);
    assert_eq!(DEFAULT_FLUSH_PERIOD, 10);
    assert_eq!(MAX_STREAMS, 20);
    assert_eq!(ACTION_TIMEOUT, 10);
}

#[test]
fn new_delay_map_is_empty() {
    let map = DelayMap::new();
    assert!(map.is_empty());
    assert!(!map.contains("a"));
}

#[test]
fn delay_map_is_empty_exactly_without_keys() {
    runtime().block_on(async {
        let mut map = DelayMap::new();
        map.insert("a".to_string(), 100);
        assert!(!map.is_empty());
        assert!(map.contains("a"));
        map.insert("b".to_string(), 100);
        map.remove("a");
        assert!(!map.is_empty());
        map.remove("b");
        assert!(map.is_empty());
        map.remove("b");
        assert!(map.is_empty());
        assert!(matches!(poll_map(&mut map).await, Expiry::Idle));
    });
}

#[test]
fn delay_map_update_follows_rule_table() {
    runtime().block_on(async {
        let mut map = DelayMap::new();
        assert!(!map.update("a", 100, true));
        assert!(map.is_empty());
        assert!(map.update("a", 100, false));
        assert!(map.contains("a"));
        assert!(map.update("a", 100, false));
        assert!(map.contains("a"));
        assert!(map.update("a", 100, true));
        assert!(!map.contains("a"));
        assert!(map.is_empty());
    });
}

#[test]
fn delay_map_fires_earliest_first_and_forgets_it() {
    runtime().block_on(async {
        let mut map = DelayMap::new();
        map.insert("late".to_string(), 300);
        map.insert("early".to_string(), 100);
        assert!(matches!(poll_map(&mut map).await, Expiry::Pending));
        wait(150).await;
        assert_eq!(fired(poll_map(&mut map).await), Some("early".to_string()));
        assert!(!map.contains("early"));
        assert!(map.contains("late"));
        assert!(matches!(poll_map(&mut map).await, Expiry::Pending));
        wait(200).await;
        assert_eq!(fired(poll_map(&mut map).await), Some("late".to_string()));
        assert!(map.is_empty());
        assert!(matches!(poll_map(&mut map).await, Expiry::Idle));
    });
}

#[test]
fn removed_key_never_fires() {
    runtime().block_on(async {
        let mut map = DelayMap::new();
        map.insert("a".to_string(), 100);
        map.insert("b".to_string(), 200);
        map.remove("a");
        wait(1_000).await;
        assert_eq!(fired(poll_map(&mut map).await), Some("b".to_string()));
        assert!(matches!(poll_map(&mut map).await, Expiry::Idle));
        map.insert("c".to_string(), 100);
        wait(1_000).await;
        map.remove("c");
        assert!(matches!(poll_map(&mut map).await, Expiry::Idle));
    });
}

#[test]
fn reset_moves_deadline_and_keeps_key() {
    runtime().block_on(async {
        let mut map = DelayMap::new();
        map.insert("a".to_string(), 1_000);
        wait(600).await;
        map.reset("a", 1_000);
        assert!(map.contains("a"));
        wait(600).await;
        assert!(matches!(poll_map(&mut map).await, Expiry::Pending));
        wait(500).await;
        assert_eq!(fired(poll_map(&mut map).await), Some("a".to_string()));
        map.reset("missing", 10);
        assert!(map.is_empty());
    });
}

#[test]
fn handler_creates_configured_streams_once() {
    let handler = StreamHandler::new(&config(&[("a", 3), ("b", 5), ("a", 7)], None));
    assert_eq!(handler.len(), 2);
    assert!(handler.is_empty());
    let a = handler.stream(&"a".to_string()).unwrap();
    assert_eq!(a.topic(), "t/a");
    assert_eq!(a.len(), 0);
    assert!(handler.stream(&"c".to_string()).is_none());
}

#[test]
fn handler_batches_and_keeps_timers() {
    runtime().block_on(async {
        let mut handler = StreamHandler::new(&config(&[("a", 2)], Some(2)));
        assert!(matches!(handler.handle_data(point("a", 1)), Handled::Buffered));
        assert!(!handler.is_empty());
        let Handled::Flushed(batch, timed) = handler.handle_data(point("a", 2)) else {
            panic!("not flushed")
        };
        assert!(timed);
        assert_eq!(batch.topic, "t/a");
        assert_eq!(batch.buffer, vec![point("a", 1), point("a", 2)]);
        assert!(handler.is_empty());
        wait(5_000).await;
        assert!(matches!(poll_handler(&mut handler).await, Flush::Idle));
    });
}

#[test]
fn stream_of_capacity_one_flushes_without_timer() {
    runtime().block_on(async {
        let mut handler = StreamHandler::new(&config(&[("a", 1)], Some(2)));
        let Handled::Flushed(batch, timed) = handler.handle_data(point("a", 1)) else {
            panic!("not flushed")
        };
        assert!(!timed);
        assert_eq!(batch.buffer.len(), 1);
        assert!(handler.is_empty());
    });
}

#[test]
fn stream_flush_timeout() {
    runtime().block_on(async {
        let mut handler = StreamHandler::new(&config(&[("a", 10)], Some(2)));
        assert!(matches!(handler.handle_data(point("a", 1)), Handled::Buffered));
        assert!(matches!(poll_handler(&mut handler).await, Flush::Pending));
        wait(2_500).await;
        let Flush::Done(name, Some(batch)) = poll_handler(&mut handler).await else {
            panic!("not flushed")
        };
        assert_eq!(name, "a");
        assert_eq!(batch.buffer, vec![point("a", 1)]);
        assert!(handler.is_empty());
        assert!(matches!(poll_handler(&mut handler).await, Flush::Idle));
        assert_eq!(handler.stream(&"a".to_string()).unwrap().len(), 0);
    });
}

#[test]
fn every_point_restarts_the_flush_period() {
    runtime().block_on(async {
        let mut handler = StreamHandler::new(&config(&[("a", 10)], Some(2)));
        handler.handle_data(point("a", 1));
        wait(1_500).await;
        handler.handle_data(point("a", 2));
        wait(1_500).await;
        assert!(matches!(poll_handler(&mut handler).await, Flush::Pending));
        wait(1_000).await;
        let Flush::Done(_, Some(batch)) = poll_handler(&mut handler).await else {
            panic!("not flushed")
        };
        assert_eq!(batch.buffer.len(), 2);
    });
}

#[test]
fn default_flush_period_is_ten_seconds() {
    runtime().block_on(async {
        let mut handler = StreamHandler::new(&config(&[("a", 10)], None));
        handler.handle_data(point("a", 1));
        wait(9_000).await;
        assert!(matches!(poll_handler(&mut handler).await, Flush::Pending));
        wait(1_500).await;
        assert!(matches!(poll_handler(&mut handler).await, Flush::Done(_, Some(_))));
    });
}

#[test]
fn dynamic_stream_cap() {
    runtime().block_on(async {
        let mut handler = StreamHandler::new(&config(&[], Some(2)));
        for k in 0..25u32 {
            let name = format!("s{k}");
            let handled = handler.handle_data(point(&name, k));
            if k < 20 {
                assert!(matches!(handled, Handled::Buffered));
                let stream = handler.stream(&name).unwrap();
                assert_eq!(stream.topic(), format!("projects/demo/devices/42/streams/s{k}"));
                assert_eq!(stream.len(), 1);
            } else {
                assert!(matches!(handled, Handled::Dropped));
                assert!(handler.stream(&name).is_none());
            }
            assert!(handler.len() <= 20);
        }
        assert_eq!(handler.len(), 20);
        assert!(matches!(handler.handle_data(point("s3", 99)), Handled::Buffered));
        assert_eq!(handler.stream(&"s3".to_string()).unwrap().len(), 2);
    });
}

#[test]
fn happy_path() {
    runtime().block_on(async {
        let mut streams = config(&[("a", 10), ("b", 5), ("c", 20)], Some(2));
        streams.streams.push((
            "metrics".to_string(),
            StreamConfig { topic: "t/metrics".to_string(), buf_size: 1 },
        ));
        streams.persistence = Some(Persistence {
            path: "/tmp/spool".to_string(),
            max_file_size: 1024,
            max_file_count: 3,
        });
        let mut handler = StreamHandler::new(&streams);
        let mut serializer = Serializer::new(&streams).unwrap();
        assert_eq!(serializer.start(), Action::Load);
        assert_eq!(
            serializer.handle::<Buffer<Payload>>(Event::Loaded(Loaded::Eof)).unwrap(),
            Action::Wait
        );

        let mut packages = Vec::new();
        for k in 0..100u32 {
            let name = if k < 20 { "a" } else if k < 70 { "b" } else { "c" };
            if let Handled::Flushed(batch, _) = handler.handle_data(point(name, k)) {
                packages.push(batch);
            }
        }
        assert_eq!(packages.len(), 2 + 10 + 1);
        wait(2_500).await;
        while let Flush::Done(name, Some(batch)) = poll_handler(&mut handler).await {
            assert_eq!(name, "c");
            assert_eq!(batch.buffer.len(), 10);
            packages.push(batch);
        }
        assert_eq!(packages.len(), 14);
        assert!(handler.is_empty());

        let mut published = 0;
        for batch in packages {
            let action = serializer.handle(Event::Data(batch)).unwrap();
            assert!(matches!(action, Action::TryPublish(_)));
            published += 1;
            let action =
                serializer.handle::<Buffer<Payload>>(Event::Tried(Tried::Accepted)).unwrap();
            assert_eq!(action, Action::Wait);
            assert_eq!(*serializer.status(), Status::Normal);
        }
        assert_eq!(published, 14);
        assert_eq!(serializer.metrics().total_disk_size(), 0);
        assert!(serializer.metrics().total_sent_size() > 0);
    });
}

#[test]
fn bridge_drops_late_action_response() {
    runtime().block_on(async {
        let mut bridge =
            Bridge::new(&config(&[("action_status", 1), ("a", 5)], Some(2)), answers(1));
        assert!(!bridge.waiting());
        assert!(matches!(bridge.collect(point("action_status", 1)), Collected::Late));
        assert!(matches!(bridge.collect(point("a", 1)), Collected::Handled(Handled::Buffered)));
        assert!(!bridge.is_empty());
        bridge.begin("action-7".to_string());
        assert!(bridge.waiting());
        assert!(matches!(bridge.collect(point("a", 2)), Collected::Handled(Handled::Buffered)));
        assert!(bridge.waiting());
        assert!(matches!(
            bridge.collect(point("action_status", 2)),
            Collected::Handled(Handled::Flushed(_, false))
        ));
        assert!(!bridge.waiting());
        assert!(matches!(bridge.collect(point("action_status", 3)), Collected::Late));
    });
}

#[test]
fn bridge_times_out_waiting_action_once() {
    let mut bridge = Bridge::new(&config(&[], None), answers(1));
    assert_eq!(bridge.timeout(), None);
    bridge.begin("action-7".to_string());
    assert_eq!(bridge.timeout(), Some("action-7".to_string()));
    assert_eq!(bridge.timeout(), None);
}

#[test]
fn bridge_flushes_streams_on_timeout() {
    runtime().block_on(async {
        let mut bridge = Bridge::new(&config(&[("a", 5)], Some(1)), answers(1));
        bridge.collect(point("a", 1));
        wait(1_200).await;
        let flush = poll_fn(|cx| Poll::Ready(bridge.next(cx))).await;
        assert!(matches!(flush, Flush::Done(_, Some(_))));
        assert!(bridge.is_empty());
    });
}

#[test]
fn bridge_answers_in_place_of_application() {
    let mut bridge = Bridge::new(&config(&[("action_status", 5)], Some(2)), answers(2));
    assert!(bridge.respond(point("action_status", 1)).is_none());
    assert!(!bridge.waiting());
    assert!(bridge.is_empty());
    bridge.begin("action-1".to_string());
    let batch = bridge.respond(point("action_status", 2)).unwrap();
    assert_eq!(batch.topic, "t/action_status");
    assert_eq!(batch.buffer, vec![point("action_status", 1), point("action_status", 2)]);
    assert!(bridge.waiting());
    assert!(bridge.respond(point("action_status", 3)).is_none());
}

#[test]
fn keys_with_the_same_deadline_all_fire() {
    runtime().block_on(async {
        let mut map = DelayMap::new();
        map.insert("a".to_string(), 100);
        map.insert("b".to_string(), 100);
        wait(200).await;
        let mut names = vec![
            fired(poll_map(&mut map).await).unwrap(),
            fired(poll_map(&mut map).await).unwrap(),
        ];
        names.sort();
        assert_eq!(names, vec!["a".to_string(), "b".to_string()]);
        assert!(map.is_empty());
    });
}

#[test]
fn expire_flushes_the_stream_that_fired_and_keeps_the_timers() {
    runtime().block_on(async {
        let mut handler = StreamHandler::new(&config(&[("a", 10), ("b", 10)], Some(2)));
        handler.handle_data(point("a", 1));
        handler.handle_data(point("b", 2));
        handler.handle_data(point("a", 3));
        assert!(matches!(handler.expire(Expiry::Idle), Flush::Idle));
        assert!(matches!(handler.expire(Expiry::Pending), Flush::Pending));
        assert_eq!(handler.stream(&"a".to_string()).unwrap().len(), 2);
        let Flush::Done(name, Some(batch)) = handler.expire(Expiry::Expired("a".to_string()))
        else {
            panic!("not flushed")
        };
        assert_eq!(name, "a");
        assert_eq!(batch.topic, "t/a");
        assert_eq!(batch.buffer, vec![point("a", 1), point("a", 3)]);
        assert_eq!(handler.stream(&"a".to_string()).unwrap().len(), 0);
        assert_eq!(handler.stream(&"b".to_string()).unwrap().len(), 1);
        assert!(!handler.is_empty());
        let Flush::Done(name, None) = handler.expire(Expiry::Expired("a".to_string())) else {
            panic!("flushed twice")
        };
        assert_eq!(name, "a");
    });
}

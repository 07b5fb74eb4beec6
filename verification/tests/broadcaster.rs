use actix_web_lab::sse;
use broadcaster::ids::{assign_id, id_from_bytes};
use broadcaster::messages::{broadcast_payloads, connected_message, keepalive_for, payload_for};
use broadcaster::registry::{retain_live, Registry, SseClient};

const ALPHABET: [char; 16] = [
    '1', '2', '3', '4', '5', '6', '7', '8', '9', '0', 'a', 'b', 'c', 'd', 'e', 'f',
];

#[test]
fn assign_id_uses_requested_name() {
    let name = "alice".to_string();
    assert_eq!(assign_id(Some(&name)), "alice");
}

#[test]
fn assign_id_generates_for_empty_name() {
    let name = String::new();
    let id = assign_id(Some(&name));
    assert_eq!(id.chars().count(), 3);
    assert!(id.chars().all(|c| ALPHABET.contains(&c)));
}

#[test]
fn id_symbols_come_from_the_low_four_bits() {
    assert_eq!(id_from_bytes(&vec![0x00, 0x1a, 0xff]), "1af");
    assert_eq!(id_from_bytes(&vec![8, 9, 10]), "90a");
    assert_eq!(id_from_bytes(&vec![]), "");
}

#[test]
fn assign_id_distribution_is_roughly_uniform() {
    let mut counts = [0usize; 16];
    let rounds = 10000;
    for _ in 0..rounds {
        let id = assign_id(None);
        assert_eq!(id.chars().count(), 3);
        for c in id.chars() {
            let idx = ALPHABET.iter().position(|&a| a == c).expect("symbol outside alphabet");
            counts[idx] += 1;
        }
    }
    let samples = rounds * 3;
    let expected = samples / 16;
    for &count in counts.iter() {
        assert!(
            count > expected * 4 / 5 && count < expected * 6 / 5,
            "symbol frequency {} too far from uniform {}",
            count,
            expected
        );
    }
}

#[test]
fn payload_and_keepalive_formats() {
    assert_eq!(payload_for("a", "hello"), "a: hello");
    assert_eq!(keepalive_for("abc"), "ping from: abc");
    assert_eq!(connected_message(), "connected");
}

#[test]
fn unsubscribe_removes_exactly_matching_entries() {
    let mut reg = Registry::new();
    for name in ["a", "b", "a"] {
        let (tx, _rx) = sse::channel(10);
        reg.register(SseClient {
            client: tx,
            name: name.to_string(),
        });
    }
    assert_eq!(reg.len(), 3);
    reg.stop_client("a".to_string());
    assert_eq!(reg.names(), vec!["b".to_string()]);
}

#[test]
fn unsubscribe_without_match_is_a_no_op() {
    let mut reg = Registry::new();
    let (tx, _rx) = sse::channel(10);
    reg.register(SseClient {
        client: tx,
        name: "a".to_string(),
    });
    reg.stop_client("missing".to_string());
    assert_eq!(reg.names(), vec!["a".to_string()]);
}

#[test]
fn first_delivered_unit_is_the_acknowledgement() {
    actix_web::rt::System::new().block_on(async {
        let (tx, rx) = sse::channel(10);
        tx.send(sse::Data::new(connected_message())).await.unwrap();
        let mut reg = Registry::new();
        reg.register(SseClient {
            client: tx,
            name: assign_id(None),
        });
        let snapshot = reg.snapshot();
        let payloads = broadcast_payloads(&snapshot, "hi");
        snapshot[0]
            .client
            .send(sse::Data::new(payloads[0].clone()))
            .await
            .unwrap();
        drop(reg);
        drop(snapshot);
        let body = actix_web::body::to_bytes(rx).await.unwrap();
        let text = String::from_utf8(body.to_vec()).unwrap();
        assert!(
            text.starts_with("data: connected\n\n"),
            "stream did not begin with the acknowledgement: {:?}",
            text
        );
    });
}

#[test]
fn broadcast_fans_out_to_all_live_clients() {
    actix_web::rt::System::new().block_on(async {
        let names = ["x", "y", "z"];
        let mut reg = Registry::new();
        let mut streams = Vec::new();
        for name in names {
            let (tx, rx) = sse::channel(10);
            reg.register(SseClient {
                client: tx,
                name: name.to_string(),
            });
            streams.push(rx);
        }
        let snapshot = reg.snapshot();
        let payloads = broadcast_payloads(&snapshot, "hello");
        assert_eq!(
            payloads,
            vec![
                "x: hello".to_string(),
                "y: hello".to_string(),
                "z: hello".to_string()
            ]
        );
        let sends = snapshot
            .iter()
            .zip(payloads.iter())
            .map(|(c, p)| c.client.send(sse::Data::new(p.clone())));
        for result in futures_util::future::join_all(sends).await {
            result.unwrap();
        }
        drop(reg);
        drop(snapshot);
        for (rx, name) in streams.into_iter().zip(names) {
            let body = actix_web::body::to_bytes(rx).await.unwrap();
            let text = String::from_utf8(body.to_vec()).unwrap();
            assert_eq!(text, format!("data: {}: hello\n\n", name));
            for other in names {
                if other != name {
                    assert!(
                        !text.contains(other),
                        "client {} saw {}'s identifier",
                        name,
                        other
                    );
                }
            }
        }
    });
}

#[test]
fn dead_client_is_evicted_by_the_sweep() {
    actix_web::rt::System::new().block_on(async {
        let mut reg = Registry::new();
        let (tx, rx) = sse::channel(10);
        drop(rx);
        reg.register(SseClient {
            client: tx,
            name: "dead".to_string(),
        });
        let snapshot = reg.snapshot();
        let mut flags = Vec::new();
        for c in snapshot.iter() {
            let ping = keepalive_for(&c.name);
            flags.push(c.client.send(sse::Event::Comment(ping.into())).await.is_ok());
        }
        assert_eq!(flags, vec![false]);
        let survivors = retain_live(snapshot, &flags);
        reg.replace(survivors);
        assert_eq!(reg.len(), 0);
        assert!(broadcast_payloads(&reg.snapshot(), "after").is_empty());
    });
}

#[test]
fn healthy_client_survives_the_sweep() {
    actix_web::rt::System::new().block_on(async {
        let mut reg = Registry::new();
        let (tx, _rx) = sse::channel(10);
        reg.register(SseClient {
            client: tx,
            name: "live".to_string(),
        });
        let snapshot = reg.snapshot();
        let mut flags = Vec::new();
        for c in snapshot.iter() {
            let ping = keepalive_for(&c.name);
            flags.push(c.client.send(sse::Event::Comment(ping.into())).await.is_ok());
        }
        assert_eq!(flags, vec![true]);
        let survivors = retain_live(snapshot, &flags);
        reg.replace(survivors);
        assert_eq!(reg.names(), vec!["live".to_string()]);
    });
}

#[test]
fn one_failing_delivery_does_not_block_the_other() {
    actix_web::rt::System::new().block_on(async {
        let mut reg = Registry::new();
        let (tx_dead, rx_dead) = sse::channel(10);
        drop(rx_dead);
        reg.register(SseClient {
            client: tx_dead,
            name: "dead".to_string(),
        });
        let (tx_live, rx_live) = sse::channel(10);
        reg.register(SseClient {
            client: tx_live,
            name: "live".to_string(),
        });
        let snapshot = reg.snapshot();
        let payloads = broadcast_payloads(&snapshot, "hello");
        let sends = snapshot
            .iter()
            .zip(payloads.iter())
            .map(|(c, p)| c.client.send(sse::Data::new(p.clone())));
        let outcomes: Vec<bool> = futures_util::future::join_all(sends)
            .await
            .into_iter()
            .map(|r| r.is_ok())
            .collect();
        assert_eq!(outcomes, vec![false, true]);
        drop(reg);
        drop(snapshot);
        let body = actix_web::body::to_bytes(rx_live).await.unwrap();
        let text = String::from_utf8(body.to_vec()).unwrap();
        assert_eq!(text, "data: live: hello\n\n");
    });
}

#[test]
fn subscribe_completes_while_a_broadcast_is_in_flight() {
    actix_web::rt::System::new().block_on(async {
        let registry = std::sync::Arc::new(parking_lot::Mutex::new(Registry::new()));
        let (tx, rx_slow) = sse::channel(1);
        registry.lock().register(SseClient {
            client: tx,
            name: "slow".to_string(),
        });
        // Fill the slow client's buffer so the next delivery stays in flight.
        let snapshot = registry.lock().snapshot();
        let payloads = broadcast_payloads(&snapshot, "first");
        snapshot[0]
            .client
            .send(sse::Data::new(payloads[0].clone()))
            .await
            .unwrap();
        let snapshot2 = registry.lock().snapshot();
        let payloads2 = broadcast_payloads(&snapshot2, "second");
        let blocked = actix_web::rt::spawn(async move {
            // The delivery suspends on the full channel; no registry lock is
            // held while it waits.
            let _ = snapshot2[0]
                .client
                .send(sse::Data::new(payloads2[0].clone()))
                .await;
        });
        // Subscribing must not wait for that delivery to settle.
        let (tx2, _rx2) = sse::channel(10);
        registry.lock().register(SseClient {
            client: tx2,
            name: assign_id(None),
        });
        assert_eq!(registry.lock().len(), 2);
        drop(rx_slow);
        let _ = blocked.await;
    });
}

#[test]
fn snapshot_keeps_identifiers_and_live_handles() {
    actix_web::rt::System::new().block_on(async {
        let mut reg = Registry::new();
        let (tx, rx) = sse::channel(10);
        reg.register(SseClient {
            client: tx,
            name: "a".to_string(),
        });
        let snapshot = reg.snapshot();
        assert_eq!(snapshot.len(), 1);
        assert_eq!(snapshot[0].name, "a");
        snapshot[0]
            .client
            .send(sse::Data::new("via snapshot"))
            .await
            .unwrap();
        drop(reg);
        drop(snapshot);
        let body = actix_web::body::to_bytes(rx).await.unwrap();
        let text = String::from_utf8(body.to_vec()).unwrap();
        assert_eq!(text, "data: via snapshot\n\n");
    });
}

//! Messages over UniUDP.

use repe::constants::{BodyFormat, QueryFormat};
use repe::error::{IoError, IoKind, RepeError};
use repe::message::Message;
use repe::udp_client::{
    bind_address, build_message_for_udp, check_settings, resolve_destination, settle_send,
    UniUdpClient,
};
use repe::uniudp_fleet::{
    contains_all, send_result, sorted_set, FleetError, UniUdpFleet, UniUdpNodeConfig,
};
use serde_json::Value;
use uniudp::options::FecMode;

fn text<T>(r: Result<T, RepeError>) -> String {
    match r {
        Ok(_) => panic!("expected an error"),
        Err(e) => e.text(),
    }
}

#[test]
fn settings_are_checked_in_order() {
    assert!(check_settings(65535, 65535, 64, 16).is_ok());
    assert_eq!(
        text(check_settings(65536, 65536, 256, 0)),
        "io error: redundancy exceeds u16::MAX"
    );
    assert_eq!(text(check_settings(1, 65536, 256, 0)), "io error: chunk_size exceeds u16::MAX");
    assert_eq!(text(check_settings(1, 1, 256, 0)), "io error: fec_group_size exceeds u8::MAX");
    assert_eq!(
        text(check_settings(1, 1, 65, 0)),
        "io error: fec_group_size exceeds UniUDP RS maximum (64)"
    );
    assert_eq!(text(check_settings(1, 1, 4, 256)), "io error: parity_shards exceeds u8::MAX");
    for parity in [0, 17] {
        assert_eq!(
            text(check_settings(1, 1, 4, parity)),
            "io error: parity_shards must be between 1 and 16 for UniUDP RS FEC"
        );
    }
    assert!(matches!(
        check_settings(1, 1, 4, 0),
        Err(RepeError::Io(IoError { kind: IoKind::InvalidInput, .. }))
    ));
}

#[test]
fn options_carry_the_settings() {
    let plain = UniUdpClient::connect(3, 512, 1, 2).unwrap().send_options();
    assert_eq!(plain.redundancy(), 3);
    assert_eq!(plain.chunk_size(), 512);
    assert!(matches!(plain.fec_mode(), FecMode::None));
    let corrected = UniUdpClient::connect(3, 512, 4, 2).unwrap().send_options();
    assert_eq!(corrected.redundancy(), 3);
    assert_eq!(corrected.chunk_size(), 512);
    assert!(matches!(
        corrected.fec_mode(),
        FecMode::ReedSolomon { data_shards: 4, parity_shards: 2 }
    ));
}

#[test]
fn messages_carry_ids_from_one() {
    let mut client = UniUdpClient::connect(1, 1024, 4, 2).unwrap();
    assert!(client.is_open());
    let params = Value::from(vec![1, 2]);
    let (first, bytes) = client.send_notify("/log", Some(&params)).unwrap();
    assert_eq!(first, 1);
    let m = Message::from_slice_exact(&bytes).unwrap();
    assert_eq!(m.header.id, 1);
    assert_eq!(m.header.notify, 1);
    assert_eq!(m.query_str().unwrap(), "/log");
    assert_eq!(m.header.query_format, QueryFormat::JsonPointer.code());
    assert_eq!(m.json_body().unwrap(), params);
    let (second, bytes) = client.send_request("/log", None).unwrap();
    assert_eq!(second, 2);
    let m = Message::from_slice_exact(&bytes).unwrap();
    assert_eq!(m.header.notify, 0);
    assert!(m.body.is_empty());
    assert_eq!(m.header.body_format, BodyFormat::Json.code());
    client.close();
    assert!(!client.is_open());
    assert_eq!(text(client.send_notify("/log", None)), "io error: udp client is closed");
}

#[test]
fn parameters_are_written_in_their_format() {
    let value = Value::from("x");
    let beve = build_message_for_udp(1, "/m", Some(&value), 1, BodyFormat::Beve.code(), false);
    let m = Message::from_slice_exact(&beve.unwrap()).unwrap();
    assert_eq!(beve::from_slice::<Value>(&m.body).unwrap(), value);
    let json = build_message_for_udp(1, "/m", Some(&value), 1, BodyFormat::Json.code(), false);
    assert_eq!(Message::from_slice_exact(&json.unwrap()).unwrap().body, b"\"x\"");
}

#[test]
fn what_uniudp_answers_is_settled() {
    assert_eq!(settle_send(4, Ok(4)).unwrap(), 4);
    assert_eq!(
        text(settle_send(4, Ok(5))),
        "io error: uniudp returned a mismatched message id"
    );
    assert_eq!(text(settle_send(4, Err("no route".into()))), "io error: uniudp send failed: no route");
    assert_eq!(bind_address(true), "0.0.0.0:0");
    assert_eq!(bind_address(false), "[::]:0");
    assert_eq!(resolve_destination(Some(7)).unwrap(), 7);
    assert_eq!(
        text(resolve_destination::<u8>(None)),
        "io error: target resolved to no socket addresses"
    );
}

// ---- fleets ----

fn config(name: &str, tags: &[&str]) -> UniUdpNodeConfig {
    UniUdpNodeConfig::new("10.0.0.1".to_string(), 9000)
        .unwrap()
        .with_name(name.to_string())
        .unwrap()
        .with_tags(list(tags))
}

fn list(items: &[&str]) -> Vec<String> {
    items.iter().map(|t| t.to_string()).collect()
}

#[test]
fn configurations_are_checked() {
    let c = UniUdpNodeConfig::new("h".to_string(), 1).unwrap();
    assert_eq!(
        c.text(),
        "UniUdpNodeConfig(\"h\", 1; name=\"h\", tags=[], redundancy=1, chunk_size=1024, \
         fec_group_size=4, parity_shards=2)"
    );
    assert!(matches!(UniUdpNodeConfig::new(String::new(), 0), Err(FleetError::EmptyHost)));
    assert!(matches!(UniUdpNodeConfig::new("h".into(), 0), Err(FleetError::InvalidPort(0))));
    assert!(matches!(config("a", &[]).with_name(String::new()), Err(FleetError::EmptyNodeName)));
    assert!(matches!(config("a", &[]).with_redundancy(0), Err(FleetError::InvalidRedundancy)));
    assert!(matches!(config("a", &[]).with_chunk_size(0), Err(FleetError::InvalidChunkSize)));
    assert!(matches!(config("a", &[]).with_fec_group_size(0), Err(FleetError::InvalidFecGroupSize)));
    for parity in [0, 17] {
        assert!(matches!(
            config("a", &[]).with_parity_shards(parity),
            Err(FleetError::InvalidParityShards)
        ));
    }
    let tuned = config("a", &["x \"y\""])
        .with_redundancy(2)
        .unwrap()
        .with_chunk_size(3)
        .unwrap()
        .with_fec_group_size(5)
        .unwrap()
        .with_parity_shards(6)
        .unwrap();
    assert_eq!(
        tuned.text(),
        "UniUdpNodeConfig(\"10.0.0.1\", 9000; name=\"a\", tags=[\"x \\\"y\\\"\"], redundancy=2, \
         chunk_size=3, fec_group_size=5, parity_shards=6)"
    );
}

#[test]
fn a_fleet_is_checked_node_by_node() {
    let mut fleet: UniUdpFleet<u8> = UniUdpFleet::default();
    assert!(fleet.is_empty());
    fleet.add_node(config("a", &[]), Ok(1)).unwrap();
    assert!(matches!(
        fleet.check_entry(&config("a", &[])),
        Err(FleetError::DuplicateNodeName(n)) if n == "a"
    ));
    assert!(fleet.check_entry(&config("b", &[])).is_ok());
    assert!(matches!(
        fleet.add_node(config("a", &[]), Ok(2)),
        Err(FleetError::DuplicateNodeName(n)) if n == "a"
    ));
    assert!(matches!(
        fleet.add_node(config("b", &[]), Err(RepeError::io(IoKind::Other, "no socket"))),
        Err(FleetError::NodeInitialization(t)) if t == "io error: no socket"
    ));
    let wide = config("b", &[]).with_fec_group_size(65).unwrap();
    assert!(matches!(
        fleet.add_node(wide, Ok(2)),
        Err(FleetError::NodeInitialization(t))
            if t == "io error: fec_group_size exceeds UniUDP RS maximum (64)"
    ));
    let mut broken = config("b", &[]);
    broken.host = String::new();
    assert!(matches!(fleet.add_node(broken, Ok(2)), Err(FleetError::EmptyHost)));
    assert_eq!(fleet.len(), 1);
    assert_eq!(fleet.keys(), vec!["a"]);
    assert_eq!(fleet.text(), "UniUdpFleet(1 nodes)");
}

#[test]
fn tags_select_nodes() {
    let mut fleet: UniUdpFleet<u8> = UniUdpFleet::empty();
    fleet.add_node(config("a", &["x", "y"]), Ok(1)).unwrap();
    fleet.add_node(config("b", &["y", "x", "y", "a"]), Ok(2)).unwrap();
    fleet.add_node(config("c", &[]), Ok(3)).unwrap();
    let names = |tags: &[&str]| -> Vec<String> {
        fleet.filter_nodes(&list(tags)).into_iter().map(|n| n.name).collect()
    };
    assert_eq!(names(&[]), vec!["a", "b", "c"]);
    assert_eq!(names(&["y"]), vec!["a", "b"]);
    assert_eq!(names(&["a", "y"]), vec!["b"]);
    assert!(names(&["z"]).is_empty());
    assert_eq!(fleet.snapshot_target_nodes(&list(&["a"])), vec![1]);
    let shown = fleet.node("b").unwrap();
    assert_eq!(shown.tags, vec!["a", "x", "y"], "in order, each once");
    assert!(shown.open);
    assert_eq!(shown.port, 9000);
    assert!(matches!(fleet.node("q"), Err(FleetError::NodeNotFound(n)) if n == "q"));
    assert_eq!(fleet.nodes().len(), 3);
}

#[test]
fn nodes_are_removed_and_closed() {
    let mut fleet: UniUdpFleet<u8> = UniUdpFleet::empty();
    fleet.add_node(config("a", &[]), Ok(1)).unwrap();
    fleet.add_node(config("b", &[]), Ok(2)).unwrap();
    assert_eq!(fleet.remove_node("a"), Some(1));
    assert_eq!(fleet.remove_node("a"), None);
    let at = fleet.node_state("b").unwrap();
    assert_eq!(fleet.node_at(at).socket, 2);
    let (id, bytes) = fleet.prepare(at, "/m", None, true).unwrap();
    assert_eq!(id, 1);
    assert_eq!(Message::from_slice_exact(&bytes).unwrap().header.notify, 1);
    assert_eq!(fleet.prepare(at, "/m", None, false).unwrap().0, 2);
    fleet.close();
    assert_eq!(fleet.len(), 1);
    assert!(!fleet.node("b").unwrap().open);
    assert_eq!(text(fleet.prepare(at, "/m", None, true)), "io error: udp client is closed");
    assert!(matches!(fleet.node_state("a"), Err(FleetError::NodeNotFound(n)) if n == "a"));
}

#[test]
fn results_tell_what_came_of_a_send() {
    let good = send_result("a", Ok(7), 3);
    assert!(good.succeeded() && !good.failed());
    assert_eq!(good.text(), "SendResult(a, msg_id=7, 3ms)");
    let bad = send_result("b", Err(RepeError::ReservedNonZero), 4);
    assert!(bad.failed() && !bad.succeeded());
    assert_eq!(bad.message_id, 0);
    assert_eq!(bad.text(), "SendResult(b, failed, 4ms)");
}

#[test]
fn tags_are_sorted_like_strings() {
    let mut expected = list(&["b", "ab", "", "\u{e9}", "a", "z", "ab"]);
    assert!(contains_all(&expected, &list(&["z", ""])));
    let sorted = sorted_set(&expected);
    expected.sort();
    expected.dedup();
    assert_eq!(sorted, expected);
}

#[test]
fn a_selection_is_sent_to_and_no_other_node() {
    let mut fleet: UniUdpFleet<u8> = UniUdpFleet::empty();
    fleet.add_node(config("a", &["x"]), Ok(0)).unwrap();
    fleet.add_node(config("b", &["x", "y"]), Ok(1)).unwrap();
    fleet.add_node(config("c", &["y"]), Ok(2)).unwrap();

    let sent = fleet.send_notify("/m", Some(&Value::from(1)), &list(&["y"]));
    assert_eq!(sent.len(), 2);
    for (k, place) in [(0usize, 1usize), (1, 2)] {
        assert_eq!(sent[k].0, place);
        let (id, payload) = sent[k].1.as_ref().unwrap();
        assert_eq!(*id, 1);
        let message = Message::from_slice(payload).unwrap();
        assert_eq!(message.header.notify, 1);
        assert_eq!(message.query, b"/m");
        assert_eq!(message.body, b"1");
    }

    let all = fleet.send_request("/m", None, &Vec::new());
    let ids: Vec<u64> = all.iter().map(|(_, m)| m.as_ref().unwrap().0).collect();
    assert_eq!(ids, vec![1, 2, 2]);
    assert_eq!(Message::from_slice(&all[0].1.as_ref().unwrap().1).unwrap().header.notify, 0);
    let everyone = fleet.notify_all("/m", None);
    assert_eq!(everyone.iter().map(|(at, _)| *at).collect::<Vec<usize>>(), vec![0, 1, 2]);

    let (at, message) = fleet.send_notify_to("c", "/m", None).unwrap();
    assert_eq!((at, message.unwrap().0), (2, 4));
    assert!(matches!(
        fleet.send_notify_to("d", "/m", None),
        Err(FleetError::NodeNotFound(name)) if name == "d"
    ));
    fleet.close();
    for (_, message) in fleet.notify_all("/m", None) {
        assert_eq!(text(message), "io error: udp client is closed");
    }
}

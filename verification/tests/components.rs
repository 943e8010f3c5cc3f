//! Component-level checks: the ledger queries, the scheduler, the builders,
//! the controller decisions and the translator.

use ln_ms_lib::LnSimulation;
use ln_ms_lib::ln_event_processor::{NativeEvent, NativeHop, translate};
use ln_ms_lib::sensei_controller::{
    ChannelIdMap, action_result_event, closing_fee_split, confirmed_channel, invoice_amount_msat,
    open_channel_params, transaction_pending,
};
use ln_ms_lib::sim_channel::SimChannel;
use ln_ms_lib::sim_event::{SimEvent, SimulationEvent};
use ln_ms_lib::sim_event_manager::{EventSlot, SimEventManager};
use ln_ms_lib::sim_node_status::{SimNodeChannel, SimNodeStatus};
use ln_ms_lib::sim_results::SimResults;
use ln_ms_lib::sim_transaction::{SimTransaction, SimTransactionStatus};
use ln_ms_lib::text::hex_str;

fn plain_channel(id: u64, src: &str, dest: &str, src_sats: u64) -> SimChannel {
    SimChannel {
        id,
        short_id: None,
        run_time_id: None,
        funding_tx: None,
        src_node: String::from(src),
        dest_node: String::from(dest),
        src_balance_sats: src_sats,
        dest_balance_sats: 0,
        penalty_reserve_sats: None,
    }
}

#[test]
fn channel_balance_arithmetic() {
    let mut c = plain_channel(1, "a", "b", 39000);
    c.dest_balance_sats = 500;
    c.penalty_reserve_sats = Some(1000);
    assert_eq!(c.get_total_balance(), 40500);
    assert_eq!(c.get_src_balance(), 40000);
    assert_eq!(c.get_dest_balance(), 500);

    c.penalty_reserve_sats = None;
    assert_eq!(c.get_total_balance(), 39500);
    assert_eq!(c.get_src_balance(), 39000);
}

#[test]
fn find_closest_less_picks_greatest_at_most_target() {
    let keys = vec![5u64, 2, 9, 7];
    assert_eq!(SimResults::find_closest_less(&keys, &8), Some(7));
    assert_eq!(SimResults::find_closest_less(&keys, &9), Some(9));
    assert_eq!(SimResults::find_closest_less(&keys, &1), None);
    assert_eq!(SimResults::find_closest_less(&keys, &2), Some(2));
    let empty: Vec<u64> = Vec::new();
    assert_eq!(SimResults::find_closest_less(&empty, &3), None);
}

#[test]
fn ledger_queries_before_first_record_are_unknown() {
    let res = SimResults::new();
    let who = String::from("nobody");
    assert!(res.get_on_chain_bal(5, &who).is_none());
    assert!(res.get_off_chain_bal(5, &who).is_none());
    assert_eq!(res.get_node_status(5, &who), false);
    assert!(res.get_open_channels(5).is_none());
    assert!(res.get_closed_channels(5).is_none());
    assert_eq!(res.get_all_transactions().unwrap().len(), 0);
    assert_eq!(res.get_node_transactions(&who).unwrap().len(), 0);
    assert_eq!(res.get_nodes().len(), 0);
}

#[test]
fn node_transactions_filters_by_endpoint() {
    let mut analyzer = ln_ms_lib::network_analyzer::NetworkAnalyzer::new();
    let g = ln_ms_lib::sim_runtime_graph::RuntimeNetworkGraph::new();
    let statuses = vec![];
    analyzer.initialize_network(&g, &statuses);
    let mk = |src: &str, dest: &str| SimTransaction {
        id: None,
        src_node: String::from(src),
        dest_node: String::from(dest),
        amount_sats: 10,
        status: SimTransactionStatus::NONE,
    };
    for (t, tx) in [(1u64, mk("a", "b")), (2, mk("b", "c")), (3, mk("c", "d"))] {
        analyzer.process_event(
            &ln_ms_lib::sim_event::SimResultsEvent {
                sim_time: Some(t),
                success: true,
                event: SimulationEvent::TransactionEvent(tx),
            },
        );
    }
    let res = analyzer.get_sim_results();
    assert_eq!(res.get_all_transactions().unwrap().len(), 3);
    assert_eq!(res.get_node_transactions(&String::from("b")).unwrap().len(), 2);
    assert_eq!(res.get_node_transactions(&String::from("d")).unwrap().len(), 1);
    assert_eq!(res.get_node_transactions(&String::from("x")).unwrap().len(), 0);
}

#[test]
fn scheduler_publishes_in_declaration_order_and_ends() {
    let mut manager = SimEventManager::new(Vec::<EventSlot>::new());
    manager.add_event(SimulationEvent::StartNodeEvent(String::from("late")), 2);
    manager.add_event(SimulationEvent::StopNodeEvent(String::from("early")), 0);
    manager.add_event(SimulationEvent::StartNodeEvent(String::from("also-late")), 2);

    let schedule = manager.full_schedule(3);
    assert_eq!(schedule.len(), 4);
    assert_eq!(schedule[0].sim_time, 0);
    assert!(matches!(&schedule[0].event, SimulationEvent::StopNodeEvent(n) if n == "early"));
    assert_eq!(schedule[1].sim_time, 2);
    assert!(matches!(&schedule[1].event, SimulationEvent::StartNodeEvent(n) if n == "late"));
    assert_eq!(schedule[2].sim_time, 2);
    assert!(matches!(&schedule[2].event, SimulationEvent::StartNodeEvent(n) if n == "also-late"));
    assert_eq!(schedule[3].sim_time, 3);
    assert!(matches!(schedule[3].event, SimulationEvent::SimulationEndedEvent));

    assert_eq!(manager.events_at(2).len(), 2);
    assert_eq!(manager.events_at(1).len(), 0);
}

#[test]
fn simulation_builders_declare_the_run() {
    let mut sim = LnSimulation::new(String::from("test"), 10, 0);
    sim.create_node(String::from("node1"), 200000, true);
    sim.create_node(String::from("node2"), 0, true);
    sim.create_channel(String::from("node1"), String::from("node2"), 40000, 1);
    sim.create_stop_node_event(String::from("node1"), 2);
    sim.create_start_node_event(String::from("node1"), 6);
    sim.create_close_channel_event(String::from("node1"), 1, 5);
    sim.create_transaction_event(String::from("node1"), String::from("node2"), 3000, 4);
    sim.create_open_channel_event(String::from("node2"), String::from("node1"), 30000, 7, 2);

    assert_eq!(sim.user_nodes.len(), 2);
    assert_eq!(sim.user_channels.len(), 1);
    assert_eq!(sim.user_channels[0].src_balance_sats, 40000);
    assert_eq!(sim.user_channels[0].dest_balance_sats, 0);
    // one slot each for times 2, 6, 5, 4, 7
    assert_eq!(sim.user_events.len(), 5);

    // redeclaring a node redefines it
    sim.create_node(String::from("node2"), 7, false);
    assert_eq!(sim.user_nodes.len(), 2);
    assert_eq!(sim.user_nodes[1].initial_balance, 7);
    assert_eq!(sim.user_nodes[1].running, false);
}

#[test]
fn channel_declarations_are_validated() {
    let mut sim = LnSimulation::new(String::from("test"), 10, 0);
    sim.create_node(String::from("up"), 50000, true);
    sim.create_node(String::from("down"), 50000, false);
    sim.create_node(String::from("poor"), 10, true);

    // unknown source, unknown destination
    sim.create_channel(String::from("ghost"), String::from("up"), 25000, 1);
    sim.create_channel(String::from("up"), String::from("ghost"), 25000, 2);
    // source not running, destination not running
    sim.create_channel(String::from("down"), String::from("up"), 25000, 3);
    sim.create_channel(String::from("up"), String::from("down"), 25000, 4);
    // source cannot fund it
    sim.create_channel(String::from("poor"), String::from("up"), 25000, 5);
    // below the minimum capacity
    sim.create_channel(String::from("up"), String::from("poor"), 19999, 6);
    assert_eq!(sim.user_channels.len(), 0);

    // an acceptable declaration, right at the minimum
    sim.create_channel(String::from("up"), String::from("poor"), 20000, 7);
    assert_eq!(sim.user_channels.len(), 1);
    assert_eq!(sim.user_channels[0].id, 7);
}

#[test]
fn graph_events_keep_the_picture_current() {
    let mut g = ln_ms_lib::sim_runtime_graph::RuntimeNetworkGraph::new();
    let nodes = vec![
        ln_ms_lib::sim_node::SimNode {
            name: String::from("n1"),
            initial_balance: 1000,
            running: true,
        },
    ];
    let channels = vec![plain_channel(1, "n1", "n2", 30000)];
    g.update(&nodes, &channels, 2);
    assert_eq!(g.nodes.len(), 3);
    assert_eq!(g.nodes[1].name, "simnode1");
    assert_eq!(g.nodes[2].name, "simnode2");
    assert_eq!(g.nodes[1].initial_balance, 1_000_000_000);
    assert_eq!(g.channels.len(), 1);

    g.apply_event(&SimulationEvent::StopNodeEvent(String::from("n1")));
    assert_eq!(g.nodes[0].running, false);
    g.apply_event(&SimulationEvent::StartNodeEvent(String::from("n1")));
    assert_eq!(g.nodes[0].running, true);
    g.apply_event(&SimulationEvent::OpenChannelEvent(plain_channel(2, "n1", "simnode1", 25000)));
    assert_eq!(g.channels.len(), 2);
    g.apply_event(&SimulationEvent::CloseChannelEvent(String::from("n1"), 1));
    assert_eq!(g.channels.len(), 1);
    assert_eq!(g.channels[0].id, 2);
}

#[test]
fn id_map_correlates_both_ways() {
    let mut ids = ChannelIdMap::new();
    ids.insert(1, String::from("bk-one"));
    ids.insert(2, String::from("bk-two"));
    assert_eq!(ids.get_backend_id(1), Some(String::from("bk-one")));
    assert_eq!(ids.get_sim_id(&String::from("bk-two")), Some(2));
    // an unknown channel is a caller error, answered with nothing
    assert_eq!(ids.get_backend_id(9), None);
    assert_eq!(ids.get_sim_id(&String::from("bk-nine")), None);
    // reinsertion replaces the recorded backend id
    ids.insert(1, String::from("bk-one-b"));
    assert_eq!(ids.get_backend_id(1), Some(String::from("bk-one-b")));
}

#[test]
fn controller_decisions_match_the_backend_interface() {
    let mut c = plain_channel(1, "a", "b", 39000);
    c.dest_balance_sats = 1000;
    assert_eq!(open_channel_params(&c), Some((40000, 1_000_000)));

    let tx = SimTransaction {
        id: None,
        src_node: String::from("a"),
        dest_node: String::from("b"),
        amount_sats: 3000,
        status: SimTransactionStatus::NONE,
    };
    assert_eq!(invoice_amount_msat(&tx), Some(3_000_000));

    let accepted = transaction_pending(&tx, String::from("pay1"));
    assert_eq!(accepted.id, Some(String::from("pay1")));
    assert!(matches!(accepted.status, SimTransactionStatus::PENDING));
    assert_eq!(accepted.amount_sats, 3000);

    let reported = SimNodeChannel::new(
        1,
        Some(707),
        String::from("bk1"),
        3,
        true,
        true,
        true,
        39000000,
        39000000,
        0,
        true,
        Some(String::from("ftx")),
        Some(1000),
    );
    let confirmed = confirmed_channel(&c, &reported);
    assert_eq!(confirmed.short_id, Some(707));
    assert_eq!(confirmed.run_time_id, Some(String::from("bk1")));
    assert_eq!(confirmed.funding_tx, Some(String::from("ftx")));
    assert_eq!(confirmed.penalty_reserve_sats, Some(1000));
    assert_eq!(confirmed.src_balance_sats, 39000);

    let ev = action_result_event(
        &SimEvent { sim_time: 5, event: SimulationEvent::StopNodeEvent(String::from("a")) },
        false,
    );
    assert_eq!(ev.sim_time, Some(5));
    assert!(!ev.success);

    assert_eq!(closing_fee_split(true, 2348), (0, 2348));
    assert_eq!(closing_fee_split(false, 2348), (2348, 0));
}

#[test]
fn status_lookup_by_channel_id() {
    let mut status = SimNodeStatus::new();
    assert!(status.get_channel(1).is_none());
    status.channels.push(
        SimNodeChannel::new(
            4,
            None,
            String::from("bk4"),
            1,
            true,
            true,
            false,
            5,
            5,
            0,
            false,
            None,
            None,
        ),
    );
    let found = status.get_channel(4).unwrap();
    assert_eq!(found.run_time_id, "bk4");
    assert!(status.get_channel(5).is_none());
}

#[test]
fn translator_maps_native_notifications() {
    // a settled payment: id spelled in hex, fee scaled to sats
    let sent = NativeEvent::PaymentSent {
        payment_id: Some(vec![0x00, 0xff, 0x1a]),
        fee_paid_msat: Some(1500),
    };
    let ev = translate(&sent).unwrap();
    assert_eq!(ev.sim_time, None);
    assert!(ev.success);
    match ev.event {
        SimulationEvent::PaymentSuccessEvent(id, fee) => {
            assert_eq!(id, "00ff1a");
            assert_eq!(fee, 1);
        },
        _ => panic!("a settled payment becomes a payment success"),
    }

    // a settled payment without an id is not attributable
    assert!(
        translate(
            &NativeEvent::PaymentSent { payment_id: None, fee_paid_msat: Some(1500) },
        ).is_none()
    );

    // a failed payment
    let failed = NativeEvent::PaymentFailed { payment_id: vec![0xab] };
    match translate(&failed).unwrap().event {
        SimulationEvent::PaymentFailedEvent(id) => assert_eq!(id, "ab"),
        _ => panic!("a failed payment becomes a payment failure"),
    }

    // a path: hops keep their order, amounts scale to sats
    let path = NativeEvent::PaymentPathSuccessful {
        payment_id: vec![0x01],
        hops: vec![
            NativeHop { short_channel_id: 7, fee_msat: 1000, pubkey: String::from("pkA") },
            NativeHop { short_channel_id: 8, fee_msat: 3000000, pubkey: String::from("pkB") },
        ],
    };
    match translate(&path).unwrap().event {
        SimulationEvent::PaymentPathSuccessful(p) => {
            assert_eq!(p.payment_id, "01");
            assert_eq!(p.path.len(), 2);
            assert_eq!(p.path[0].short_channel_id, 7);
            assert_eq!(p.path[0].amount, 1);
            assert_eq!(p.path[0].node_pub_key, "pkA");
            assert_eq!(p.path[1].amount, 3000);
        },
        _ => panic!("a path notification becomes a path event"),
    }

    // a closed channel
    let closed = NativeEvent::ChannelClosed { channel_id: vec![0xde, 0xad] };
    match translate(&closed).unwrap().event {
        SimulationEvent::CloseChannelSuccessEvent(id) => assert_eq!(id, "dead"),
        _ => panic!("a channel close becomes a close confirmation"),
    }

    // anything else is ignored
    assert!(translate(&NativeEvent::Other).is_none());
}

#[test]
fn event_kinds_have_display_names() {
    assert_eq!(SimulationEvent::SimulationEndedEvent.name(), "SimulationEndedEvent");
    assert_eq!(SimulationEvent::StopNodeEvent(String::from("n")).name(), "StopNodeEvent");
    assert_eq!(
        SimulationEvent::CloseChannelEvent(String::from("n"), 1).name(),
        "CloseChannelEvent",
    );
}

#[test]
fn hex_spelling_is_two_digits_per_byte() {
    assert_eq!(hex_str(&Vec::new()), "");
    assert_eq!(hex_str(&vec![0x00]), "00");
    assert_eq!(hex_str(&vec![0x0f, 0xf0, 0x5a]), "0ff05a");
}

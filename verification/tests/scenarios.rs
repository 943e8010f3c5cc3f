//! End-to-end scenarios: result-event streams folded through the analyzer,
//! checked against the ledger queries.

use ln_ms_lib::network_analyzer::{AnalyzerAction, NetworkAnalyzer};
use ln_ms_lib::sim_channel::SimChannel;
use ln_ms_lib::sim_event::{PathHop, SimPaymentPath, SimResultsEvent, SimulationEvent};
use ln_ms_lib::sim_node::SimNode;
use ln_ms_lib::sim_node_status::{SimNodeBalance, SimNodeStatus};
use ln_ms_lib::sim_results::SimResults;
use ln_ms_lib::sim_runtime_graph::RuntimeNetworkGraph;
use ln_ms_lib::sim_transaction::{SimTransaction, SimTransactionStatus};

fn node(name: &str, balance: u64, running: bool) -> SimNode {
    SimNode { name: String::from(name), initial_balance: balance, running }
}

fn status(pub_key: &str, onchain: u64, offchain: u64) -> SimNodeStatus {
    SimNodeStatus {
        pub_key: String::from(pub_key),
        balance: SimNodeBalance { total: onchain + offchain, onchain, offchain },
        channels: Vec::new(),
    }
}

fn graph(nodes: Vec<SimNode>) -> RuntimeNetworkGraph {
    let mut g = RuntimeNetworkGraph::new();
    let mut n = nodes;
    g.nodes.append(&mut n);
    g
}

fn success_at(time: u64, event: SimulationEvent) -> SimResultsEvent {
    SimResultsEvent { sim_time: Some(time), success: true, event }
}

fn failure_at(time: u64, event: SimulationEvent) -> SimResultsEvent {
    SimResultsEvent { sim_time: Some(time), success: false, event }
}

fn async_event(event: SimulationEvent) -> SimResultsEvent {
    SimResultsEvent { sim_time: None, success: true, event }
}

fn channel(
    id: u64,
    short_id: u64,
    backend_id: &str,
    src: &str,
    dest: &str,
    src_sats: u64,
    dest_sats: u64,
    reserve: u64,
) -> SimChannel {
    SimChannel {
        id,
        short_id: Some(short_id),
        run_time_id: Some(String::from(backend_id)),
        funding_tx: Some(String::from("funding")),
        src_node: String::from(src),
        dest_node: String::from(dest),
        src_balance_sats: src_sats,
        dest_balance_sats: dest_sats,
        penalty_reserve_sats: Some(reserve),
    }
}

/// Stopping a node at t=2 and starting it at t=6 reads as up at 0, down at
/// 4 and up again at 7.
#[test]
fn node_status_over_time() {
    let mut analyzer = NetworkAnalyzer::new();
    let g = graph(vec![node("n1", 0, true)]);
    let statuses = vec![Some(status("pk1", 0, 0))];
    analyzer.initialize_network(&g, &statuses);

    analyzer.process_event(&success_at(2, SimulationEvent::StopNodeEvent(String::from("n1"))));
    analyzer.process_event(&success_at(6, SimulationEvent::StartNodeEvent(String::from("n1"))));

    let res = analyzer.get_sim_results();
    let n1 = String::from("n1");
    assert_eq!(res.get_node_status(0, &n1), true);
    assert_eq!(res.get_node_status(4, &n1), false);
    assert_eq!(res.get_node_status(7, &n1), true);
}

/// A channel of 40,000 sats opened at t=0 and closed at t=5 is open at 4,
/// gone at 7, and closed at 7; right after the open the opener's off-chain
/// balance holds the full 40,000 and the channel's own source balance holds
/// 40,000 minus the reserve held back.
#[test]
fn channel_open_then_close() {
    let mut analyzer = NetworkAnalyzer::new();
    let g = graph(vec![node("n1", 200000, true), node("n2", 0, true)]);
    let statuses = vec![Some(status("pk1", 200000, 0)), Some(status("pk2", 0, 0))];
    analyzer.initialize_network(&g, &statuses);

    // the backend confirmed the open: 40,000 funded by n1, 1,000 reserved
    let c = channel(1, 101, "bk1", "n1", "n2", 39000, 0, 1000);
    let action = analyzer.process_event(
        &success_at(0, SimulationEvent::OpenChannelEvent(c.clone())),
    );
    match action {
        AnalyzerAction::AwaitOpenFee { channel, time } => {
            analyzer.apply_open_fee(&channel, time, 1224);
        },
        _ => panic!("an open fee lookup was owed"),
    }

    let n1 = String::from("n1");
    analyzer.process_event(
        &success_at(5, SimulationEvent::CloseChannelEvent(String::from("n1"), 1)),
    );
    let action = analyzer.process_event(
        &async_event(SimulationEvent::CloseChannelSuccessEvent(String::from("bk1"))),
    );
    match action {
        AnalyzerAction::AwaitClosingFees { channel, time } => {
            analyzer.apply_closing_fees(&channel, time, 2348, 0);
        },
        _ => panic!("a settlement was owed"),
    }

    let res = analyzer.get_sim_results();
    assert_eq!(res.get_open_channels(4).unwrap().len(), 1);
    assert_eq!(res.get_open_channels(7).unwrap().len(), 0);
    assert_eq!(res.get_closed_channels(7).unwrap().len(), 1);
    assert!(res.get_closed_channels(4).is_none());

    let opened = &res.get_open_channels(4).unwrap()[0];
    assert_eq!(opened.src_balance_sats, 39000);
    assert_eq!(opened.dest_balance_sats, 0);

    // off-chain right after the open: the full 40,000
    assert_eq!(res.get_off_chain_bal(0, &n1).unwrap(), 40000);
    // on-chain after the open: 200,000 - 40,000 - 1,224 fee
    assert_eq!(res.get_on_chain_bal(0, &n1).unwrap(), 158776);
    // after the close settles: off-chain empty, on-chain credited back
    assert_eq!(res.get_off_chain_bal(6, &n1).unwrap(), 0);
    assert_eq!(res.get_on_chain_bal(6, &n1).unwrap(), 196428);
}

/// A routed payment of 3,000 sats from n1 to n2 over n3: after settlement
/// n2 gains exactly 3,000, n1 loses 3,000 plus the total fee, and the
/// forwarding node n3 earns its forwarding fee.
#[test]
fn multi_hop_payment() {
    let mut analyzer = NetworkAnalyzer::new();
    let g = graph(vec![
        node("n1", 200000, true),
        node("n2", 0, true),
        node("n3", 200000, true),
    ]);
    let statuses = vec![
        Some(status("pk1", 200000, 0)),
        Some(status("pk2", 0, 0)),
        Some(status("pk3", 200000, 0)),
    ];
    analyzer.initialize_network(&g, &statuses);

    // n1 -> n3 and n3 -> n2, both confirmed at t=0
    let c1 = channel(1, 101, "bk1", "n1", "n3", 39000, 0, 1000);
    let c2 = channel(2, 102, "bk2", "n3", "n2", 39000, 0, 1000);
    for c in [c1, c2] {
        match analyzer.process_event(&success_at(0, SimulationEvent::OpenChannelEvent(c))) {
            AnalyzerAction::AwaitOpenFee { channel, time } => {
                analyzer.apply_open_fee(&channel, time, 1224);
            },
            _ => panic!("an open fee lookup was owed"),
        }
    }

    // the payment is accepted at t=4 and assigned an id
    let tx = SimTransaction {
        id: Some(String::from("pay1")),
        src_node: String::from("n1"),
        dest_node: String::from("n2"),
        amount_sats: 3000,
        status: SimTransactionStatus::PENDING,
    };
    analyzer.process_event(&success_at(4, SimulationEvent::TransactionEvent(tx)));

    // settlement: total fee 1 sat, then the path it took
    analyzer.process_event(
        &async_event(SimulationEvent::PaymentSuccessEvent(String::from("pay1"), 1)),
    );
    let path = SimPaymentPath {
        payment_id: String::from("pay1"),
        path: vec![
            PathHop { short_channel_id: 101, amount: 1, node_pub_key: String::from("pk3") },
            PathHop { short_channel_id: 102, amount: 3000, node_pub_key: String::from("pk2") },
        ],
    };
    analyzer.process_event(&async_event(SimulationEvent::PaymentPathSuccessful(path)));

    let res = analyzer.get_sim_results();
    let (n1, n2, n3) = (String::from("n1"), String::from("n2"), String::from("n3"));
    assert_eq!(res.get_off_chain_bal(6, &n1).unwrap(), 36999);
    assert_eq!(res.get_off_chain_bal(6, &n2).unwrap(), 3000);
    assert_eq!(res.get_off_chain_bal(6, &n3).unwrap(), 40001);

    // the channels along the path shifted by the amounts carried
    let open = res.get_open_channels(6).unwrap();
    let chan1 = open.iter().find(|c| c.id == 1).unwrap();
    let chan2 = open.iter().find(|c| c.id == 2).unwrap();
    assert_eq!(chan1.src_balance_sats, 35999);
    assert_eq!(chan1.dest_balance_sats, 3001);
    assert_eq!(chan2.src_balance_sats, 36000);
    assert_eq!(chan2.dest_balance_sats, 3000);

    // the transaction reads successful
    let txs = res.get_all_transactions().unwrap();
    assert_eq!(txs.len(), 1);
    assert!(matches!(txs[0].transaction.status, SimTransactionStatus::SUCCESSFUL));
}

/// A transaction whose invoice request fails yields one failed event and no
/// ledger transaction.
#[test]
fn failed_transaction_is_recorded() {
    let mut analyzer = NetworkAnalyzer::new();
    let g = graph(vec![node("n1", 0, true), node("n2", 0, true)]);
    let statuses = vec![Some(status("pk1", 0, 0)), Some(status("pk2", 0, 0))];
    analyzer.initialize_network(&g, &statuses);

    let tx = SimTransaction {
        id: None,
        src_node: String::from("n1"),
        dest_node: String::from("n2"),
        amount_sats: 3000,
        status: SimTransactionStatus::NONE,
    };
    analyzer.process_event(&failure_at(4, SimulationEvent::TransactionEvent(tx)));

    let res = analyzer.get_sim_results();
    assert_eq!(res.failed_events.len(), 1);
    assert_eq!(res.get_all_transactions().unwrap().len(), 0);
}

/// Delivering the same close confirmation twice changes balances only once.
#[test]
fn settlement_is_idempotent() {
    let mut analyzer = NetworkAnalyzer::new();
    let g = graph(vec![node("n1", 200000, true), node("n2", 0, true)]);
    let statuses = vec![Some(status("pk1", 200000, 0)), Some(status("pk2", 0, 0))];
    analyzer.initialize_network(&g, &statuses);

    let c = channel(1, 101, "bk1", "n1", "n2", 39000, 0, 1000);
    match analyzer.process_event(&success_at(0, SimulationEvent::OpenChannelEvent(c))) {
        AnalyzerAction::AwaitOpenFee { channel, time } => {
            analyzer.apply_open_fee(&channel, time, 1224);
        },
        _ => panic!("an open fee lookup was owed"),
    }
    analyzer.process_event(
        &success_at(5, SimulationEvent::CloseChannelEvent(String::from("n1"), 1)),
    );

    let confirm = async_event(SimulationEvent::CloseChannelSuccessEvent(String::from("bk1")));
    match analyzer.process_event(&confirm) {
        AnalyzerAction::AwaitClosingFees { channel, time } => {
            analyzer.apply_closing_fees(&channel, time, 2348, 0);
        },
        _ => panic!("a settlement was owed"),
    }

    // the second delivery asks nothing and changes nothing
    match analyzer.process_event(&confirm) {
        AnalyzerAction::Continue => {},
        _ => panic!("the second delivery must be ignored"),
    }

    let res = analyzer.get_sim_results();
    let n1 = String::from("n1");
    assert_eq!(res.get_on_chain_bal(6, &n1).unwrap(), 196428);
    assert_eq!(res.get_off_chain_bal(6, &n1).unwrap(), 0);
}

/// A payment's status advances from pending to failed and stays there.
#[test]
fn payment_failure_marks_transaction() {
    let mut analyzer = NetworkAnalyzer::new();
    let g = graph(vec![node("n1", 0, true), node("n2", 0, true)]);
    let statuses = vec![Some(status("pk1", 0, 100000)), Some(status("pk2", 0, 0))];
    analyzer.initialize_network(&g, &statuses);

    let tx = SimTransaction {
        id: Some(String::from("pay9")),
        src_node: String::from("n1"),
        dest_node: String::from("n2"),
        amount_sats: 500,
        status: SimTransactionStatus::PENDING,
    };
    analyzer.process_event(&success_at(3, SimulationEvent::TransactionEvent(tx)));
    analyzer.process_event(
        &async_event(SimulationEvent::PaymentFailedEvent(String::from("pay9"))),
    );

    let res = analyzer.get_sim_results();
    let txs = res.get_all_transactions().unwrap();
    assert_eq!(txs.len(), 1);
    assert!(matches!(txs[0].transaction.status, SimTransactionStatus::FAILED));
    // a failed payment moves no balances
    assert_eq!(res.get_off_chain_bal(5, &String::from("n1")).unwrap(), 100000);
}

/// Updates for entities the ledger does not know are dropped, never fatal.
#[test]
fn unknown_entities_are_dropped() {
    let mut analyzer = NetworkAnalyzer::new();
    let g = graph(vec![node("n1", 0, true)]);
    let statuses = vec![Some(status("pk1", 0, 0))];
    analyzer.initialize_network(&g, &statuses);

    // a stop for an unknown node, a payment outcome for an unknown id
    analyzer.process_event(
        &success_at(1, SimulationEvent::StopNodeEvent(String::from("ghostly"))),
    );
    analyzer.process_event(
        &async_event(SimulationEvent::PaymentSuccessEvent(String::from("nope"), 1)),
    );

    let res = analyzer.get_sim_results();
    assert_eq!(res.get_node_status(2, &String::from("ghostly")), false);
    assert_eq!(res.get_all_transactions().unwrap().len(), 0);
    assert_eq!(res.failed_events.len(), 0);
}

/// The terminal event stops the analyzer.
#[test]
fn terminal_event_stops() {
    let mut analyzer = NetworkAnalyzer::new();
    let g = graph(vec![]);
    let statuses = vec![];
    analyzer.initialize_network(&g, &statuses);
    match analyzer.process_event(&success_at(10, SimulationEvent::SimulationEndedEvent)) {
        AnalyzerAction::Stop => {},
        _ => panic!("the terminal event must stop the loop"),
    }
}

/// A settlement given up on is surfaced as a distinct failed event.
#[test]
fn settlement_timeout_is_surfaced() {
    let mut analyzer = NetworkAnalyzer::new();
    let g = graph(vec![node("n1", 0, true)]);
    let statuses = vec![Some(status("pk1", 0, 0))];
    analyzer.initialize_network(&g, &statuses);

    analyzer.record_settlement_timeout(&String::from("bk7"), 9);
    let res = analyzer.get_sim_results();
    assert_eq!(res.failed_events.len(), 1);
    assert_eq!(res.failed_events[0].sim_time, Some(9));
    assert!(!res.failed_events[0].success);
    match &res.failed_events[0].event {
        SimulationEvent::CloseChannelSuccessEvent(id) => assert_eq!(id, "bk7"),
        _ => panic!("the timeout must name the channel close"),
    }
}

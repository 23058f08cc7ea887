use lightning_core::committee::{calculate_attestation_quorum, calculate_required_signals};
use lightning_core::dht::{Message, MessagePayload, Query, Response};
use lightning_core::firewall::{
    classify_input, make_rule, parse_port, read_input, Action, FirewallForm, FormInput, Mode,
    PacketFilterRule, DEFAULT_PREFIX, DROP, TCP,
};
use lightning_core::genesis::{create_committee_member, test_genesis, CommitteeKeys};
use lightning_core::keys::IpAddress;
use lightning_core::rpc::{RPCModules, RPCSelection};
use lightning_core::text::{is_blank_char, trim};
use lightning_core::timer::{after_poll, get_timer, wait_step, PollStep, WaitStep};
use lightning_core::transport::{MockTransportConfig, MockWriter};
use lightning_core::types::NodePorts;

#[test]
fn rpc_selection_lists_its_modules() {
    assert_eq!(RPCSelection::Nothing.iter(), vec![]);
    assert_eq!(
        RPCSelection::All.iter(),
        vec![RPCModules::Net, RPCModules::Eth, RPCModules::Flk]
    );
    assert_eq!(
        RPCSelection::Selected(vec![RPCModules::Flk, RPCModules::Net]).iter(),
        vec![RPCModules::Flk, RPCModules::Net]
    );
}

#[test]
fn rpc_selection_defaults_to_all() {
    assert_eq!(RPCSelection::default(), RPCSelection::All);
}

#[test]
fn timer_shows_hours_minutes_seconds() {
    assert_eq!(get_timer(0), "00:00:00");
    assert_eq!(get_timer(59), "00:00:59");
    assert_eq!(get_timer(60), "00:01:00");
    assert_eq!(get_timer(3661), "01:01:01");
    assert_eq!(get_timer(86399), "23:59:59");
}

#[test]
fn timer_hours_grow_past_two_digits() {
    assert_eq!(get_timer(100 * 3600 + 5), "100:00:05");
    assert_eq!(get_timer(u64::MAX), "5124095576030431:00:15");
}

#[test]
fn waiting_counts_down_until_the_epoch_ends() {
    assert_eq!(
        wait_step(10_000, 4_000),
        WaitStep::Countdown {
            line: "\rWaiting for new epoch to start. Joining the network in 00:00:06...".to_string(),
            pause_ms: 100,
        }
    );
    // At the end of the epoch the countdown stands at zero.
    assert_eq!(
        wait_step(10_000, 10_000),
        WaitStep::Countdown {
            line: "\rWaiting for new epoch to start. Joining the network in 00:00:00...".to_string(),
            pause_ms: 100,
        }
    );
    assert_eq!(wait_step(10_000, 10_001), WaitStep::Poll);
}

#[test]
fn polling_starts_the_node_in_a_later_epoch() {
    assert_eq!(after_poll(3, 4), PollStep::Start);
    assert_eq!(after_poll(3, 3), PollStep::Retry { pause_ms: 2000 });
    assert_eq!(after_poll(3, 2), PollStep::Retry { pause_ms: 2000 });
}

#[test]
fn required_signals_are_two_thirds_plus_one() {
    assert_eq!(calculate_required_signals(0), 1);
    assert_eq!(calculate_required_signals(1), 1);
    assert_eq!(calculate_required_signals(2), 2);
    assert_eq!(calculate_required_signals(3), 3);
    assert_eq!(calculate_required_signals(4), 3);
    assert_eq!(calculate_required_signals(10), 7);
    assert_eq!(calculate_required_signals(100), 67);
    let n = usize::MAX;
    assert_eq!(calculate_required_signals(n) as u128, 2 * (n as u128) / 3 + 1);
}

#[test]
fn attestation_quorum_is_two_f_plus_one() {
    assert_eq!(calculate_attestation_quorum(1), 1);
    assert_eq!(calculate_attestation_quorum(3), 1);
    assert_eq!(calculate_attestation_quorum(4), 3);
    assert_eq!(calculate_attestation_quorum(7), 5);
    assert_eq!(calculate_attestation_quorum(10), 7);
}

#[test]
fn mock_transport_config_defaults_to_port_zero() {
    assert_eq!(MockTransportConfig::default().port, 0);
    assert_eq!(MockTransportConfig { port: 420 }.port, 420);
}

#[test]
fn test_genesis_has_the_built_in_terms() {
    let genesis = test_genesis();
    assert_eq!(genesis.lock_time, 5);
    assert_eq!(genesis.min_stake, 1000);
    assert_eq!(genesis.max_lock_time, 1460);
    assert_eq!(
        genesis.protocol_share + genesis.node_share + genesis.service_builder_share,
        100
    );
    assert_eq!(genesis.node_info.len(), 4);
    assert_eq!(genesis.service.len(), 2);
    assert_eq!(genesis.service[0].commodity_price, 100_000);
    assert_eq!(genesis.service[1].commodity_price, 200_000);
    assert_eq!(genesis.governance_address, [0xf0; 20]);
    assert_eq!(genesis.protocol_fund_address, [0xf1; 20]);
    for (i, node) in genesis.node_info.iter().enumerate() {
        let keys = CommitteeKeys {
            owner: [i as u8 + 1; 20],
            node_public_key: [i as u8 + 1; 32],
            consensus_public_key: [i as u8 + 1; 96],
        };
        assert_eq!(*node, create_committee_member(&keys, i as u16));
    }
}

#[test]
fn committee_member_ports_follow_the_index() {
    let keys = CommitteeKeys {
        owner: [1; 20],
        node_public_key: [2; 32],
        consensus_public_key: [3; 96],
    };
    let node = create_committee_member(&keys, 7);
    assert_eq!(node.ports.primary, 8007);
    assert_eq!(node.ports.worker, 9007);
    assert_eq!(node.ports.mempool, 7007);
    assert_eq!(node.ports.rpc, 6007);
    assert_eq!(node.ports.pool, 5007);
    assert_eq!(node.ports.dht, 4007);
    assert_eq!(node.ports.pinger, 2007);
    assert_eq!(node.ports.handshake.http, 5007);
    assert_eq!(node.ports.handshake.webrtc, 6007);
    assert_eq!(node.ports.handshake.webtransport, 7007);
    assert_eq!(node.primary_domain, IpAddress::V4([127, 0, 0, 1]));
    assert_eq!(node.worker_public_key, [2; 32]);
    assert!(node.genesis_committee);
    assert_eq!(node.reputation, None);
    assert_ne!(node.ports, NodePorts::default());
}

#[test]
fn dht_messages_hold_their_parts() {
    let query = Query::Find { find_value: true, target: [9; 32] };
    let message = Message {
        id: 1,
        channel_id: 2,
        sender_key: [3; 32],
        payload: MessagePayload::Query(query.clone()),
    };
    assert_eq!(message.payload, MessagePayload::Query(query));
    let response = Response { nodes: vec![], value: Some(vec![1, 2]) };
    assert_ne!(MessagePayload::Response(response), MessagePayload::Query(Query::Ping));
}

#[test]
fn firewall_rule_defaults() {
    assert_eq!(
        make_rule([10, 0, 0, 1], None, 443),
        PacketFilterRule {
            prefix: DEFAULT_PREFIX,
            ip: [10, 0, 0, 1],
            port: 443,
            shortlived: false,
            proto: TCP,
            audit: true,
            action: DROP,
        }
    );
    assert_eq!(make_rule([10, 0, 0, 0], Some(8), 80).prefix, 8);
}

#[test]
fn firewall_form_moves_the_selection_within_the_fields() {
    let mut form = FirewallForm::new();
    let none = || FormInput::Invalid(String::new());
    assert_eq!(form.selected_input_field, 0);
    assert_eq!(form.update(Action::Up, none()), Some(Action::Render));
    assert_eq!(form.selected_input_field, 0);
    assert_eq!(form.update(Action::Down, none()), Some(Action::Render));
    assert_eq!(form.selected_input_field, 1);
    assert_eq!(form.update(Action::Down, none()), Some(Action::Render));
    assert_eq!(form.selected_input_field, 1);
    assert_eq!(form.update(Action::Up, none()), Some(Action::Render));
    assert_eq!(form.selected_input_field, 0);
    assert_eq!(form.update(Action::Quit, none()), None);
}

#[test]
fn firewall_form_keeps_the_rule_of_a_good_input() {
    let mut form = FirewallForm::new();
    let answer = form.update(
        Action::Add,
        FormInput::Rule { ip: [192, 168, 1, 0], prefix: Some(24), port: 22 },
    );
    assert_eq!(answer, Some(Action::UpdateMode(Mode::FirewallEdit)));
    assert_eq!(form.yank_input(), Some(make_rule([192, 168, 1, 0], Some(24), 22)));
    assert_eq!(form.yank_input(), None);
}

#[test]
fn firewall_form_reports_a_bad_input() {
    let mut form = FirewallForm::new();
    let answer = form.update(Action::Add, FormInput::Invalid("Invalid IP".to_string()));
    assert_eq!(answer, Some(Action::Error("Invalid IP".to_string())));
    assert_eq!(form.yank_input(), None);
    assert_eq!(
        form.update(Action::Cancel, FormInput::Invalid(String::new())),
        Some(Action::UpdateMode(Mode::FirewallEdit))
    );
}

#[test]
fn ports_are_read_like_numbers_of_sixteen_bits() {
    assert_eq!(parse_port("80"), Some(80));
    assert_eq!(parse_port("+80"), Some(80));
    assert_eq!(parse_port("0080"), Some(80));
    assert_eq!(parse_port("0"), Some(0));
    assert_eq!(parse_port("65535"), Some(65535));
    assert_eq!(parse_port("65536"), None);
    assert_eq!(parse_port(""), None);
    assert_eq!(parse_port("+"), None);
    for text in [
        "", "+", "-", "-1", "+0", "++1", "1+", " 1", "1 ", "8a", "a8", "0x10", "65535", "65536",
        "000065535", "99999999999999999999", "4294967296", "4294967376", "١٢", "1_000", "+65535",
        "+65536", "12.5",
    ] {
        assert_eq!(parse_port(text), text.parse::<u16>().ok(), "{text:?}");
    }
}

#[test]
fn input_is_an_address_or_a_network_and_a_port() {
    assert_eq!(
        read_input(Some([1, 2, 3, 4]), "1.2.3.4", " 22 "),
        FormInput::Rule { ip: [1, 2, 3, 4], prefix: None, port: 22 }
    );
    assert_eq!(
        read_input(None, "\t10.1.2.3/8 \u{3000}", "\u{a0}443\n"),
        FormInput::Rule { ip: [10, 0, 0, 0], prefix: Some(8), port: 443 }
    );
    assert_eq!(
        read_input(None, "192.168.7.9/32", "1"),
        FormInput::Rule { ip: [192, 168, 7, 9], prefix: Some(32), port: 1 }
    );
    assert_eq!(read_input(None, "10.0.0.0/33", "1"), FormInput::Invalid("Invalid IP".to_string()));
    assert_eq!(read_input(None, "junk", "1"), FormInput::Invalid("Invalid IP".to_string()));
    assert_eq!(read_input(None, "junk", "junk"), FormInput::Invalid("Invalid IP".to_string()));
    assert_eq!(
        read_input(Some([1, 2, 3, 4]), "1.2.3.4", "70000"),
        FormInput::Invalid("Invalid port".to_string())
    );
    assert_eq!(
        read_input(None, "10.0.0.0/8", ""),
        FormInput::Invalid("Invalid port".to_string())
    );
}

#[test]
fn input_is_classified_by_what_was_read() {
    assert_eq!(
        classify_input(Some([1; 4]), Some(([2; 4], 8)), Some(5)),
        FormInput::Rule { ip: [1; 4], prefix: None, port: 5 }
    );
    assert_eq!(
        classify_input(None, Some(([2; 4], 8)), Some(5)),
        FormInput::Rule { ip: [2; 4], prefix: Some(8), port: 5 }
    );
    assert_eq!(classify_input(None, None, Some(5)), FormInput::Invalid("Invalid IP".to_string()));
    assert_eq!(
        classify_input(Some([1; 4]), None, None),
        FormInput::Invalid("Invalid port".to_string())
    );
}

#[test]
fn mock_writer_hands_out_the_frame_once_it_is_whole() {
    let mut writer = MockWriter::new();
    writer.start_write(5);
    assert_eq!(writer.current_write, 0);
    // Nothing is expected: an empty write completes an empty frame.
    assert_eq!(writer.write(&vec![]), (0, Some(vec![])));

    writer.current_write = 5;
    assert_eq!(writer.write(&vec![1, 2]), (2, None));
    assert_eq!(writer.current_write, 3);
    assert_eq!(writer.write(&vec![]), (0, None));
    assert_eq!(writer.write(&vec![3, 4, 5]), (3, Some(vec![1, 2, 3, 4, 5])));
    assert_eq!(writer.current_write, 0);
    assert!(writer.buffer.is_empty());
}

#[test]
fn white_space_is_what_the_standard_library_takes_for_it() {
    for code in 0..=0x10ffffu32 {
        if let Some(c) = char::from_u32(code) {
            assert_eq!(is_blank_char(c), c.is_whitespace(), "U+{code:04X}");
        }
    }
}

#[test]
fn trim_cuts_white_space_off_both_ends() {
    assert_eq!(trim("  a b  "), "a b");
    assert_eq!(trim(""), "");
    assert_eq!(trim(" \t\r\n"), "");
    assert_eq!(trim("x"), "x");
    assert_eq!(trim("\u{2003}é \u{1680}ü\u{205f}"), "é \u{1680}ü");
    for text in [
        "", " ", "a", " a", "a ", " a ", "\u{85}a\u{85}", "\u{200b}a", "a\u{200b}",
        "\u{feff} a", "  \u{3000}日本 語\u{2028}\u{2029}", "\u{1f600} ", "\u{0b}\u{0c}x\u{1c}",
        "\u{202f}\u{a0}|\u{2000}\u{200a}", "no blanks", "\n\nline\n\n",
    ] {
        assert_eq!(trim(text), text.trim(), "{text:?}");
    }
}

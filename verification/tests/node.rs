use agent_net::node::{
    bootstrap, handle_group, handle_message, handle_result, HandleResult, NetworkType,
    ReceiveMessage, RecvType, SendMessage, SendType,
};

/// A host without white space and a number, with a colon between them.
fn parse(text: &str) -> Option<(String, u16)> {
    let (host, number) = text.rsplit_once(':')?;
    if host.is_empty() || host.contains(' ') {
        return None;
    }
    Some((host.to_string(), number.parse().ok()?))
}

fn addresses(messages: Vec<SendMessage<SendType<u8>, NetworkType<(String, u16)>>>) -> Vec<String> {
    messages
        .into_iter()
        .map(|message| match message {
            SendMessage::Network(NetworkType::Connect((host, number))) => format!("{}:{}", host, number),
            SendMessage::Group(_) => panic!("a message to the group"),
        })
        .collect()
}

fn show(messages: Vec<SendMessage<&str, u32>>) -> Vec<String> {
    messages
        .into_iter()
        .map(|message| match message {
            SendMessage::Group(g) => format!("group {}", g),
            SendMessage::Network(n) => format!("network {}", n),
        })
        .collect()
}

#[test]
fn the_network_comes_last() {
    let result: HandleResult<&str, &str, u32> = HandleResult {
        owns: vec!["own"],
        rpcs: vec!["rpc"],
        groups: vec!["a", "b"],
        networks: vec![1, 2],
    };
    assert_eq!(show(handle_result(result)), vec!["group a", "group b", "network 1", "network 2"]);
}

#[test]
fn nothing_to_do_sends_nothing() {
    let result: HandleResult<&str, &str, u32> =
        HandleResult { owns: vec!["own"], rpcs: vec!["rpc"], groups: vec![], networks: vec![] };
    assert!(handle_result(result).is_empty());
}

#[test]
fn a_peer_that_joins_is_declined() {
    let result: HandleResult<SendType<&str>, (), ()> =
        handle_group(RecvType::Connect("peer", vec![1, 2, 3]));
    assert_eq!(result.groups.len(), 1);
    let SendType::Result(delivery, peer, connect, force_close, data) = &result.groups[0];
    assert_eq!((*delivery, *peer, *connect, *force_close, data.len()), (0, "peer", false, false, 0));
    assert!(result.owns.is_empty() && result.rpcs.is_empty() && result.networks.is_empty());
}

#[test]
fn other_reports_are_not_answered() {
    let result: HandleResult<SendType<&str>, (), ()> = handle_group(RecvType::Other);
    assert!(result.groups.is_empty() && result.networks.is_empty());
}

#[test]
fn readable_seeds_are_asked_in() {
    let seeds = vec![" 1.2.3.4:5 ", "nowhere", "\t[::1]:80\n", "1.2.3.4", "\u{3000}9.9.9.9:9"];
    assert_eq!(
        addresses(bootstrap(&seeds, parse)),
        vec!["1.2.3.4:5", "[::1]:80", "9.9.9.9:9"]
    );
    assert!(addresses(bootstrap(&vec![], parse)).is_empty());
}

#[test]
fn white_space_within_a_seed_stays() {
    assert!(addresses(bootstrap(&vec!["1.2.3.4 :5"], parse)).is_empty());
}

#[test]
fn seeds_are_read_trimmed() {
    let texts = bootstrap::<(), String, _>(&vec!["  a b ", "", " \u{a0} "], |s: &str| Some(s.to_string()));
    let texts: Vec<String> = texts
        .into_iter()
        .map(|message| match message {
            SendMessage::Network(NetworkType::Connect(text)) => text,
            SendMessage::Group(()) => panic!("a message to the group"),
        })
        .collect();
    assert_eq!(texts, vec!["a b", "", ""]);
}

#[test]
fn a_lost_network_is_bootstrapped_again() {
    let seeds = vec!["1.2.3.4:5", "x"];
    let messages = handle_message(ReceiveMessage::<u8>::NetworkLost, &seeds, parse);
    assert_eq!(addresses(messages), vec!["1.2.3.4:5"]);
}

#[test]
fn a_group_message_is_answered() {
    let seeds = vec!["1.2.3.4:5"];
    let messages = handle_message(ReceiveMessage::Group(RecvType::Connect(9u8, vec![])), &seeds, parse);
    assert_eq!(messages.len(), 1);
    assert!(matches!(
        &messages[0],
        SendMessage::Group(SendType::Result(0, 9, false, false, data)) if data.is_empty()
    ));
    assert!(handle_message(ReceiveMessage::Group(RecvType::<u8>::Other), &seeds, parse).is_empty());
}

#[test]
fn other_messages_are_passed_over() {
    assert!(handle_message(ReceiveMessage::<u8>::Other, &vec!["1.2.3.4:5"], parse).is_empty());
}

#[test]
fn a_second_bootstrap_repeats_the_first() {
    let seeds = vec!["1.2.3.4:5", "x", " h:1"];
    let first = addresses(bootstrap(&seeds, parse));
    assert_eq!(first, vec!["1.2.3.4:5", "h:1"]);
    assert_eq!(addresses(handle_message(ReceiveMessage::NetworkLost, &seeds, parse)), first);
}

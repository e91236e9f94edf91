use cipher_relay::client::{
    choose_algorithm, generate_and_set_keys, generate_keys, keys_for, ClientReaction,
    ClientSession, ExchangeState,
};
use cipher_relay::constants::{BASE, PRIME};
use cipher_relay::peer::PeerId;
use cipher_relay::registry::PeerRegistry;
use cipher_relay::server::{handle_event, Reaction};
use cipher_relay::structs::{Cipher, DiffieHellman};
use cipher_relay::utils::mod_exp;
use cipher_relay::wire::{Incoming, WireError, WireMessage};

fn text(t: &str) -> Incoming {
    Incoming::Text(t.to_string())
}

fn session() -> ClientSession {
    ClientSession::new(choose_algorithm(1).unwrap())
}

#[test]
fn only_option_one_is_on_offer() {
    assert_eq!(choose_algorithm(1), Some(Cipher::DiffieHellman(DiffieHellman::new())));
    assert_eq!(choose_algorithm(0), None);
    assert_eq!(choose_algorithm(2), None);
    assert_eq!(choose_algorithm(u16::MAX), None);
}

#[test]
fn keys_for_a_private_value() {
    assert_eq!(keys_for(3), (3, 21));
    assert_eq!(keys_for(5), (5, 17));
    assert_eq!(keys_for(0), (0, 1));
    assert_eq!(keys_for(22), (22, mod_exp(7, 22, 23)));
}

#[test]
fn generated_keys_lie_in_range_and_belong_together() {
    let mut seen = Vec::new();
    for _ in 0..400 {
        let (private_key, public_key) = generate_keys();
        assert!(1 <= private_key && private_key < PRIME);
        assert_eq!(public_key, mod_exp(BASE, private_key, PRIME));
        if !seen.contains(&private_key) {
            seen.push(private_key);
        }
    }
    assert!(seen.len() > 1);
}

#[test]
fn generated_keys_are_stored() {
    let mut private_key = u16::MAX;
    let mut public_key = u16::MAX;
    let (pr, pb) = generate_and_set_keys(&mut private_key, &mut public_key);
    assert_eq!((private_key, public_key), (pr, pb));
    assert!(1 <= pr && pr < PRIME);
    assert_eq!(pb, mod_exp(BASE, pr, PRIME));
}

#[test]
fn a_new_session_has_nothing() {
    let s = session();
    assert_eq!(s.state(), ExchangeState::Unkeyed);
    assert_eq!(s.id(), None);
    assert_eq!(s.public_key(), None);
    assert_eq!(s.other_key(), None);
    assert_eq!(s.shared_secret(), None);
    assert!(!s.may_type());
    assert_eq!(s.compose("hi"), None);
}

#[test]
fn a_round_publishes_the_public_value() {
    let mut s = session();
    assert_eq!(s.start_round_with(3), "set_public_key:21");
    assert_eq!(s.state(), ExchangeState::KeySet);
    assert_eq!(s.public_key(), Some(21));
    assert_eq!(s.shared_secret(), None);
    assert!(!s.may_type());
}

#[test]
fn a_random_round_publishes_a_fitting_value() {
    let mut s = session();
    let frame = s.start_round();
    let public_key = s.public_key().unwrap();
    assert_eq!(frame, format!("set_public_key:{}", public_key));
    assert!((1..PRIME).any(|private_key| mod_exp(BASE, private_key, PRIME) == public_key));
    assert_eq!(s.state(), ExchangeState::KeySet);
}

#[test]
fn an_announced_identity_is_kept_and_answered() {
    let mut s = session();
    s.start_round_with(3);
    let reaction = s.handle_event(&text("550e8400-e29b-41d4-a716-446655440000"));
    assert_eq!(reaction, ClientReaction::Send("get_public_key".to_string()));
    assert_eq!(s.id(), Some(PeerId(0x550e8400_e29b_41d4_a716_446655440000)));
    assert_eq!(s.state(), ExchangeState::KeySet);
}

#[test]
fn a_delivered_key_completes_the_exchange() {
    let mut s = session();
    s.start_round_with(3);
    assert_eq!(s.handle_event(&text("get_public_key:17")), ClientReaction::Ready);
    assert_eq!(s.state(), ExchangeState::Exchanged);
    assert_eq!(s.other_key(), Some(17));
    assert_eq!(s.shared_secret(), Some(14));
    assert!(s.may_type());
}

#[test]
fn a_malformed_key_is_dropped() {
    let mut s = session();
    s.start_round_with(3);
    assert_eq!(s.handle_event(&text("get_public_key:seventeen")), ClientReaction::Nothing);
    assert_eq!(s.state(), ExchangeState::KeySet);
    assert_eq!(s.other_key(), None);
    assert_eq!(s.handle_message(Err(WireError::MalformedArgument)), ClientReaction::Nothing);
}

#[test]
fn a_line_is_trimmed_and_enciphered() {
    let mut s = session();
    s.start_round_with(3);
    s.handle_event(&text("get_public_key:17"));
    assert_eq!(s.compose("  hi \n"), Some("vw".to_string()));
    assert_eq!(s.compose("Hello, World!"), Some("Vszzc, Kcfzr!".to_string()));
    assert_eq!(s.compose("   "), Some(String::new()));
}

#[test]
fn chat_content_is_deciphered_and_shown() {
    let mut s = session();
    s.start_round_with(5);
    assert_eq!(s.handle_event(&text("vw")), ClientReaction::Nothing);
    s.handle_event(&text("get_public_key:21"));
    assert_eq!(s.shared_secret(), Some(14));
    assert_eq!(s.handle_event(&text("vw")), ClientReaction::Show("hi".to_string()));
    assert_eq!(
        s.handle_message(Ok(WireMessage::Payload("Vszzc, Kcfzr!".to_string()))),
        ClientReaction::Show("Hello, World!".to_string())
    );
}

#[test]
fn chat_content_before_the_own_keys_is_dropped() {
    let mut s = session();
    assert_eq!(s.handle_event(&text("get_public_key:21")), ClientReaction::Ready);
    assert_eq!(s.state(), ExchangeState::Unkeyed);
    assert!(!s.may_type());
    assert_eq!(s.compose("hi"), None);
    assert_eq!(s.handle_event(&text("vw")), ClientReaction::Nothing);
}

#[test]
fn a_sent_line_closes_the_keyboard_and_begins_a_round() {
    let mut s = session();
    s.start_round_with(3);
    s.handle_event(&text("get_public_key:17"));
    assert_eq!(s.line_sent_with(5), "set_public_key:17");
    assert!(!s.may_type());
    assert_eq!(s.compose("hi"), None);
    assert_eq!(s.public_key(), Some(17));
    assert_eq!(s.other_key(), Some(17));
    assert_eq!(s.state(), ExchangeState::Exchanged);
    assert_eq!(s.handle_event(&text("get_public_key:21")), ClientReaction::Ready);
    assert!(s.may_type());
    assert_eq!(s.shared_secret(), Some(mod_exp(21, 5, 23)));
}

#[test]
fn a_sent_line_begins_a_random_round() {
    let mut s = session();
    s.start_round_with(3);
    s.handle_event(&text("get_public_key:17"));
    let frame = s.line_sent();
    assert_eq!(frame, format!("set_public_key:{}", s.public_key().unwrap()));
    assert!(!s.may_type());
}

#[test]
fn the_end_of_the_connection() {
    let mut s = session();
    assert_eq!(s.handle_event(&Incoming::Close), ClientReaction::Stop);
    assert_eq!(s.handle_event(&Incoming::Failed), ClientReaction::Stop);
    assert_eq!(s.handle_event(&Incoming::Other), ClientReaction::Nothing);
    assert_eq!(s.handle_message(Ok(WireMessage::Close)), ClientReaction::Stop);
    assert_eq!(s.handle_message(Ok(WireMessage::GetPublicKeyRequest)), ClientReaction::Nothing);
    assert_eq!(s.handle_message(Ok(WireMessage::SetPublicKey(3))), ClientReaction::Nothing);
    assert_eq!(s.state(), ExchangeState::Unkeyed);
}

struct Peer {
    id: PeerId,
    session: ClientSession,
    inbox: Vec<String>,
    shown: Vec<String>,
}

fn carry_out(registry: &mut PeerRegistry<usize>, peers: &mut Vec<Peer>, from: usize, frame: String) {
    let id = peers[from].id;
    match handle_event(registry, id, &Incoming::Text(frame)) {
        Reaction::Publish(value) => registry.set_public_value(id, value),
        Reaction::Deliver(out) => {
            for delivery in out {
                let slot = registry.find(delivery.to).unwrap().outbound;
                peers[slot].inbox.push(delivery.frame);
            }
        }
        Reaction::Nothing => {}
        Reaction::Stop => panic!("no stop expected"),
    }
}

fn drain(registry: &mut PeerRegistry<usize>, peers: &mut Vec<Peer>) {
    loop {
        let mut quiet = true;
        for at in 0..peers.len() {
            let frames: Vec<String> = peers[at].inbox.drain(..).collect();
            for frame in frames {
                quiet = false;
                match peers[at].session.handle_event(&Incoming::Text(frame)) {
                    ClientReaction::Send(reply) => carry_out(registry, peers, at, reply),
                    ClientReaction::Show(plain) => peers[at].shown.push(plain),
                    ClientReaction::Ready | ClientReaction::Nothing => {}
                    ClientReaction::Stop => panic!("no stop expected"),
                }
            }
        }
        if quiet {
            break;
        }
    }
}

fn join(registry: &mut PeerRegistry<usize>, peers: &mut Vec<Peer>, private_key: u16) -> usize {
    let id = PeerId::generate();
    let slot = peers.len();
    assert!(registry.try_register(id, slot));
    let mut session = session();
    let publish = session.start_round_with(private_key);
    peers.push(Peer { id, session, inbox: vec![id.to_text()], shown: Vec::new() });
    carry_out(registry, peers, slot, publish);
    drain(registry, peers);
    slot
}

#[test]
fn two_peers_talk_through_the_relay() {
    let mut registry = PeerRegistry::new();
    let mut peers = Vec::new();
    let a = join(&mut registry, &mut peers, 3);
    assert_eq!(peers[a].session.state(), ExchangeState::KeySet);
    let b = join(&mut registry, &mut peers, 5);
    assert_eq!(peers[a].session.id(), Some(peers[a].id));
    assert_eq!(peers[b].session.id(), Some(peers[b].id));
    assert_eq!(peers[a].session.other_key(), Some(17));
    assert_eq!(peers[b].session.other_key(), Some(21));
    assert_eq!(peers[a].session.shared_secret(), Some(14));
    assert_eq!(peers[b].session.shared_secret(), Some(14));
    let frame = peers[a].session.compose("Hello, World!\n").unwrap();
    assert_ne!(frame, "Hello, World!");
    carry_out(&mut registry, &mut peers, a, frame);
    drain(&mut registry, &mut peers);
    assert_eq!(peers[b].shown, vec!["Hello, World!".to_string()]);
    assert!(peers[a].shown.is_empty());
}

#[test]
fn broadcast_scenario() {
    let mut registry = PeerRegistry::new();
    let mut peers = Vec::new();
    let a = join(&mut registry, &mut peers, 3);
    let b = join(&mut registry, &mut peers, 5);
    let c = join(&mut registry, &mut peers, 5);
    assert_eq!(peers[a].session.shared_secret(), Some(14));
    assert_eq!(peers[b].session.shared_secret(), Some(14));
    assert_eq!(peers[c].session.shared_secret(), Some(14));
    let frame = peers[a].session.compose("hi").unwrap();
    assert_eq!(frame, "vw");
    carry_out(&mut registry, &mut peers, a, frame);
    assert_eq!(peers[b].inbox, vec!["vw".to_string()]);
    assert_eq!(peers[c].inbox, vec!["vw".to_string()]);
    assert!(peers[a].inbox.is_empty());
    drain(&mut registry, &mut peers);
    assert_eq!(peers[b].shown, vec!["hi".to_string()]);
    assert_eq!(peers[c].shown, vec!["hi".to_string()]);
    assert!(peers[a].shown.is_empty());
}

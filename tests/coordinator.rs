use quic_core::coordinator::Spaces;
use quic_core::param::Role;

#[test]
fn client_key_lifecycle() {
    let mut s: Spaces<u64> = Spaces::new(Role::Client);
    s.on_0rtt_keys_ready();
    assert!(s.zero_rtt_keys);
    s.on_handshake_packet();
    assert!(s.initial.is_none() && s.handshake.is_some());
    s.on_1rtt_keys_installed();
    assert!(s.one_rtt_keys && s.zero_rtt_keys);
    s.on_handshake_confirmed();
    assert!(s.handshake.is_none() && !s.zero_rtt_keys && s.data.handshake_confirmed);
    s.on_0rtt_keys_ready();
    assert!(!s.zero_rtt_keys);
}

#[test]
fn server_drops_0rtt_keys_at_1rtt_install() {
    let mut s: Spaces<u64> = Spaces::new(Role::Server);
    s.on_0rtt_keys_ready();
    s.on_1rtt_keys_installed();
    assert!(!s.zero_rtt_keys && s.zero_rtt_discarded);
    assert!(s.initial.is_some());
    s.on_handshake_confirmed();
    assert!(s.handshake.is_none() && s.handshake_confirmed);
}

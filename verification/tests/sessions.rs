//! Session identifiers and the reboot flag.

use recentip::config::RuntimeConfig;
use recentip::net::{Ipv4Addr, SocketAddr};
use recentip::runtime::state::{PeerChannelSession, RuntimeState};

fn new_state() -> RuntimeState {
    RuntimeState::new(
        SocketAddr::v4(Ipv4Addr::new(127, 0, 0, 1), 30490),
        SocketAddr::v4(Ipv4Addr::new(127, 0, 0, 1), 49152),
        1,
        RuntimeConfig::default(),
    )
}

#[test]
fn session_id_wraps_to_0001_not_0000() {
    let mut state = new_state();
    assert_eq!(state.next_multicast_session_id(), 1, "Session ID should start at 1");
    for expected in 2..=0xFFFFu16 {
        let id = state.next_multicast_session_id();
        assert_eq!(id, expected, "Session ID should be {}", expected);
        assert_ne!(id, 0, "Session ID should never be 0");
    }
    let wrapped = state.next_multicast_session_id();
    assert_eq!(wrapped, 1, "Session ID should wrap to 1 after 0xFFFF");
    assert_eq!(state.next_multicast_session_id(), 2);
    assert_eq!(state.next_multicast_session_id(), 3);
}

#[test]
fn reboot_flag_clears_after_wraparound() {
    let mut state = new_state();
    assert!(
        !state.multicast_has_wrapped_once(),
        "multicast_has_wrapped_once should be false initially"
    );
    for _ in 1..=0xFFFFu16 {
        state.next_multicast_session_id();
    }
    assert!(
        state.multicast_has_wrapped_once(),
        "multicast_has_wrapped_once should be true after wraparound"
    );
    for _ in 1..=0xFFFFu16 {
        state.next_multicast_session_id();
    }
    assert!(
        state.multicast_has_wrapped_once(),
        "multicast_has_wrapped_once should be true after second wraparound"
    );
}

#[test]
fn session_id_never_zero() {
    let mut state = new_state();
    for _ in 0..(0xFFFF * 2 + 1000) {
        let id = state.next_unicast_session_id();
        assert_ne!(id, 0, "Session ID must never be 0");
    }
}

#[test]
fn state_session_id_wraps_to_0001_not_0000() {
    let mut state = new_state();
    assert_eq!(state.next_unicast_session_id(), 1, "Session ID should start at 1");
    for expected in 2..=0xFFFFu16 {
        let id = state.next_unicast_session_id();
        assert_eq!(id, expected, "Session ID should be {}", expected);
        assert_ne!(id, 0, "Session ID should never be 0");
    }
    let wrapped = state.next_unicast_session_id();
    assert_eq!(wrapped, 1, "Session ID should wrap to 1 after 0xFFFF");
    assert_eq!(state.next_unicast_session_id(), 2);
    assert_eq!(state.next_unicast_session_id(), 3);
}

#[test]
fn state_reboot_flag_clears_after_wraparound() {
    let mut state = new_state();
    assert!(state.sd_flags(true) & 0x80 != 0, "Reboot flag should be true initially");
    assert!(
        !state.unicast_has_wrapped_once(),
        "has_wrapped_once should be false initially"
    );
    for _ in 1..=0xFFFFu16 {
        state.next_unicast_session_id();
    }
    assert!(
        state.sd_flags(true) & 0x80 == 0,
        "Reboot flag should be false after wraparound"
    );
    assert!(
        state.unicast_has_wrapped_once(),
        "has_wrapped_once should be true after wraparound"
    );
    for _ in 1..=0xFFFFu16 {
        state.next_unicast_session_id();
    }
    assert!(
        state.sd_flags(true) & 0x80 == 0,
        "Reboot flag should stay false after second wraparound"
    );
}

#[test]
fn state_session_id_never_zero() {
    let mut state = new_state();
    for _ in 0..(0xFFFF * 2 + 1000) {
        let id = state.next_multicast_session_id();
        assert_ne!(id, 0, "Session ID must never be 0");
    }
}

#[test]
fn request_sessions_wrap_like_the_others() {
    let mut state = new_state();
    for n in 0..0x1_0002u32 {
        assert_eq!(state.next_payload_session_id() as u32, 1 + n % 0xFFFF);
    }
}

#[test]
fn flags_name_the_channel_and_the_reboot() {
    let mut state = new_state();
    assert_eq!(state.sd_flags(false), 0x80);
    assert_eq!(state.sd_flags(true), 0xC0);
    for _ in 1..=0xFFFFu16 {
        state.next_multicast_session_id();
    }
    assert_eq!(state.sd_flags(false), 0x00);
    assert_eq!(state.sd_flags(true), 0xC0);
}

#[test]
fn client_identifier_comes_from_the_port() {
    assert_eq!(new_state().client_id, 30490 % 0xFFFE + 1);
}

#[test]
fn a_peer_is_taken_for_rebooted_when_its_sessions_start_over() {
    let mut peer = PeerChannelSession::default();
    assert!(!peer.check_and_update(5, true));
    assert!(!peer.check_and_update(6, true));
    assert!(!peer.check_and_update(6, true));
    assert!(peer.check_and_update(5, true));
    assert!(!peer.check_and_update(5, true));
    assert!(peer.check_and_update(1, true));
    assert!(!peer.check_and_update(0xFFFF, true));
    assert!(!peer.check_and_update(1, false));
    assert!(!peer.check_and_update(2, false));
    assert!(peer.check_and_update(1, true));
}

#[test]
fn ports_are_shared_between_services_only() {
    let mut state = new_state();
    assert_eq!(state.find_reusable_subscription_endpoint(0x10, 1), Some(49152));
    state.register_subscription_endpoint(49152, 0x10, 1);
    assert_eq!(state.find_reusable_subscription_endpoint(0x10, 1), None);
    assert_eq!(state.find_reusable_subscription_endpoint(0x11, 1), Some(49152));
    state.register_subscription_endpoint(50000, 0x11, 1);
    assert_eq!(state.find_reusable_subscription_endpoint(0x10, 1), Some(50000));
    state.unregister_subscription_endpoint(49152, 0x10, 1);
    assert_eq!(state.find_reusable_subscription_endpoint(0x10, 1), Some(49152));
    assert_eq!(state.subscription_endpoint_usage.len(), 1);
}

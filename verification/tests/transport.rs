use eip1193_browser::{
    Address, BrowserTransport, Eip1193, EthereumError, Event, WalletType, WebProvider,
};

type Transport = BrowserTransport<u32>;

#[test]
fn new_transport_is_idle() {
    let t = Transport::new();
    assert_eq!(t.wallet(), WebProvider::NotConnected);
    assert!(t.listener().is_none());
    assert!(!t.poll_ready());
}

#[test]
fn availability_follows_the_browser() {
    let t = Transport::new();
    assert!(t.is_available(WalletType::Injected, true));
    assert!(!t.is_available(WalletType::Injected, false));
    assert!(t.injected_available(true));
    assert!(!t.injected_available(false));
    assert_eq!(t.available_wallets(true), vec![WalletType::Injected]);
    assert_eq!(t.available_wallets(false), Vec::<WalletType>::new());
}

#[test]
fn connect_with_listener_reports_connected() {
    let mut t = Transport::new();
    let events = t.connect(WalletType::Injected, Some(7), true).unwrap();
    assert_eq!(events, vec![Event::Connected]);
    assert_eq!(t.wallet(), WebProvider::Injected(Eip1193::new()));
    assert_eq!(t.listener(), Some(&7));
    assert!(t.poll_ready());
}

#[test]
fn connect_without_listener_reports_nothing() {
    let mut t = Transport::new();
    let events = t.connect(WalletType::Injected, None, true).unwrap();
    assert!(events.is_empty());
    assert!(t.poll_ready());
}

#[test]
fn connect_without_wallet_is_unavailable() {
    let mut t = Transport::new();
    let r = t.connect(WalletType::Injected, Some(3), false);
    assert!(matches!(r, Err(EthereumError::Unavailable)));
    assert_eq!(t.wallet(), WebProvider::NotConnected);
    // The listener was replaced before the wallet was looked for.
    assert_eq!(t.listener(), Some(&3));
    assert!(!t.poll_ready());
}

#[test]
fn connect_twice_is_refused_and_changes_nothing() {
    let mut t = Transport::new();
    t.connect(WalletType::Injected, Some(1), true).unwrap();
    let r = t.connect(WalletType::Injected, Some(2), true);
    assert!(matches!(r, Err(EthereumError::AlreadyConnected)));
    assert_eq!(t.listener(), Some(&1));
    assert!(t.poll_ready());
}

#[test]
fn disconnect_reports_no_chain_and_no_accounts() {
    let mut t = Transport::new();
    t.connect(WalletType::Injected, Some(1), true).unwrap();
    let events = t.disconnect();
    assert_eq!(events, vec![Event::ChainIdChanged(None), Event::AccountsChanged(None)]);
    assert_eq!(t.wallet(), WebProvider::NotConnected);
    assert_eq!(t.listener(), Some(&1));
    assert!(!t.poll_ready());
}

#[test]
fn reconnect_after_disconnect() {
    let mut t = Transport::new();
    t.connect(WalletType::Injected, Some(1), true).unwrap();
    t.disconnect();
    let events = t.connect(WalletType::Injected, None, true).unwrap();
    assert!(events.is_empty());
    assert!(t.poll_ready());
    assert!(t.listener().is_none());
}

#[test]
fn no_listener_no_events() {
    let mut t = Transport::new();
    assert!(t.disconnect().is_empty());
    assert!(t.emit_event(Event::Connected).is_empty());
    assert!(t.on_disconnected().is_empty());
    assert_eq!(t.on_chain_changed("0x1"), Some(vec![]));
    assert!(t.on_accounts_changed(&vec!["x".to_string()]).is_empty());
}

#[test]
fn set_listeners_replaces_the_listener() {
    let mut t = Transport::new();
    t.set_listeners(5);
    assert_eq!(t.listener(), Some(&5));
    assert_eq!(t.emit_event(Event::Disconnected), vec![Event::Disconnected]);
    t.set_listeners(6);
    assert_eq!(t.listener(), Some(&6));
    assert!(!t.poll_ready());
}

#[test]
fn disconnected_handler() {
    let mut t = Transport::new();
    t.connect(WalletType::Injected, Some(1), true).unwrap();
    let mut handler_copy = t.clone();
    let events = handler_copy.on_disconnected();
    assert_eq!(
        events,
        vec![Event::ChainIdChanged(None), Event::AccountsChanged(None), Event::Disconnected]
    );
    assert!(!handler_copy.poll_ready());
    // The transport itself keeps its wallet.
    assert!(t.poll_ready());
}

#[test]
fn chain_changed_handler() {
    let mut t = Transport::new();
    t.connect(WalletType::Injected, Some(1), true).unwrap();
    assert_eq!(t.on_chain_changed("0x89"), Some(vec![Event::ChainIdChanged(Some(137))]));
    assert_eq!(t.on_chain_changed("nonsense"), None);
}

#[test]
fn accounts_changed_handler() {
    let mut t = Transport::new();
    t.connect(WalletType::Injected, Some(1), true).unwrap();
    let mut one = [0u8; 20];
    one[19] = 1;
    let events = t.on_accounts_changed(&vec![
        "0x0000000000000000000000000000000000000001".to_string(),
        "bad".to_string(),
    ]);
    assert_eq!(events, vec![Event::AccountsChanged(Some(vec![Address(one), Address::zero()]))]);
}

#[test]
fn web_provider_equality_is_by_kind() {
    assert_eq!(WebProvider::NotConnected, WebProvider::NotConnected);
    assert_eq!(WebProvider::Injected(Eip1193 {}), WebProvider::Injected(Eip1193::new()));
    assert_ne!(WebProvider::NotConnected, WebProvider::Injected(Eip1193 {}));
}

#[test]
fn error_variants() {
    let e = EthereumError::NotConnected;
    assert!(matches!(e, EthereumError::NotConnected));
    let e = EthereumError::Eip1193Error(eip1193_browser::Eip1193Error::JsNoEthereum);
    assert!(format!("{:?}", e).contains("JsNoEthereum"));
}

#[test]
fn wallet_lookup_only_while_disconnected() {
    let mut t = Transport::new();
    assert!(t.needs_wallet_lookup());
    t.connect(WalletType::Injected, None, true).unwrap();
    assert!(!t.needs_wallet_lookup());
    t.disconnect();
    assert!(t.needs_wallet_lookup());
}

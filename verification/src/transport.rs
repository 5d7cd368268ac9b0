//! The browser transport: which wallet is connected, who listens to its
//! events, and which events a step hands to the listener.
//!
//! The transport only decides. The caller does the browser work that a step
//! asks for (asking `window.ethereum` whether it exists, registering the
//! provider's event handlers, handing events to the listener) and reports
//! what it found as plain values.
use vstd::prelude::*;
use crate::address::{Address, account_or_zero, accounts_from_text};
use crate::chain_id::{chain_id_of, parse_chain_id};
use crate::eip1193::Eip1193;
use crate::errors::EthereumError;

verus! {

/// The kinds of wallet that the transport can connect.
#[derive(Clone, Copy, Debug, PartialEq, Eq, Structural)]
pub enum WalletType {
    /// A provider injected by a browser extension at `window.ethereum`.
    Injected,
}

/// The wallet a transport is connected to, if any.
#[derive(Debug, Clone, Copy)]
pub enum WebProvider {
    NotConnected,
    Injected(Eip1193),
}

/// Two providers are equal when they are of the same kind.
impl PartialEq for WebProvider {
    fn eq(&self, other: &Self) -> (r: bool) {
        match (self, other) {
            (WebProvider::NotConnected, WebProvider::NotConnected) => true,
            (WebProvider::Injected(_), WebProvider::Injected(_)) => true,
            _ => false,
        }
    }
}

impl vstd::std_specs::cmp::PartialEqSpecImpl for WebProvider {
    open spec fn obeys_eq_spec() -> bool {
        true
    }

    open spec fn eq_spec(&self, other: &Self) -> bool {
        (*self is NotConnected && *other is NotConnected) || (*self is Injected && *other is Injected)
    }
}

/// Of providers, being of the same kind is being equal.
pub proof fn lemma_web_provider_eq(a: WebProvider, b: WebProvider)
    ensures
        vstd::std_specs::cmp::PartialEqSpec::eq_spec(&a, &b) <==> a == b,
{
}

/// Events that the transport hands to its listener.
#[derive(Debug, Clone, PartialEq)]
pub enum Event {
    ConnectionWaiting(String),
    Connected,
    Disconnected,
    ChainIdChanged(Option<u64>),
    AccountsChanged(Option<Vec<Address>>),
}

/// The abstract state of a transport: the connected wallet and the listener.
pub struct TransportState<L> {
    pub wallet: WebProvider,
    pub listener: Option<L>,
}

/// The events of `events` that reach a listener: all of them where there is
/// one, none where there is none.
pub open spec fn emitted<L>(listener: Option<L>, events: Seq<Event>) -> Seq<Event> {
    if listener is Some {
        events
    } else {
        Seq::empty()
    }
}

/// Whether the transport can take requests: it can while an injected
/// wallet is connected.
pub open spec fn is_ready<L>(s: TransportState<L>) -> bool {
    s.wallet is Injected
}

/// The state after `connect` (see [`BrowserTransport::connect`]).
pub open spec fn after_connect<L>(
    s: TransportState<L>,
    wallet: WalletType,
    listener: Option<L>,
    injected_present: bool,
) -> TransportState<L> {
    if !(s.wallet is NotConnected) {
        s
    } else if !injected_present {
        TransportState { wallet: WebProvider::NotConnected, listener }
    } else {
        TransportState { wallet: WebProvider::Injected(Eip1193 {  }), listener }
    }
}

/// What `connect` answers (see [`BrowserTransport::connect`]): the events
/// for the listener, or the error.
pub open spec fn connect_outcome<L>(
    s: TransportState<L>,
    wallet: WalletType,
    listener: Option<L>,
    injected_present: bool,
) -> Result<Seq<Event>, EthereumError> {
    if !(s.wallet is NotConnected) {
        Err(EthereumError::AlreadyConnected)
    } else if !injected_present {
        Err(EthereumError::Unavailable)
    } else {
        Ok(emitted(listener, seq![Event::Connected]))
    }
}

/// The state after `disconnect`: no wallet, the same listener.
pub open spec fn after_disconnect<L>(s: TransportState<L>) -> TransportState<L> {
    TransportState { wallet: WebProvider::NotConnected, listener: s.listener }
}

/// The events that `disconnect` hands to the listener.
pub open spec fn disconnect_events<L>(s: TransportState<L>) -> Seq<Event> {
    emitted(s.listener, seq![Event::ChainIdChanged(None), Event::AccountsChanged(None)])
}

/// A transport: the connected wallet, if any, and the listener, if any, of
/// type `L`, to which the caller hands the events that each step returns.
#[derive(Clone)]
pub struct BrowserTransport<L> {
    wallet: WebProvider,
    listener: Option<L>,
}

impl<L> View for BrowserTransport<L> {
    type V = TransportState<L>;

    closed spec fn view(&self) -> TransportState<L> {
        TransportState { wallet: self.wallet, listener: self.listener }
    }
}

impl<L> BrowserTransport<L> {
    /// A transport with no wallet and no listener.
    pub fn new() -> (r: Self)
        ensures
            r@.wallet is NotConnected,
            r@.listener is None,
    {
        BrowserTransport { wallet: WebProvider::NotConnected, listener: None }
    }

    /// The connected wallet.
    pub fn wallet(&self) -> (r: WebProvider)
        ensures
            r == self@.wallet,
    {
        self.wallet
    }

    /// The listener, if there is one.
    pub fn listener(&self) -> (r: Option<&L>)
        ensures
            r is Some <==> self@.listener is Some,
            r matches Some(l) ==> self@.listener == Some(*l),
    {
        match &self.listener {
            Some(l) => Some(l),
            None => None,
        }
    }

    /// Whether a wallet of the given type can be connected;
    /// `injected_present` tells whether the browser has a `window.ethereum`.
    pub fn is_available(&self, wallet_type: WalletType, injected_present: bool) -> (r: bool)
        ensures
            r == injected_present,
    {
        match wallet_type {
            WalletType::Injected => self.injected_available(injected_present),
        }
    }

    /// The wallet types that can be connected, given whether the browser
    /// has a `window.ethereum`.
    pub fn available_wallets(&self, injected_present: bool) -> (r: Vec<WalletType>)
        ensures
            r@ == (if injected_present {
                seq![WalletType::Injected]
            } else {
                Seq::empty()
            }),
    {
        let mut types: Vec<WalletType> = Vec::new();
        if injected_present {
            types.push(WalletType::Injected);
        }
        assert(types@ =~= (if injected_present {
            seq![WalletType::Injected]
        } else {
            Seq::<WalletType>::empty()
        }));
        types
    }

    /// Whether an injected wallet can be connected: whether the browser has
    /// a `window.ethereum`.
    pub fn injected_available(&self, injected_present: bool) -> (r: bool)
        ensures
            r == injected_present,
    {
        injected_present
    }

    /// Whether the transport can take requests: it can while an injected
    /// wallet is connected; otherwise the backend is gone.
    pub fn poll_ready(&self) -> (r: bool)
        ensures
            r == is_ready(self@),
    {
        self.wallet == WebProvider::Injected(Eip1193::new())
    }

    /// The events of `event` that reach the listener.
    pub fn emit_event(&self, event: Event) -> (r: Vec<Event>)
        ensures
            r@ == emitted(self@.listener, seq![event]),
    {
        let mut r: Vec<Event> = Vec::new();
        if self.listener.is_some() {
            r.push(event);
        }
        assert(r@ =~= emitted(self@.listener, seq![event]));
        r
    }

    /// Whether `connect` needs to know if the browser has a wallet: only
    /// while no wallet is connected (a connected transport refuses at once).
    pub fn needs_wallet_lookup(&self) -> (r: bool)
        ensures
            r == (self@.wallet is NotConnected),
    {
        match self.wallet {
            WebProvider::NotConnected => true,
            WebProvider::Injected(_) => false,
        }
    }

    /// Connects a wallet of type `wallet` and makes `listener` the listener.
    ///
    /// Refused with `AlreadyConnected`, and nothing changed, while a wallet
    /// is connected. Otherwise the listener is replaced; then, where the
    /// browser has no `window.ethereum`, the answer is `Unavailable`, else
    /// the injected wallet is connected and the answer holds the
    /// `Connected` event for the listener. After a successful connect the
    /// caller registers the provider's `disconnected`, `chainChanged` and
    /// `accountsChanged` handlers on a clone of the transport.
    pub fn connect(&mut self, wallet: WalletType, listener: Option<L>, injected_present: bool) -> (r:
        Result<Vec<Event>, EthereumError>)
        ensures
            final(self)@ == after_connect(old(self)@, wallet, listener, injected_present),
            match r {
                Ok(events) => connect_outcome(old(self)@, wallet, listener, injected_present) == Ok::<
                    Seq<Event>,
                    EthereumError,
                >(events@),
                Err(e) => connect_outcome(old(self)@, wallet, listener, injected_present) == Err::<
                    Seq<Event>,
                    EthereumError,
                >(e),
            },
    {
        if self.wallet != WebProvider::NotConnected {
            return Err(EthereumError::AlreadyConnected);
        }
        self.listener = listener;
        match wallet {
            WalletType::Injected => self.connect_injected(injected_present),
        }
    }

    fn connect_injected(&mut self, injected_present: bool) -> (r: Result<Vec<Event>, EthereumError>)
        requires
            old(self)@.wallet is NotConnected,
        ensures
            final(self)@.listener == old(self)@.listener,
            injected_present ==> final(self)@.wallet == WebProvider::Injected(Eip1193 {  }),
            !injected_present ==> final(self)@.wallet is NotConnected,
            match r {
                Ok(events) => injected_present && events@ == emitted(
                    old(self)@.listener,
                    seq![Event::Connected],
                ),
                Err(e) => !injected_present && e == EthereumError::Unavailable,
            },
    {
        if !self.injected_available(injected_present) {
            return Err(EthereumError::Unavailable);
        }
        self.wallet = WebProvider::Injected(Eip1193::new());
        Ok(self.emit_event(Event::Connected))
    }

    /// Makes `listener` the listener.
    pub fn set_listeners(&mut self, listener: L)
        ensures
            final(self)@.wallet == old(self)@.wallet,
            final(self)@.listener == Some(listener),
    {
        self.listener = Some(listener);
    }

    /// Disconnects the wallet; the listener learns that there is no chain
    /// and no account any more.
    pub fn disconnect(&mut self) -> (r: Vec<Event>)
        ensures
            final(self)@ == after_disconnect(old(self)@),
            r@ == disconnect_events(old(self)@),
    {
        self.wallet = WebProvider::NotConnected;
        let mut r = self.emit_event(Event::ChainIdChanged(None));
        let mut more = self.emit_event(Event::AccountsChanged(None));
        r.append(&mut more);
        assert(r@ =~= disconnect_events(old(self)@));
        r
    }

    /// The provider's `disconnected` event, on the transport that the
    /// handler holds: it disconnects, then reports `Disconnected`.
    pub fn on_disconnected(&mut self) -> (r: Vec<Event>)
        ensures
            final(self)@ == after_disconnect(old(self)@),
            r@ == disconnect_events(old(self)@) + emitted(
                old(self)@.listener,
                seq![Event::Disconnected],
            ),
    {
        let mut r = self.disconnect();
        let mut more = self.emit_event(Event::Disconnected);
        r.append(&mut more);
        r
    }

    /// The provider's `chainChanged` event with the chain id text `chain_id`:
    /// the listener learns the new chain. `None` where the text is no chain
    /// id (see [`chain_id_of`]).
    pub fn on_chain_changed(&self, chain_id: &str) -> (r: Option<Vec<Event>>)
        ensures
            match chain_id_of(chain_id@) {
                Some(id) => r matches Some(events) && events@ == emitted(
                    self@.listener,
                    seq![Event::ChainIdChanged(Some(id))],
                ),
                None => r is None,
            },
    {
        match parse_chain_id(chain_id) {
            Some(id) => Some(self.emit_event(Event::ChainIdChanged(Some(id)))),
            None => None,
        }
    }

    /// The provider's `accountsChanged` event with the account texts
    /// `accounts`: the listener learns the new accounts, in the order given,
    /// each entry that spells no address standing for the zero address.
    pub fn on_accounts_changed(&self, accounts: &Vec<String>) -> (r: Vec<Event>)
        ensures
            self@.listener is None ==> r@ == Seq::<Event>::empty(),
            self@.listener is Some ==> r.len() == 1 && (r[0] matches Event::AccountsChanged(
                Some(a),
            ) && a.len() == accounts.len() && forall|i: int|
                0 <= i < a.len() ==> #[trigger] a[i]@ == account_or_zero(accounts[i]@)),
    {
        let addresses = accounts_from_text(accounts);
        let r = self.emit_event(Event::AccountsChanged(Some(addresses)));
        r
    }
}

/// While a wallet is connected, `connect` is refused with
/// `AlreadyConnected` and changes nothing.
pub proof fn lemma_connect_refused_while_connected<L>(
    s: TransportState<L>,
    wallet: WalletType,
    listener: Option<L>,
    injected_present: bool,
)
    requires
        !(s.wallet is NotConnected),
    ensures
        after_connect(s, wallet, listener, injected_present) == s,
        connect_outcome(s, wallet, listener, injected_present) == Err::<Seq<Event>, EthereumError>(
            EthereumError::AlreadyConnected,
        ),
{
}

/// `connect` succeeds exactly when it finds the transport disconnected and
/// the browser offers a wallet; then the transport is ready and has the new
/// listener, and the listener, if any, learns `Connected`.
pub proof fn lemma_connect_success<L>(
    s: TransportState<L>,
    wallet: WalletType,
    listener: Option<L>,
    injected_present: bool,
)
    ensures
        connect_outcome(s, wallet, listener, injected_present) is Ok <==> (s.wallet is NotConnected
            && injected_present),
        connect_outcome(s, wallet, listener, injected_present) is Ok ==> {
            &&& is_ready(after_connect(s, wallet, listener, injected_present))
            &&& after_connect(s, wallet, listener, injected_present).listener == listener
            &&& connect_outcome(s, wallet, listener, injected_present) == Ok::<
                Seq<Event>,
                EthereumError,
            >(emitted(listener, seq![Event::Connected]))
        },
        connect_outcome(s, wallet, listener, injected_present) is Err ==> is_ready(
            after_connect(s, wallet, listener, injected_present),
        ) == is_ready(s),
{
}

/// After `disconnect` the transport is not ready, and a wallet can be
/// connected again.
pub proof fn lemma_reconnect_after_disconnect<L>(
    s: TransportState<L>,
    wallet: WalletType,
    listener: Option<L>,
)
    ensures
        !is_ready(after_disconnect(s)),
        connect_outcome(after_disconnect(s), wallet, listener, true) is Ok,
        is_ready(after_connect(after_disconnect(s), wallet, listener, true)),
{
}

/// Without a listener no step hands out any event.
pub proof fn lemma_no_listener_no_events<L>(
    s: TransportState<L>,
    wallet: WalletType,
    injected_present: bool,
    events: Seq<Event>,
)
    requires
        s.listener is None,
    ensures
        emitted(s.listener, events) == Seq::<Event>::empty(),
        disconnect_events(s) == Seq::<Event>::empty(),
        connect_outcome(s, wallet, None::<L>, injected_present) is Ok ==> connect_outcome(
            s,
            wallet,
            None::<L>,
            injected_present,
        ) == Ok::<Seq<Event>, EthereumError>(Seq::empty()),
{
}

/// With a listener, every event of a step reaches it, unchanged and in
/// order; without one, none does.
pub proof fn lemma_listener_gets_every_event<L>(listener: Option<L>, events: Seq<Event>)
    ensures
        listener is Some ==> emitted(listener, events) == events,
        listener is None ==> emitted(listener, events).len() == 0,
{
}

/// With a listener, a `chainChanged` notification that reads as the chain
/// id `id` hands the listener exactly one event, the change to `id`.
pub proof fn lemma_chain_change_reaches_listener<L>(listener: Option<L>, id: u64)
    requires
        listener is Some,
    ensures
        emitted(listener, seq![Event::ChainIdChanged(Some(id))]).len() == 1,
        emitted(listener, seq![Event::ChainIdChanged(Some(id))])[0] == Event::ChainIdChanged(
            Some(id),
        ),
{
}

} // verus!

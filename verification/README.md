# eip1193_browser

A browser transport for Ethereum wallets that follow EIP-1193
(`window.ethereum`), with its decisions proved in Verus.

* `src/` is the verified library:
  * `transport` – the connection state machine (`connect`, `disconnect`,
    listeners, readiness) and the events each step hands to the listener,
    including the handlers of the provider's `disconnected`, `chainChanged`
    and `accountsChanged` notifications;
  * `chain_id`, `address` – reading chain ids and account addresses out of
    those notifications;
  * `eip1193`, `json` – the parameters the injected provider is sent, the
    answers made of what it returns, and how a batch is answered;
  * `provider`, `rpc` – what a provider keeps of the wallet, and the block
    arguments of its calls;
  * `errors` – the error types.
* `app/` is the browser side: `wasm-bindgen` bindings to `window.ethereum`,
  JavaScript value conversions, the `tower`/`alloy` transport traits and the
  async JSON-RPC provider. It hands the library plain values and acts on
  what the library decides.
* `tests/` runs the library on concrete values.

# indexer-morpho

A service that reports the net APY of MetaMorpho vaults, now or after a deposit.

- `src/` is the library, verified with Verus. It decides everything and does no
  input or output of its own.
  - `u256`, `numeral`, `percent`, `amount`, `address`: numbers, addresses and
    their texts.
  - `keccak`, `abi`: contract calls as bytes.
  - `market`, `apy`, `apy_laws`: what is read of a market, the arithmetic of
    yields, and what holds of every vault and deposit.
  - `query`, `query_laws`: the dialogue with the chain, one request and one
    reply at a time, and what it ends with.
  - `service`, `http`, `dto`: how requests are accepted and answered.
- `app/` is the program around it: the HTTP server and the calls to the chain.
- `tests/` runs the library on given values.

The library calls `alloy` for 256-bit arithmetic, for the texts of numbers and
addresses, for Keccak-256 and for ABI words. Each such call stands in a small
function whose contract is taken as given; its doc comment names the function
that is called.

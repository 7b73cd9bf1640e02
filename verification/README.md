# rise_fault_proof

The decisions of a fault proof service for a rollup, as a library whose behaviour is stated in
contracts and proved by Verus. The service fetches dispute games, proposes new ones on top of the
canonical head, challenges those that are wrong, and prepares the witnesses from which ranges of
blocks are proved.

## Layout

- `src/` is the library. It does no input or output: where the service waits for a node, a contract
  or a prover, the library offers a step from a state and an event to the next state and an action.
  - `common` holds the games, the shared state, and the values that contracts and options hold.
  - `rpc` holds the search for the L1 block that makes an L2 block safe, and block headers.
    `rpc::safe_head_laws` says what the search finds when the node answers truthfully.
  - `components` decides which games to fetch, create and challenge, and who sends a transaction.
  - `client` derives blocks up to a target.
  - `witness` keeps preimages, each under a key that commits to it.
  - `eigenda` makes and stores witnesses, and fetches payloads from an EigenDA proxy.
  - `proving`, `commands`, `config`, `monitor` and `range_optimizer` belong to the tools.
- `app/` is the program around it: options, requests, channels, and the proving stack.
- `tests/` runs the library.

## What is believed without proof

A function marked `#[verifier::external_body]` calls another crate or the standard library; its doc
comment names the call and says what is claimed of it. A specification function without a body names
the result of such a call where its definition is not repeated here: digests, decoded headers and
transactions, L1 origins, and URLs.

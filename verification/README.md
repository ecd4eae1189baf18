# payment_engine

A payment engine that replays a stream of client transactions (deposits,
withdrawals, disputes, resolves, chargebacks) and reports each client's
balances. The logic is a Verus library, proved against its contracts; a thin
binary around it reads the CSV input, runs the two layers as sharded async
tasks, and writes the CSV output.

## Layout

- `src/model/`: amounts, events, the transaction lifecycle (`TxState`) and
  the account (`Account`), with the laws of each: terminal states, the shape
  of every transaction's lifecycle, what a dispute, resolve or chargeback does
  to the balances, and that a locked account never changes.
- `src/business/`: the `Store` abstraction, the step function of each layer
  (`process_client_tx_event`, `process_client_tx_state_event`), the laws that
  make the layers shardable (each transaction, and each account, evolves on
  its own), and the router and shard functions.
- `src/inbound/`: the decimal text of amounts (reading with
  `AmountVisitor::visit_str`, writing with `Amount::to_decimal_string`, and
  the law that writing then reading gives the amount back), the CSV row
  types, and the stores over `HashMap`.
- `app/`: command line, CSV reading and writing through serde, the async
  event loops and the `futures::Sink` of the router.
- `tests/`: scenario tests of the library.

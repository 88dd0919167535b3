# investments

A verified library for brokerage statements, in Verus.

- `broker_statement` holds what a statement says of an account, and `broker_statement::ib` reads the
  corporate actions of Interactive Brokers reports: records become actions, and the two records of a
  complex stock split become one.
- `cash_flow` lists every movement of money that a statement speaks of, in order.
- `decimal`, `currency`, `time`, `formatting` and `text` are what both are made of.
- `pattern` is where the `regex` crate is called. Its contracts, and those of `String::push` and of
  quoting a text in an error message, are the only ones that are believed without proof.

What holds of every report and of every statement is proved in `broker_statement::ib::laws`,
`cash_flow::laws` and `cash_flow::order`.

`app` reads sections of reports that come as CSV.

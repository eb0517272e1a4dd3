# cat_client

A client library for the CAT monitoring protocol, verified with Verus.

`src/` is the verified library:

- `encoder` writes headers and messages in the binary protocol (base-128
  lengths and times, length-prefixed strings); `buffer` appends bytes through
  `bytes::BufMut`.
- `header`, `message`, `transaction` hold the message model (`transaction`
  also encodes whole message trees); `context` and
  `manager` keep the message tree of a thread and start transactions in it.
- `aggregator_transaction`, `aggregator_event`, `aggregator_metric` count
  what they are handed per type and name and build the batch reports.
- `sender` hands out message ids, picks the queue of a transaction and builds
  length-prefixed frames; `router` decides when a new server list replaces the
  old one and where the router configuration is fetched from.
- `decimal`, `text`, `keyed`, `utils` hold decimal text, UTF-8 and key helpers
  and the hexadecimal form of an address.

`app/` runs the client: background tasks on channels, the network, the clock
and the machine's host name and address.

`tests/` exercises the library on concrete values.

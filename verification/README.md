# bayard

The core of a distributed full-text search server, written in Verus and
verified.

- `src/` is the verified library:
  - `rendezvous/` ranks candidate nodes for an item by rendezvous (highest
    random weight) hashing, with the laws that make it useful: every node is
    ranked once, the ranking depends only on the set of nodes, and adding or
    removing a node leaves the relative order of the others unchanged.
  - `cluster/` holds cluster members and their lookups, the broadcast message
    wire format and the handler that passes each message on at most once, and
    the rules by which membership reports change the member list.
  - `index/` holds shards and their lookups, index metadata and its settings,
    and the decisions taken on metadata file events.
  - `node.rs`, `client.rs` and `service/` hold the decisions of the server and
    of the client that routes requests: which shards a node serves, how a
    node reads a document and plans a search, how documents are split among
    shards, and in which order and which page of merged results is returned.
  - `proto/` and `search/` hold the request types and query arguments.
- `tests/` runs the library on concrete values.
- `app/` is the program around the library: command line, files, the SWIM
  failure detector, the search engine and its queries.

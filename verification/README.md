# rust_rdma

A demonstration of RDMA (InfiniBand/RoCE) Write between two machines, whose logic
is verified with Verus.

```
┌─────────────────┐      TCP control channel (9999)      ┌─────────────────┐
│  RDMA server    │ ◄──── exchange of ConnInfo ────────► │  RDMA client    │
│  4096 bytes,    │                                      │  4096 bytes,    │
│  filled 0xAA    │ ◄────── RDMA Write (64 bytes) ────── │  with a message │
└─────────────────┘                                      └─────────────────┘
```

## Layout

- `src/` is the verified library. It performs no input or output.
  - `byte_order`: numbers in memory on machines of either byte order
  - `conn_info`: the parameters that are exchanged, and their wire form
  - `transfer`: sending and receiving a whole buffer by partial socket calls
  - `session`: the steps of both programs, what each step needs and releases, and
    the states of the queue pair
  - `verbs`: what is asked of the verbs library, and what its answers mean
  - `payload`: what the client writes
  - `completion`: waiting for the completion of the write
  - `watch`: noticing and reporting the write on the server
  - `report`, `text`: messages
- `app/` is the executable around it: sockets, verbs calls, printing. Installed
  under the name `rdma_server` it is the server; under any other name it is the
  client.
- `tests/` holds the tests of the library.

## Running

Linux with RDMA hardware, `rdma-core` and `libibverbs-dev`.

```bash
rdma_server
rdma_client <server IP>
```

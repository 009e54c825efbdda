# nethuns_rs

A packet I/O library over several backends (AF_XDP, netmap, DPDK and pcap
capture files), written in Verus. `src/` holds the library: the shared rings,
the multi-producer channel of free buffers, the sockets' receive and send
logic and the reading of capture files, each with a contract that Verus
proves. The kernel and the devices are modelled as explicit shared state that
the caller passes in and updates between calls.

- `src/mpsc`: the channel of free buffer indexes (producer batches, per-producer
  queues, the consumer's cache).
- `src/af_xdp`: the AF_XDP rings and socket.
- `src/netmap`, `src/netmap_ctx.rs`, `src/netmap_rs.rs`, `src/socket.rs`: the netmap rings and socket.
- `src/dpdk`: the DPDK burst state machines and socket.
- `src/pcap.rs`: capture files, read block by block, and the buffer pool.
- `src/meter.rs`: the meter's socket names and the IP addresses of an Ethernet frame.
- `src/capvec.rs`, `src/spsc.rs`: the `arrayvec` vectors and `ringbuf` queues the library uses.
- `app/`: a meter that counts the packets of a capture file.

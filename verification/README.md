# ethercat_master

An EtherCAT master written in Verus: the frame layouts, the queue of
datagrams, the sockets that carry one datagram per cycle, and the cyclic
tasks that drive slaves are executable Rust whose behaviour is stated in
`requires`/`ensures` contracts and proved.

## Layout

- `src/` — the verified library.
  - `bytes`, `frame`, `ethercat_frame`, `ec_frame`: byte-level layouts of
    Ethernet/EtherCAT headers and datagrams, and frames built datagram by
    datagram; `ec_frame_build` proves what a frame holds after a run of
    additions.
  - `command`, `interface`: datagram commands and the queue of datagrams that
    is turned into a frame and filled back from the reply.
  - `socket`, `round_trip`: sockets, the slot table that hands out socket
    handles, queuing one round of socket commands and handing the replies
    back; `round_trip` proves that a reply carrying the queue back unchanged
    returns each socket its own data, and `frame_echo` that the queue reads
    as it did after its frame went out and came back unchanged.
  - `tasks/*`: the cyclic tasks (AL status reader and transfer, EEPROM
    reader, RX error checker, DC drift compensation, process data, mailbox
    reader/writer and task, RAM access).
  - `al_state`, `dc`, `coe`, `mailbox`, `register`, `cycletime`: AL state
    requests, distributed-clock computations, CoE/SDO messages, mailbox
    frames, the slave registers used, and cycle times.
  - `dc_init`: the cyclic initialization of the distributed clocks
    (topology, offsets, delays, drift compensation); `dc` also holds the
    sampling of the receive times used by the blocking configuration.
  - `slave_init`: bringing a slave to Init and learning its ports,
    features, identity and mailboxes, one access at a time;
    `network_init`: counting the slaves and collecting what was learned of
    each.
  - `process_data`, `sync_mode`: configuring slaves for operation — where
    the process data goes in a slave's RAM, the object dictionary writes
    that assign PDO maps to a sync manager, reading the assigned maps back
    step by step, and putting the sync managers and the distributed clock
    into the chosen sync mode one access at a time.
  - `pdo_image`: placing the slaves' FMMUs and the PDO entries one after
    the other in the logical process data image, with the image's size and
    the working counter it is answered with, and the FMMU registers that
    map it.
  - `master`: the session of the SDO request in flight.
- `app/` — what talks to hardware and time: the raw Ethernet device and timer
  traits, sending and receiving frames, the blocking loops around the tasks,
  and the loops that hand each access the library asks for (register and
  SDO accesses through the mailboxes) to the wire and its outcome back.
- `tests/` — tests of the library on concrete values.

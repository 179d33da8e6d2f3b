# ndn_radio

The decisions of a fleet of named-data radios, verified with Verus: what a node does with a host
command, a received frame, an interrupt or a timer, and what it then tells its radio and its host.

`src/` holds the library. It does no I/O: a function takes what happened and returns what to do.
`app/` holds the programs around it: the node loops, the board drivers, the bench programs and the
host tool that controls the name filter.

| Module | What it decides |
|---|---|
| `airtime` | How long a frame is on air, for FLRC, LoRa and LR-FHSS |
| `tier0`, `gcs` | Name-prefix filters, fixed and compressed; neither ever rejects a wanted name |
| `flrc_link`, `regs` | The FLRC frame with its whitening, and the register accesses of the LoRa chip |
| `serial` | The framing of the host link |
| `lora_node` | The LoRa node: commands, scheduling, listen before talk, frequency hopping |
| `lr_node` | The multi-modem node: FLRC, LoRa and LR-FHSS on one chip |
| `wifi` | The two Wi-Fi nodes: message ring, deframing, capture, scheduled injection |
| `ndr_ctl` | Control frames for the name filter in the Wi-Fi firmware |
| `lab` | What the bench programs count and compare |

Where a property spans several functions it is stated as a public proof function beside them, or in
a `laws` module.

The library rests on eight small wrappers around the LR2021 driver crate, in `lr_node::irq`,
`lr_node::info` and `lab::timing`. Each says in its comment which driver function it calls and what
is believed of it.

# emerald_kernel

The machine-independent logic of the Emerald kernel, written in Verus and
proved against its contracts: what the kernel decodes, decides and computes,
separated from the port and memory accesses that act on the hardware.

## Layout

- `src/acpi/` — ACPI: description tables decoded from their bytes
  (`tables/`), the FACP power-management register plans (`tables/facp.rs`),
  the AML byte-code parser, its structured namespace and the evaluator of
  named objects (`aml/`), and the sleep-state data taken from `\_Sx_`
  packages (`mod.rs`).
- `src/cmdline/` — the boot command line: tokenizer, value parsers and the
  option structure with its defaults.
- `src/cpu/` — GDT descriptors, IDT gates, interrupt allocation and I/O APIC
  redirection entries.
- `src/devices/` — clocks (HPET, PIT and the clock registry), IDE, PCI,
  the PS/2 mouse and keyboard decoders, and the e1000 network card
  descriptors.
- `src/executable/` — ELF headers and loading.
- `src/collections/` — the ring buffer.
- `src/bits.rs`, `src/bytes.rs`, `src/text.rs` — bit-vector lemmas,
  little-endian byte access and small string helpers shared by the above.
- `tests/` — tests run against the compiled library.
- `app/` — a host tool: it reads a command line and dumped ACPI tables,
  prints the AML as ASL text, and holds the port-driving loops of the
  ACPI power management.

Some calls stand behind trusted items, whose contracts state what the
called code does and are not proved:

- `byteorder`: the little-endian reads `le_read_u32` and `le_read_u64`;
- `blinkcast`: the mouse's event channel (`new_event_channel`,
  `send_event`, `event_receiver`, the declared `Sender` and `Receiver` types
  and the channel's size) and the keyboard's (`new_key_channel`, `send_key`,
  `key_receiver`, `key_channel_size`);
- std: `parse_u32` (`str::parse::<u32>`, with its declared `ParseIntError`),
  `is_whitespace` and `is_alphanumeric` (and the names for what they give),
  and `push_char` (`String::push`).

Everything else in `src/` is verified.

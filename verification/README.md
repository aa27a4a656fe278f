# makerpnp

The logic of the MakerPnP control software, written in Verus: each function
carries a contract that the verifier proves, and the laws that tie the
functions together are stated as proof functions.

## Layout

- `src/` is the verified library.
  - `morse` packs Morse symbols into a bitstream, encodes text, and decodes
    symbols and characters back; `morse::laws` proves that decoding an
    encoding gives back the normalised text: upper case, only the characters
    that the table knows, spaces kept only after the first keyed character.
  - `fpga` holds the byte order of the FPGA link, the chunking of block
    writes, the version and identification words and the button inputs.
  - `fpga_pac` is the FPGA register map: blocks, registers, fields, and the
    read plan that works around the OctoSPI FIFO.
  - `firmware` holds the MPU region of the OctoSPI window, the start-up Morse
    greeting and the housekeeping round of the FPGA task.
  - `camera`, `camera_server` and `frame_assembly` are the camera messages,
    the splitting of frames into chunks, the streamer's client registry and
    retries, and the reassembly of frames on the receiving side.
  - `motion` and `stepper` are the step timing and the GPIO stepper drivers.
  - `watch` is the slot of a latest-value channel.

  The frame assembler keeps its frames in a `HashMap` keyed by the frame
  number, whose contract vstd gives for integer keys. The client registry is
  keyed by a network address, a struct: vstd states the `HashMap` contract
  only for keys known to obey its key model, which a struct of this crate
  cannot be shown to do without an assumption, so the registry keeps its
  clients in a `Vec` with no address twice.

  The stepper drivers reach their pins and delays through `LevelPin` and
  `DelayUs`, which stand for embedded-hal's output-pin and delay traits:
  each keeps a record of the levels asked of it (with the outcome) or of the
  waits made, and the drivers' contracts are stated over those records.
- `tests/` runs the library on concrete values.
- `app/` is the unverified glue: the serde forms of the messages, threads and
  timing, floating-point statistics and colours, embedded-hal adapters, and
  the volatile accesses to the FPGA register window.

# flash_rover

Verified core of a command line tool that reads and writes the external SPI
flash of TI CC13xx/CC26xx devices through an XDS110 debug probe and TI's
Debug Server Scripting (DSS) environment.

`src/` is the library, verified with Verus:

- `write_plan`: the sector arithmetic of a write that keeps the bytes around
  the data (where to read before erasing, and how much).
- `write_job`: a write of the flash as a state machine. The caller performs
  each request on the device and reports the answer; the job decides what
  comes next, down to comparing what was read back with what was written.
  Its laws: the touched region is whole sectors, the bytes around the data
  keep their values, and on a flash whose reads return what was written
  every job ends without failure with the input at the offset. A failed
  device call ends the job.
- `target`: the order of operations that resets the target into the RAM
  firmware and that releases it at the end; the first failure ends either.
- `ccxml`: filling the placeholders of a target configuration template.
- `jvm`: the options of the Java VM that hosts the debug server.
- `assets`, `trace_level`, `register`: names the debug server and the
  embedded assets are known by.

`app/` holds the JNI bindings to the debug server, the embedded assets, the
temporary files and the driver that runs the library's state machines
against the device.

# mycobot

A client library for the myCobot robot arm, verified with Verus.

- `src/common.rs`: joints, axes and the other enumerations of the protocol, with
  their wire numbers, and the protocol's command bytes.
- `src/utils.rs`: big-endian encoding and decoding of the 16-bit values that
  frames carry (through `byteorder`), with their round-trip laws.
- `src/io.rs`: the `Connection` trait that a link to the arm implements. Its
  contract asks each implementation to keep, as a spec `history`, the calls
  made on it with their results; that contract is believed of every
  implementation, not checked.
- `src/operator.rs`: `MyCobotOperator`, which builds command frames, hands them
  to its connection and decodes the replies; its contracts say which call it
  makes on the connection, with which frame, and how the connection's result
  (reply or error) becomes its own. The laws of reply decoding stand there too.
- `app/`: the serial port (`serialport`) and the conversions between degrees or
  millimetres and the protocol's integers, which use floating point.

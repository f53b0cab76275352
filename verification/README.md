# udpfwd

The verified core of a Windows UDP forwarder: packets received on a local
port are sent on, unchanged, to a target `IP:PORT`.

- `src/` is the library, proved with Verus: decimal text (`decimal`),
  `IP:PORT` handling (`target`), dotted-decimal IPv4 addresses (`ipv4`),
  the configuration and its checks
  (`config`), the forwarder and power-listener state machines (`forwarder`,
  `power`), the window's session and status texts (`session`), the values
  handed to window and tray calls (`window`) and the packed version number
  (`version`).
- `app/` is the Windows program around it: the window, the sockets and the
  forwarding thread, the registry, the command line and the Win32 calls.
- `tests/` runs the library on concrete values.

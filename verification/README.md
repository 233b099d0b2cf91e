# wsl-proxy

Runs a process on one side of a machine boundary with the standard streams of
a process on the other. A *client* starts a *server*; both connect to a
*daemon*, which pairs their connections; the server runs the *inferior*, whose
standard input, output and error travel over three paired connections.

`src/` is the library. Verus proves its contracts: how the daemon pairs
connections (`listener`), how messages are framed and the bytes behind them
kept (`framing`), how bytes are copied (`pump`), how the client sorts its
connections (`acceptor`, `streams`), that what goes in at one end comes out at
the other (`relay`), what stands in the port file (`port_file`,
`decimal`), how processes are started and what comes of them (`command`,
`child`), how the daemon comes to serve (`daemon`), and the frame of each
program (`logging`). `buffer` holds what is taken on trust of the `bytes` and
`tokio-util` crates.

`app/` is the program around it: arguments, files, sockets and processes.
`tests/` runs the library.

# Vibealong

Vibealong listens to the OSC messages that VRChat sends, makes one intensity of the parameters that
a profile maps, and hands it to the website's relay and to the devices of a local Intiface server.

`src/` is the library, verified with Verus: OSC packets, mappings, smoothing, configurations, the
relay session, the bridge loop, the stores of profiles, diagnostics, the parameter server, the
device server, signing in, and the forms and pages of the desktop program. Each function states what
it returns; the proof functions whose names begin with `law_` state what holds of several of them
together.

`app/` is ordinary Rust around it: sockets, files, threads, windows, the keyring and the databases,
and the arithmetic on floating point numbers, which the library sees by their bits.

`tests/` holds the tests of the library.

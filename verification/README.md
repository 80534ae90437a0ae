# swarmotterd

The control logic of a BitTorrent daemon that lets no torrent traffic leave but through one
checked network path, written in Verus.

- `src/` is the library. Each module states in contracts what its functions return and change,
  and Verus proves it: which torrents download and upload, what happens to them when the network
  path is lost and found again, how a change of the configuration is taken over or undone, how
  stored torrents are taken up, how payloads are moved and renamed without losing data, and what
  the daemon shows of itself.
- `app/` is the program around it. It performs what the library asks for (`effects`) and hands
  back what happened; the torrent engine, storage, trackers and the event stream stand behind the
  trait `Services`.
- `tests/` runs the library on concrete values.

Transitions are functions on plain values. A function that would have to wait for something
outside takes its result as an argument, and a list of effects says what is to be done next and in
which order.

Two things are believed and not proved: that `String::push` appends a character, and that the
system clock reads some number of seconds or fails.

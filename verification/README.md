# chat

A small terminal chat. Clients send each message, encoded as JSON, to a relay
server in a frame of 96 bytes; the server shows it and relays it to every
connected client; clients keep the chat in a local SQLite database and show
its newest messages.

- `src/` is the verified library: frames (`frame`), text rules (`text`),
  database statements (`db`), client and server decisions (`client`,
  `server`), the terminal screen model (`screen`) and the message types
  (`message`).
- `app/` holds the programs around it: sockets, threads, the database
  connection, JSON, colours, the terminal and the window.

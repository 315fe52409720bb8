# mineshare

mineshare shares a Minecraft server without port forwarding. A server connects to a proxy and is
assigned a domain; whoever joins that domain is passed on to the server.

- `src/` is the library, verified with Verus: the wire formats (`varint`, `packet`, `codec`,
  `disconnect`), what the proxy knows and decides (`router`, `proxy`, `limiter`, `random`), and the
  app that shares a server (`client_impls`: the menu, the screens and what they show, the
  connection to the proxy, the servers on the local network).
- `app/` is the program around it: `mineshare share` shows the screens, `mineshare proxy` runs the
  proxy.
- `tests/` holds the tests of the library.

## How it works

The proxy listens for servers, for clients, and for the connections of players. A server says
hello, and may request a domain that ends with the base domain of the proxy; where it requests
none, or one that is taken, its domain consists of three words and the base. From then on the
proxy sends it heartbeats, which it has to echo.

A client sends a handshake with the host name that it wants to join. The proxy finds the server
with that domain and sends it a number of 128 bits. The server opens another connection to the
proxy and sends the number back, and the proxy tells it who the client is. From then on both
connections are passed on to each other.

The list of words that domains are made of is given to the proxy as a file.

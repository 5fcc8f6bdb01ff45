# tf2-query

Queries the Steam API for online Team Fortress 2 servers, filters them, and optionally
fetches the players of servers behind Steam Datagram Relay.

- `src/` is the verified library:
  - `filter.rs`: the filter, its builder, the filter expression sent to the API, the check
    made on each returned server, and the filter that the command-line options ask for;
  - `api.rs`: the server data (addresses, regions, tags, players) and how players are fetched;
  - `location.rs`: the grammar of official server names and the reading of their location;
  - `text.rs`: splitting, joining and comparing strings;
  - `lib.rs`: parsing and filtering the returned server list.
- `app/` is the command-line program: HTTP requests, JSON, logging and the fetch loop.
- `tests/` runs the library on concrete values.

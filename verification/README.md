# weather_signal

The core of the `weather-signal` command, an Open-Meteo client for demand
forecasting agents, as a library verified with Verus.

`src/` holds the rules, each with a contract that Verus proves:

- `signals`: daily demand flags, signal envelopes, summaries and threshold
  matches, with the laws that tie them together;
- `numeric`: exact decimal readings of doubles, their comparison and text;
- `requests`: base URL checks and the query parameters of each endpoint;
- `retry`, `cache`: the retry policy and the response-cache decisions;
- `limits`, `location`, `dates`, `batch`: argument ranges and parsers;
- `paths`, `server`: default file locations, config symlink resolution, and
  the MCP HTTP path rules;
- `report`: the headers and records of table and CSV output;
- `text`: character helpers shared by the parsers.

The calls into `sha2`, `hex`, `url`, `chrono` and `humantime` sit behind small
trusted wrappers whose contracts name or state what those crates return.

`app/` is the command itself: argument parsing, HTTP, files, the MCP
transports, and writing doubles and table/CSV text, driving the library. `tests/` runs the
library on concrete values.

# Shielded Observer

A desktop application that collects the observations of weather stations from the US National Weather
Service, keeps them in a local database and draws temperature, dewpoint, wind and humidity over time.

- `src/` is the verified library: what the application decides and computes.
  - `session`, `theme`, `graph`: the state behind the window and what it shows.
  - `search`, `collect`, `catch_up`, `history`, `export`: the application's tasks, each a state machine
    that says what to fetch, store or write next.
  - `service`, `task`, `json`, `failure`: the weather service's documents and how they are read.
  - `store`, `tables`: the database statements with their parameters, and what they do to the tables.
  - `record`, `series`, `wind`, `coverage`, `clock`: observations as they are stored and as they are
    drawn.
  - `location`, `text`: places and text handling.
- `app/` is the application around it: the window, the network, the database and files.
- `tests/` runs the library on concrete values.

Real numbers are values of the caller's own types in the library, and their arithmetic comes in as
functions.

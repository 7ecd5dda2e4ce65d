# minesweeper

A Minesweeper game server whose rules are proved with Verus, together with
the logic of an AI advisor that streams suggestions from a chat provider.

## Layout

- `src/` — the verified library.
  - `domain`, `geometry`, `board`, `sampling`, `clock`: the board, its Cells,
    Mine placement from a Seed, and the Timer.
  - `game` (Features and Seed policy) and `classic` (game modes): the two
    game front ends, with the laws of the game as proof functions.
  - `wire`, `server`, `classic_server`: what the HTTP API answers and how a
    player action changes the game.
  - `board_text`, `advisor`, `calendar`: renderings of the visible board,
    the advisor's prompts and messages, and timestamps.
  - `protocol`, `agent`, `providers`, `deepseek`, `ai_replies`, `analysis`:
    the chat vocabulary, the agent's Session bookkeeping and Runs, the
    provider registry, the server-sent event framing, and the analysis
    session's decisions.
  - `json_value`: what is read out of the DeepSeek API's JSON bodies.
  - `terminal_ui`: the terminal front end's layout, hit-testing and mouse
    handling.
- `tests/` — tests of the library on concrete values.
- `app/` — the server binary: command line, HTTP routes, JSON, the async
  agent runtime, the DeepSeek HTTP clients and the analysis session's
  loop. It awaits and forwards; every
  decision it takes comes from the library.

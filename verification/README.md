# slack_tui

The logic of a terminal Slack client, verified with Verus: what every key does to the text
being typed, how the command line parses and completes, how the sidebar orders conversations,
how reactions change under live events, how the strip of reactions and the emoji search are
built, who shows as typing, when a quit really quits, which HTTP failures are worth another
try, and whether a newer build exists.

## Layout

- `src/` is the verified library. Each module states its behaviour as `requires` / `ensures`
  over mathematical models (`Seq`, `Map`, `nat`) and proves it; the `law_*` proof functions
  state what holds across calls (typing then backspace gives the text back, a repeated
  reaction event changes nothing, the sidebar never goes back to an earlier group, ...).
  - `text`, `order`, `steps`: characters and white space, stable ordering by key, moving a
    selection.
  - `field`, `complete`, `input`, `row`, `fuzzy`, `palette`, `commands`, `jump`: the input row,
    its emoji completion and what sending it comes to, matching, the `:` command line, what
    its commands resolve a name to, and the jump list.
  - `keys`, `inbox`, `conversation`, `images`: which layer takes a key and what the panes do
    with it, the inbox overlay and what it remembers as read or snoozed, the open
    conversation under live events, and which pictures are asked for.
  - `sidebar`, `react`, `live`, `emoji`, `feedback`, `quit`, `state`, `status`, `firehose`:
    the state the app keeps between keys and events, and what the status bar says of it.
  - `compose`, `export`, `update`, `version`, `typesafe`, `motion`, `empty`, `help`, `theme`:
    what the editor sends back, export file names, the update check, the build's label,
    failure classification, animation steps, the help overlay's width and the palettes.
  - `layout`, `pictures`, `items`: boxes of cells centred on screen, where pictures land, and
    how messages group in their list.
  - `session`: one step of the session's state under a live event (connection state, the open
    conversation, another channel's badge, who is typing, the pictures on screen) or under an
    answer from the background (channels, history, replies, inbox items, pictures, notices,
    errors), and entering an inbox item, with the actions each asks for.
- `tests/` runs the library on concrete values.
- `app/` holds what touches the machine: the editor process and its temp file, `git` and the
  cache of the update check, environment variables, the export folder and clock, and the
  JSON shape of model questions.

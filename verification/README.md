# cs_tui

The logic of a terminal client for a social network, written in Verus.

Each screen is a state machine: a key or an arriving page leads from one state
to the next and to an intent, and a render gives the lines that are shown. The
contracts state both over plain views (sequences of characters, optional values,
lists), and the laws at the end of a module relate several operations.

- `src/` is the verified library.
  - `strs`, `text`, `draw`, `theme`, `input`, `base64`: text, widths, styled lines.
  - `list`, `list_nav`, `nav`, `key`, `menu`, `toast`, `flag`: shared parts of the
    screens.
  - `markdown`, `hyperlink`, `styles`, `mention`, `images`, `audio`: content.
  - `post_detail`, `topic_feed`, `profile`, `notifications`, `programs`, `journal`,
    `search`, `settings_screen`, `login`: the screens.
  - `shuffle`, `player`, `open`: playback and links.
- `app/` draws the lines with `ratatui`, converts keys, and runs the player and
  the programs that open links.
- `tests/` runs the library from outside.

What the library takes from other crates stands behind functions that say in
their doc comments what is claimed of the outside code without proof.

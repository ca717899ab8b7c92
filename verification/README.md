# tvk

A terminal virtual keyboard and the website around it, with the decisions
of both proved in Verus.

- `src/` is the verified library.
  - The keyboard layout language: `lexer`, `parser`, `env` (variables),
    `number` (integer parsing), `layout` (the keyboard model and the Lisp
    layout), `virtual_key`, `error`, and `render` (what each button shows
    and where each row goes).
  - `site/`: the website's decisions: pages and focus (`page`, `ui`), key
    presses (`keys`), the pointer and its trail (`pointer`), clicks
    (`mouse`), the rows of word-wrapped text (`wrap`, which asks ratatui's
    paragraph widget), scrolling and its hint line
    (`scroll`), the tab carousel (`tabs`), list and link areas (`lists`),
    markdown to styled lines (`markdown`), text sections (`sections`), the
    effect showcase (`showcase`), page transitions (`transition`) and the
    script that opens links (`links`).
  - `chars` holds the calls into `std`'s character classes, each under a
    stated contract.
- `app/` is the program: it reads the browser's events, hands them to the
  library, carries out the effects the library lists, and draws each frame
  with ratatui, tachyonfx and ratzilla.
- `tests/` runs the library on concrete inputs.

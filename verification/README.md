# ΕΛΛΗΝΙΚΟ WORDLE

Wordle in Greek, for the terminal. Its library states what each part does
in Verus contracts and proves the code meets them; the terminal loop and
the painting around it are ordinary Rust.

`src/` is the verified library: the word list and Greek input normalization
(`words`, `wordlist`), scoring and the game (`game`), statistics and their
text file (`stats`), the shared result (`share`), the daily puzzle (`daily`),
the animation schedule (`anim`), what each key press does (`session`), and
where things go on screen (`screen`, `layout`, `board`, `glyphs`), on top of
small string helpers (`text`).

`app/` is the terminal program around it: the event loop, the clock, the
statistics file on disk, and the painting with ratatui, including the eased
motion of the animations, which needs floating point.

```sh
greek-wordle            # a random word
greek-wordle --daily    # one shared word per day
```

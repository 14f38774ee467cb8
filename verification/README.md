# correspondent

A terminal reader for The European Correspondent, with its logic verified by
Verus.

`src/` is the library. Its functions are verified, except the five small
wrappers in `text` that call textwrap, chrono and `str`/`String`, whose
contracts are trusted:

- `text`: characters, trimming, decimal digits, and the calls into
  `textwrap`, `chrono` and `str` that the rest relies on.
- `markdown`: the markup grammar (`**bold**`, `*italic*`, `[links](url)` and
  the HTML style tags), and cutting styled text along wrapped lines.
- `api`: the reader's models, `#RRGGBB` colors, and the conversion of the
  API's answers into models.
- `queries`: the GraphQL documents the reader sends.
- `app`: the reader's state, scrolling lists, and the layout of an article.
- `layout`: where the homepage's sections, items and tiles lie.
- `cards`: the text of cards, tiles and highlights, and the placement of the
  hero grid and the search box.
- `events`: what a key press does, and what arrives from the network.
- `images`: which images to download and when to remake a cover.

`app/` is the program around it: the terminal, the network, image decoding
and drawing.

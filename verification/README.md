# Pack picker

A booster-pack builder for a trading card collection kept in physical piles:
it draws each slot of a pack from the right pile with the slot's rarity odds,
and tells the user how to find the card by halving the pile (A = top half,
B = bottom half) until at most ten cards remain.

- `src/` is the library, verified with Verus: pack layouts and odds
  (`odds`), the A/B halving instructions (`selection`), pack generation and
  the running pile counts (`pack_gen`), the piles each draw chooses among
  (`candidates`), pile and settings edits and the data file paths (`state`),
  saved packs and the pack list (`packs`), dates (`dates`), text helpers
  (`text`), recognition answers (`recognition`), the home page sprite grid
  (`hero`), the HTML pages (`pages`, `pile_pages`), and the random draws and
  new pile ids (`rng`).
- `app/` is the web server around it: routes, JSON files, the HTTP calls to
  the recognition service, and what works in floating point (the price
  table, price texts and the home page's hero picture).
- `tests/` holds the tests of the library.

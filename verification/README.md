# agent_browser_native

Verified helpers of a browser automation tool.

- `src/` (verified with Verus)
  - `semantic`: harvesting lookup candidates from an accessibility tree,
    exact scoring of a candidate against a query, the `--within` reference,
    the retry step of a lookup and reference labels.
  - `score_laws`: properties of the scoring (range, exact match first, role
    hint and interactive bonuses, value-text match, case-insensitivity).
  - `fuzzy`: character-diff similarity ratio on top of the `similar` crate.
  - `dom`: backend node ids of a described DOM subtree.
  - `roles`: interactive and content accessibility roles.
  - `stealth`: stealth launch arguments and init script, the user agent,
    and whether stealth mode is on.
  - `text`: character-sequence utilities.
- `app/`: the parts that talk to the browser and the environment: the CDP
  round trips and retry loop of the lookup, JSON conversion, ranking by
  single-precision score, environment lookups.
- `tests/`: tests of the library.

# arc_companion

A companion app for Arc Raiders: item, ARC, event and trader browsers backed by
a three-tier cache (memory, on-disk database, MetaForge API).

- `src/` is the verified library (Verus): the cache cascade as a state machine,
  freshness of on-disk entries, result and badge types, the trader service over
  the in-memory cache, and the logic of every page (filters, sorting, search,
  event partitioning, countdowns, dropdown and navbar options), each with its
  contract, plus the laws that relate them.
- `tests/` runs the library on concrete values.
- `app/` is the Dioxus application around it: pages and components, HTTP
  requests, the on-disk database, JSON envelopes and the stat formatting of
  floating-point values.

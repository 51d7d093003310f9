# nanoplan (verified core)

The integer and text logic of the nanoplan racing motion planner, written in
Verus and proved against its contracts:

- `compute_budget`: compute allowances in whole percent, clamping and scaling.
- `candidate_counts`: candidate counts the Bezier and Frenet planners derive
  from a budget (integer square and cube roots).
- `lattice`: node ids of the Frenet space-time lattice and their decoding.
- `search_tree`: parent-chain extraction and control padding for tree planners.
- `planners`: the planner catalog, its display names and command-line ids.
- `tracks`: the racetrack catalog and how a track name selects a track.
- `track_cache`: download addresses and the packed single-string track cache.
- `engine`: the one-request-in-flight rule of the background planner.
- `warm_start`: taking and shifting warm starts between replans.
- `text`: normalization and string building on characters.

`app/` holds the platform glue: downloading the track database with `ureq`
and caching it on disk, the planner worker thread, and the conversions from
floating-point inputs.

# camera-config

The manifest of a camera: its schema, its rules, the queries on it, and the way from observations to
a reviewed manifest.

A manifest says what a camera can do and how it is driven. It is data that people review. This crate
decides whether a manifest is sound, answers what is available on which connection, in which mode and
under which firmware, resolves actions before anything is sent, and turns bundles of observations
into proposals that a review accepts or rejects, candidate by candidate.

## Layout

- `src/` is the library. Every function states what it returns and Verus proves it.
  - `model`, `observation`, `activity`, `predicate`, `version`: the data and its small rules.
  - `tiers`: YAML text, and a manifest whose overlays are merged onto a base.
  - `validate`: the rules that a manifest must keep, and the lints on it.
  - `query`, `trace`, `store`, `action`: what is available, why, and with which values.
  - `generate`: from bundles to a report, to a proposal, to a manifest.
  - `recorder`: appends observations and describes payloads.
  - `index`: the index of a manufacturer: families, GATT names, signatures, BLE plans.
  - `text`, `yaml`, `json`, `name_map`, `rank_map`, `sorted`, `order`, `bag`, `digest`: what the
    rest is built from.
- `tests/` runs the library on examples.
- `app/` reads and writes files around the library: YAML, JSON lines, and the JSON schema of an
  observation line. Its program is `camera-config-generate`.

## What is proved

Each public function carries its contract. Laws that relate several functions stand as public proof
functions beside them, among them:

- a report and a proposal do not depend on the order of the bundles, nor a proposal on the order of
  the records behind a header;
- a proposal that is made from bundles passes its own integrity check;
- a review that rejects changes nothing, and one that accepts leaves the rest of the manifest alone;
- applying a candidate a second time changes nothing;
- every line of the bundles is accepted or rejected, each once, and is named in the proposal exactly
  where a candidate draws on it;
- the last tier of a manifest is merged onto what all tiers before it say together;
- evidence and the other provenance of a manifest never stop it from loading;
- a recorded bundle can be opened again, and one of another run cannot;
- what is left in a resolved index are literals and UUIDs.

## What is trusted

A few wrappers stand for calls that Verus does not look into: SHA-256 (`sha2`), the parsing of a YAML
text (`serde_yaml`), the quoting of a JSON text and the reading of string members of a JSON text
(`serde_json`), `Debug` of a text, UTF-8 decoding, and `Arc::clone`. Each says in its comment what is
claimed of it.

# shiguredo_mpd

A library for MPEG-DASH MPD documents, verified with Verus: it reads an MPD
from XML into a typed model, writes the model back as XML, resolves segment
URL templates, and applies MPD Patch documents.

## Layout

- `src/` is the verified library. Its functions carry contracts that Verus
  proves, except the three trusted items, whose contracts Verus takes as
  given: `read_xml` and `write_xml` in `xml_io` (the calls into the `xml`
  crate) and `string_of` in `text` (collecting characters into a `String`).
  - `types` holds the MPD model, `reader` and `writer` read and write it as
    XML events, `duration` checks ISO 8601 durations, `template` expands
    `$Identifier$` templates.
  - `xpath`, `dom`, `patch` and `patch_reader` read Patch documents and apply
    them to a generic element tree.
  - `xml_io` is the boundary with the `xml` crate: the two trusted functions there
    turn text into tokens and write events into text; everything else works on
    their results.
  - `laws`, `prefix_laws`, `reread`, `roundtrip`, `event_tokens`,
    `read_values` and `ignorable` state and prove properties that span
    several functions: what the writer declares and which fields make it use
    a namespace prefix, the order in which it writes, what the reader accepts
    and refuses, and what it gives back of what the writer wrote.
- `tests/` runs the library on concrete documents.
- `app/` holds what is not verified: the model with its durations and
  decimal attributes as `f64` seconds and values, and the conversions between
  ISO 8601 durations and seconds (floating point).

The writer follows the element order of DASH-MPD.xsd and declares each
namespace prefix (`xlink`, `cenc`, `dvb`, `scte214`) exactly when an element or
attribute with that prefix is written; the patch tree does the same when it is
written back.

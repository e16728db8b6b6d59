# fluxcope

The verified core of fluxcope, an intercepting HTTP proxy with a terminal interface:
its settings file, its proxy mapping configuration, and the decisions its runtime makes
about settings transactions, captured bodies and the terminal.

## Layout

- `src/yaml.rs`: a YAML document model with a mathematical view, lookup and insertion,
  and the reading of YAML text through `serde_yaml`.
- `src/text.rs`: trimming, decimal formatting, byte-bounded names.
- `src/settings/`: the settings model (`model`), reading it from a document (`decode`)
  and writing it back (`encode`), tolerant loading (`document`), writing back a document
  that keeps what the previous file held (`preserve`, `defaults`), the proxy mapping
  mutations and their validation (`mapping_ops`, `validation`), the settings manager and
  session (`manager`, `session`), and the laws proved of them (`codec_laws`,
  `document_laws`, `reorder_laws`, `preserve_laws`, `order_laws`, `mapping_laws`).
- `src/runtime/`: the settings authority and its transactions, the steps of an admitted
  transaction (`admitted`), the terminal event loop's decisions (`event_loop`), capture
  search batches (`search`) and capture waits (`wait`), publishing the control endpoint
  (`publish`), body paging on byte and character
  boundaries, the decoded body cache and the admission of body reads, render and key
  decisions, service and recording policy.
- `src/select.rs`: the filterable selection list of the terminal interface.
- `app/`: the command-line program around the library: its options, reading and writing
  the settings file (documents are written as text through `serde_yaml`), a terminal shell
  that runs the library's event-loop step on terminal events (`--shell`), and a benchmark
  of writing back a large document.
- `tests/`: tests of the library through its public interface.

# onmsctl

The core of `onmsctl`, a declarative configuration tool for OpenNMS
Horizon, written in Verus: the models, conversions, diff engines and
decisions of its two capabilities, each function with a contract that Verus
proves.

- `kind: Requisition` (`src/provisioning/`): the document model and its
  wire form, the canonical comparison (L1) and per-node delta (L2/L3) used
  by `apply`, the rescan decision, the plan of writes and the execution
  step that issues them (stopping at the first failed write), the
  multi-file apply with its collision checks and per-file steps, the
  steps of a purge (`requisition delete`), the percent-encoded REST
  paths, the conversion of provisioning XML with its findings, and the
  texts of every report and listing.
- `kind: SnmpConfig` (`src/snmp/`): the document model, its validation, the
  secret-free comparison with the deployed snmp-config and trap-daemon
  configuration, the execution step that writes only what changes, the
  export with secret placeholders, and the client-side location matching.
- Shared pieces (`src/`): text and number rendering, stable sorting, file
  paths ordered by component, a JSON value, IP address parsing.

Laws of the library are public proof functions named `lemma_*`: for
example that re-applying an exported document plans no change, that the
order and repetition of categories do not matter to the comparison, that
secrets never take part in a comparison or an export, and that a
multi-file apply aborts exactly when two files share a requisition name.

`app/` holds what Verus does not see: the serde forms of the documents
(YAML, JSON, provisioning XML), the clap argument types, reading
directories, files and environment variables, and the loops that perform the library's execution steps against a
server. `tests/` exercises the library from outside.

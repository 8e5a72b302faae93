# sidecar

The Lekko sidecar runs next to an application and answers its SDK's requests
for dynamic configs: it keeps the features of a config repository in a local
store, evaluates them against the context of each request, reports each
evaluation to Lekko, and keeps the store up to date from Lekko or from a
clone of the repository on disk.

`src/` is the verified library. Each public function states in its contract
what it returns or changes:

- `value`, `number`, `text`, `status`: the values that flow through
  evaluation, IEEE-754 comparison of doubles by their bit patterns, text
  operations, and the errors answered to clients.
- `rules_v3`, `rules`, `rules_v1beta1`, `functions`, `evaluator`: rules of
  each generation, percentage bucketing, and the evaluation of a feature's
  constraint tree.
- `store`, `remote_store`, `repo_dir`, `bootstrap`, `fallback`, `backend`:
  the feature store, its registration and updates, and how a repository on
  disk is read.
- `config_service`, `distro_service`, `service`, `proxy`, `types`: how
  requests are answered, routed and forwarded.
- `state`, `metrics`, `logging`: the lifecycle of the sidecar, flag
  evaluation events and their batching, request names.
- `laws`: properties of the library as a whole.

`app/` reads the command line and the disk, and drives the library.
`tests/` exercises the library on concrete values.

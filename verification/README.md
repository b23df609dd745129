# drone

An API caching layer for Hive JSON-RPC nodes. The library under `src/` holds
its logic, proved with Verus:

- `json`, `text`, `tables`: a JSON value type with a mathematical model, text
  helpers (dotted names, hexadecimal numbers) and small string tables.
- `trie`: settings keyed by dotted method names, looked up by longest prefix.
- `config`: the configuration as read from YAML and as used at run time.
- `method_renamer`: how a call's method name is parsed, translated to
  `condenser_api` and renamed.
- `chain`: what is known of the chain's head and last irreversible block.
- `cache_control`: the `max-age` of an upstream's `Cache-Control` header.
- `cache`, `handler`: how long an answer is cached, and what each call and
  batch is answered.

`app/` is the server around it: HTTP, the upstream client, the cache and
the YAML file.

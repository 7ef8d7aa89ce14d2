# comingle

The verified core of a 3D Tiles streaming service that serves tilesets out
of plain files, S3 objects and 3tz/zip archives.

`src/` is verified with Verus:

- `identifier`, `service`: layer ids, the URIs of layer definitions, content
  tilesets, payloads and base-globe terrain, HTTP failure statuses, CORS policy.
- `uri`: absolute URIs and reference resolution, backed by `iri-string`.
- `archive_path`: splitting a path into an archive and an entry inside it.
- `loader`: how a URI is read (whole or from an archive) and which reader
  serves it.
- `archive_index`, `local_header`, `decompress`, `archive_lookup`: the 3tz
  index, zip local file headers, entry decoding (`flate2`, `zstd`), and the
  step-by-step lookup of an entry; each step is proved to follow the
  archive's bytes, and a whole run of steps to end with the result of
  scanning the candidate entries in order.
- `relative_path`, `tiles`: rewriting content URIs relative to the root
  tileset, and the pre-order search for the first tile at a grid level,
  entering external tilesets as they are fetched; over the rounds of a
  search, the tile found is proved to be the first at the level in the
  combined pre-order.
- `weights`, `routes`, `error`, `text`: cache weights, request paths, errors,
  string helpers.

`app/` holds what runs around it: the reader interface and the resource
loader that drives the library's read plan and archive lookup (with reader
and index caches), JSON conversion of tilesets, request handlers, HTTP
middleware and CORS setup. It holds no concrete range readers, no
layer-definition cache and no `main`.

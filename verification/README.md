# geoengine

The verified core of a geo data engine. The library in `src/` is written in Verus: what its
functions return or change is stated in their contracts and proved. What does I/O is ordinary Rust in
`app/`, which calls the library.

| Module | What it does |
| --- | --- |
| `band_neighborhood_aggregate` | the first derivative over the bands of a raster, and the stream that computes it tile by tile |
| `cache` | the tile cache: compressed tiles, their containers, and the stream that reads them |
| `layers` | the layer database in memory, its collections, and the listing of data providers |
| `edr` | the provider of data of an Environmental Data Retrieval service |
| `api` | checks of the description of the service's API and of its examples |
| `projects` | projects, their versions and the validation of requests for them |
| `meteosat` | the keys of the properties of Meteosat rasters |
| `migrations` | changes of the database's schema |
| `primitives`, `raster`, `ids`, `util` | what the others are made of |

What relates several functions is a public proof function whose name starts with `law_`. They stand
next to the functions they are about, or in the `laws.rs` of a module.

Calls into other crates are behind a few trusted functions, whose contracts say what is relied upon:
LZ4 blocks in `cache/lz4.rs`, addresses in `edr/address.rs`, UUIDs and the time in `ids.rs`, upper case
in `edr/vector.rs`, and shared ownership in `cache/container.rs`.

# plugin_memory

Memory accounting for plugins that share one native library, verified with
Verus.

* `src/` is the library. Its functions say in their contracts what they do, and
  the `law_` functions state what holds of them together.
  * `tracking`, `layout`, `accounting`: a header byte in front of each block says
    which plugin it belongs to, so that freeing it credits its owner.
  * `allocator`: plugins, the threads bound to them, and global statistics.
  * `plugin_arena`: plugins with jemalloc arenas of their own.
  * `heap_allocator`: plugins with mimalloc heaps of their own.
  * `memory_budget`: a budget that is reserved before memory is used.
  * `counters`: counting without counters that all threads share.
  * `native_registry`, `reflection`, `discovery`: binding of the native methods of
    Java classes.
  * `ffm`, `ffm_safe`: functions that are called from outside the language.
  * `metrics`, `query`: periodic reports, and the course of a query.
  * `mallctl`, `jvm`, `syntax`: what the library takes from jemalloc, from a Java
    machine and from a parser of Rust. The functions in them that make outside
    calls are trusted; so are `read_json_number` in `heap_allocator` and
    `available_cpus` in `plugin_arena`.
  * `numeric`, `text`: integers and text.
* `tests/` runs the library.
* `app/` is the native library around it: exports, process-wide state, threads
  and foreign functions.

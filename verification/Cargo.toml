[package]
name = "plugin_memory"
version = "0.1.0"
edition = "2021"
publish = false

[dependencies]
datafusion = { version = "=52.5.0", default-features = false, features = ["parquet"] }
datafusion-substrait = { version = "=52.5.0", default-features = false }
jni = "=0.21.1"
libc = "=0.2.191"
libmimalloc-sys = { version = "=0.1.44", features = ["extended", "v3"] }
linkme = "=0.3.37"
log = "=0.4.35"
mimalloc = { version = "=0.1.48", features = ["v3"] }
num_cpus = "=1.17.0"
object_store = "0.12"
proc-macro2 = "=1.0.107"
prost = "0.14"
quote = "=1.0.47"
serde_json = "=1.0.154"
substrait = "=0.62.2"
syn = { version = "=2.0.119", features = ["full"] }
tikv-jemalloc-ctl = { version = "=0.6.1", features = ["stats"] }
tikv-jemallocator = { version = "=0.6.1", features = ["unprefixed_malloc_on_supported_platforms"] }

//! Functions for callers outside the language that share one allocator.
use vstd::prelude::*;

verus! {

/// What the writer fills its buffers with.
pub const PARQUET_FILL: u8 = 0xAA;

/// What the query engine fills its buffers with.
pub const DATAFUSION_FILL: u8 = 0xDF;

/// Bytes that writers for paths with this prefix use. There are no writers.
pub fn parquet_get_filtered_bytes_used(prefix: &str) -> (bytes: i64)
    ensures
        bytes == 0,
{
    0
}

/// A buffer of one byte over and over.
pub open spec fn filled(fill: u8, size: i64) -> Seq<u8> {
    Seq::new(size as nat, |i: int| fill)
}

/// Makes a buffer of one byte over and over.
fn fill_buffer(fill: u8, size: i64) -> (buffer: Vec<u8>)
    requires
        0 <= size <= isize::MAX,
    ensures
        buffer@ == filled(fill, size),
{
    let buffer: Vec<u8> = vec![fill; size as usize];
    assert(buffer@ =~= filled(fill, size));
    buffer
}

/// Makes a buffer of the writer.
pub fn parquet_allocate_buffer(size: i64) -> (buffer: Vec<u8>)
    requires
        0 <= size <= isize::MAX,
    ensures
        buffer@ == filled(PARQUET_FILL, size),
{
    fill_buffer(PARQUET_FILL, size)
}

/// Makes a buffer of the query engine.
pub fn datafusion_allocate_buffer(size: i64) -> (buffer: Vec<u8>)
    requires
        0 <= size <= isize::MAX,
    ensures
        buffer@ == filled(DATAFUSION_FILL, size),
{
    fill_buffer(DATAFUSION_FILL, size)
}

/// Returns the version of the query engine as a JSON text that ends with a NUL.
pub fn datafusion_get_version() -> (version: &'static str)
    ensures
        version@ == "{\"version\": \"52.4.0\", \"codecs\": [\"CsvDataSourceCodec\"]}\0"@,
{
    "{\"version\": \"52.4.0\", \"codecs\": [\"CsvDataSourceCodec\"]}\0"
}

/// Starts the runtime of the query engine with a number of threads. Returns 0,
/// or -1 if the number is not positive.
pub fn datafusion_init_runtime(cpu_threads: i64) -> (status: i64)
    ensures
        status == (if cpu_threads <= 0 {
            -1
        } else {
            0int
        }),
{
    if cpu_threads <= 0 {
        return -1;
    }
    0
}

/// A byte of a buffer tells who made the buffer.
pub proof fn law_fill_tells_the_maker(size: i64, place: int)
    requires
        0 <= place < size,
    ensures
        filled(PARQUET_FILL, size)[place] == PARQUET_FILL,
        filled(DATAFUSION_FILL, size)[place] == DATAFUSION_FILL,
        filled(PARQUET_FILL, size)[place] != filled(DATAFUSION_FILL, size)[place],
{
}

} // verus!

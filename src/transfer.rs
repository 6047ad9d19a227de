use vstd::prelude::*;
use crate::text::string_views;

verus! {

/// How files move between the host and a device.
#[derive(Debug, Clone)]
pub struct TransferOptions {
    /// Compress the transfer.
    pub compression: bool,
    /// The compression algorithm: `any`, `none`, `brotli`, `lz4` or `zstd`.
    pub compression_algorithm: Option<String>,
    /// Push only files that are newer on the host.
    pub sync: bool,
    /// Push without storing anything on the device.
    pub dry_run: bool,
    /// Keep timestamps and modes when pulling.
    pub preserve_timestamp: bool,
    /// The size of the pieces a large file is pushed in, in bytes.
    pub chunk_size: usize,
}

/// The piece size used when none is chosen: 64 KiB.
pub const DEFAULT_CHUNK_SIZE: usize = 65536;

impl Default for TransferOptions {
    fn default() -> (r: TransferOptions)
        ensures
            !r.compression && r.compression_algorithm is None,
            !r.sync && !r.dry_run && !r.preserve_timestamp,
            r.chunk_size == DEFAULT_CHUNK_SIZE,
    {
        TransferOptions {
            compression: false,
            compression_algorithm: None,
            sync: false,
            dry_run: false,
            preserve_timestamp: false,
            chunk_size: DEFAULT_CHUNK_SIZE,
        }
    }
}

/// The arguments that pick a device: none for the empty id.
pub open spec fn device_selector(device_id: Seq<char>) -> Seq<Seq<char>> {
    if device_id.len() == 0 {
        Seq::empty()
    } else {
        seq!["-s"@, device_id]
    }
}

/// The arguments that choose compression.
pub open spec fn compression_args(o: TransferOptions) -> Seq<Seq<char>> {
    if o.compression {
        match o.compression_algorithm {
            Some(a) => seq!["-z"@, a@],
            None => seq!["-z"@, "any"@],
        }
    } else {
        seq!["-Z"@]
    }
}

/// The arguments of a pull from `device_path` to `local_path`.
pub open spec fn pull_args_spec(
    device_id: Seq<char>,
    device_path: Seq<char>,
    local_path: Seq<char>,
    o: TransferOptions,
) -> Seq<Seq<char>> {
    device_selector(device_id) + seq!["pull"@] + (if o.preserve_timestamp {
        seq!["-a"@]
    } else {
        Seq::empty()
    }) + compression_args(o) + seq![device_path, local_path]
}

/// The arguments of a push from `local_path` to `device_path`.
pub open spec fn push_args_spec(
    device_id: Seq<char>,
    local_path: Seq<char>,
    device_path: Seq<char>,
    o: TransferOptions,
) -> Seq<Seq<char>> {
    device_selector(device_id) + seq!["push"@] + (if o.sync {
        seq!["--sync"@]
    } else {
        Seq::empty()
    }) + (if o.dry_run {
        seq!["-n"@]
    } else {
        Seq::empty()
    }) + compression_args(o) + seq![local_path, device_path]
}

fn push_str(args: &mut Vec<String>, s: &str)
    ensures
        string_views(final(args)@) == string_views(old(args)@).push(s@),
{
    args.push(s.to_owned());
    assert(string_views(args@) =~= string_views(old(args)@).push(s@));
}

fn push_selector(args: &mut Vec<String>, device_id: &str)
    ensures
        string_views(final(args)@) == string_views(old(args)@) + device_selector(device_id@),
{
    if device_id.unicode_len() != 0 {
        push_str(args, "-s");
        push_str(args, device_id);
    }
    assert(string_views(args@) =~= string_views(old(args)@) + device_selector(device_id@));
}

fn push_compression(args: &mut Vec<String>, o: &TransferOptions)
    ensures
        string_views(final(args)@) == string_views(old(args)@) + compression_args(*o),
{
    if o.compression {
        push_str(args, "-z");
        match &o.compression_algorithm {
            Some(a) => push_str(args, a.as_str()),
            None => push_str(args, "any"),
        }
    } else {
        push_str(args, "-Z");
    }
    assert(string_views(args@) =~= string_views(old(args)@) + compression_args(*o));
}

/// The arguments of the device tool that pull `device_path` to `local_path`.
pub fn pull_args(
    device_id: &str,
    device_path: &str,
    local_path: &str,
    options: &TransferOptions,
) -> (r: Vec<String>)
    ensures
        string_views(r@) == pull_args_spec(device_id@, device_path@, local_path@, *options),
{
    let mut args: Vec<String> = Vec::new();
    push_selector(&mut args, device_id);
    push_str(&mut args, "pull");
    if options.preserve_timestamp {
        push_str(&mut args, "-a");
    }
    push_compression(&mut args, options);
    push_str(&mut args, device_path);
    push_str(&mut args, local_path);
    assert(string_views(args@) =~= pull_args_spec(device_id@, device_path@, local_path@, *options));
    args
}

/// The arguments of the device tool that push `local_path` to `device_path`.
pub fn push_args(
    device_id: &str,
    local_path: &str,
    device_path: &str,
    options: &TransferOptions,
) -> (r: Vec<String>)
    ensures
        string_views(r@) == push_args_spec(device_id@, local_path@, device_path@, *options),
{
    let mut args: Vec<String> = Vec::new();
    push_selector(&mut args, device_id);
    push_str(&mut args, "push");
    if options.sync {
        push_str(&mut args, "--sync");
    }
    if options.dry_run {
        push_str(&mut args, "-n");
    }
    push_compression(&mut args, options);
    push_str(&mut args, local_path);
    push_str(&mut args, device_path);
    assert(string_views(args@) =~= push_args_spec(device_id@, local_path@, device_path@, *options));
    args
}

/// The number of pieces a file of `file_size` bytes is pushed in, pieces
/// being `chunk_size` bytes and the last one possibly shorter.
pub fn chunk_count(file_size: usize, chunk_size: usize) -> (r: usize)
    requires
        chunk_size > 0,
    ensures
        r as int * chunk_size >= file_size,
        r == 0 || (r - 1) * chunk_size < file_size,
{
    let q = file_size / chunk_size;
    proof {
        assert(file_size == q * chunk_size + file_size % chunk_size) by (nonlinear_arith)
            requires
                chunk_size > 0,
                q == file_size / chunk_size,
        ;
        if file_size % chunk_size != 0 {
            assert(chunk_size >= 2);
            assert(q * chunk_size >= 2 * q) by (nonlinear_arith)
                requires
                    chunk_size >= 2,
                    q >= 0,
            ;
        }
    }
    let r = if file_size % chunk_size == 0 {
        q
    } else {
        q + 1
    };
    proof {
        assert(file_size == q * chunk_size + file_size % chunk_size) by (nonlinear_arith)
            requires
                chunk_size > 0,
                q == file_size / chunk_size,
        ;
        if r > 0 {
            assert((r - 1) * chunk_size <= q * chunk_size) by (nonlinear_arith)
                requires
                    r - 1 <= q,
                    chunk_size > 0,
            ;
            if file_size % chunk_size == 0 {
                assert((r - 1) * chunk_size == q * chunk_size - chunk_size) by (nonlinear_arith)
                    requires
                        r == q,
            ;
            }
        }
        assert(r * chunk_size >= q * chunk_size) by (nonlinear_arith)
            requires
                r >= q,
                chunk_size > 0,
        ;
        if file_size % chunk_size != 0 {
            assert(r * chunk_size == q * chunk_size + chunk_size) by (nonlinear_arith)
                requires
                    r == q + 1,
            ;
        }
    }
    r
}

} // verus!

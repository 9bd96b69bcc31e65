//! Decisions of the command line: argument checks, the server a command
//! talks to, the name under which a directory is published, and the
//! summaries that the `inspect` commands print.

use vstd::prelude::*;
use vstd::string::*;
use crate::text::{chars_of, parse_u64, parse_u64_error_spec, parse_u64_spec, parse_u64_text, slice_range, string_of};

verus! {

/// The refusal of zero by [`greater_than_0`].
pub const NOT_GREATER_THAN_ZERO: &'static str = "Number must be greater than zero";

/// Checks a command line number that must be at least 1: the number, or
/// the parser's error, or [`NOT_GREATER_THAN_ZERO`] for 0.
pub fn greater_than_0(s: &str) -> (r: Result<u64, String>)
    ensures
        match parse_u64_spec(s@) {
            Some(v) => if v >= 1 {
                r == Ok::<u64, String>(v)
            } else {
                r matches Err(m) && m@ == NOT_GREATER_THAN_ZERO@
            },
            None => r matches Err(m) && m@ == parse_u64_error_spec(s@),
        },
{
    let cs = chars_of(s);
    match parse_u64_text(&cs) {
        Err(e) => Err(e),
        Ok(value) => {
            if value >= 1 {
                Ok(value)
            } else {
                Err(String::from_str(NOT_GREATER_THAN_ZERO))
            }
        },
    }
}

/// The number of server workers when `DWEB_WORKERS` does not set one.
pub const DEFAULT_WORKERS: usize = 12;

/// The number of worker threads of the server for the value of
/// `DWEB_WORKERS` (`None` when unset): the number it holds when that is a
/// positive decimal number that fits, else [`DEFAULT_WORKERS`].
pub open spec fn worker_count_spec(value: Option<Seq<char>>) -> usize {
    match value {
        Some(s) => match parse_u64_spec(s) {
            Some(n) => if 1 <= n && n <= usize::MAX {
                n as usize
            } else {
                DEFAULT_WORKERS
            },
            None => DEFAULT_WORKERS,
        },
        None => DEFAULT_WORKERS,
    }
}

/// See [`worker_count_spec`].
pub fn worker_count(value: Option<&str>) -> (r: usize)
    ensures
        r == worker_count_spec(
            match value {
                Some(s) => Some(s@),
                None => None,
            },
        ),
        r >= 1,
{
    match value {
        Some(s) => {
            let cs = chars_of(s);
            match parse_u64(&cs) {
                Some(n) => if 1 <= n && n <= usize::MAX as u64 {
                    n as usize
                } else {
                    DEFAULT_WORKERS
                },
                None => DEFAULT_WORKERS,
            }
        },
        None => DEFAULT_WORKERS,
    }
}

/// What the `inspect` commands print about the files of a directory.
#[derive(Debug, Clone, Copy, PartialEq, Eq)]
pub struct FilesArgs {
    /// Print the path of each file.
    pub print_paths: bool,
    /// Print each file's metadata (path, dates, size).
    pub print_all_details: bool,
}

impl Default for FilesArgs {
    fn default() -> (r: FilesArgs)
        ensures
            r.print_paths,
            !r.print_all_details,
    {
        FilesArgs { print_paths: true, print_all_details: false }
    }
}

/// Where the servers listen by default: the local host and the main port
/// of the server for websites by port, and the host and main port of the
/// (experimental) server for websites by host name.
#[derive(Debug, Clone)]
pub struct ServerDefaults {
    pub localhost: String,
    pub ports_main_port: u16,
    pub api_host: String,
    pub hosts_main_port: u16,
}

/// The host and port of the main server that a command talks to: those
/// given, else the defaults of the experimental server for websites by
/// host name or of the server for websites by port.
pub fn main_server_address(
    experimental: bool,
    host: Option<String>,
    port: Option<u16>,
    defaults: &ServerDefaults,
) -> (r: (String, u16))
    ensures
        r.0@ == (match host {
            Some(h) => h@,
            None => if experimental {
                defaults.api_host@
            } else {
                defaults.localhost@
            },
        }),
        r.1 == (match port {
            Some(p) => p,
            None => if experimental {
                defaults.hosts_main_port
            } else {
                defaults.ports_main_port
            },
        }),
{
    let host = match host {
        Some(h) => h,
        None => if experimental {
            defaults.api_host.clone()
        } else {
            defaults.localhost.clone()
        },
    };
    let port = match port {
        Some(p) => p,
        None => if experimental {
            defaults.hosts_main_port
        } else {
            defaults.ports_main_port
        },
    };
    (host, port)
}

/// The name under which `publish-update` publishes a directory: the name
/// given, else the directory's own name (`None` when neither exists, which
/// the command refuses).
pub fn publish_update_name(name: Option<String>, directory_name: Option<String>) -> (r: Option<
    String,
>)
    ensures
        match name {
            Some(n) => r matches Some(m) && m@ == n@,
            None => match directory_name {
                Some(d) => r matches Some(m) && m@ == d@,
                None => r is None,
            },
        },
{
    match name {
        Some(n) => Some(n),
        None => directory_name,
    }
}

/// A hexadecimal string shortened for display: its first six characters
/// (all of it when shorter) followed by `..`.
pub open spec fn shorten_hex_spec(s: Seq<char>) -> Seq<char> {
    (if s.len() <= 6 {
        s
    } else {
        s.take(6)
    }) + seq!['.', '.']
}

/// See [`shorten_hex_spec`].
pub fn shorten_hex(s: &str) -> (r: String)
    ensures
        r@ == shorten_hex_spec(s@),
{
    let cs = chars_of(s);
    let n: usize = if cs.len() <= 6 {
        cs.len()
    } else {
        6
    };
    let mut v = slice_range(cs.as_slice(), 0, n);
    v.push('.');
    v.push('.');
    assert(v@ =~= shorten_hex_spec(s@));
    string_of(v.as_slice())
}

/// How a file's data address is shown: the address, or `[private]` for a
/// file that has none.
pub fn display_data_address(data_address: &str) -> (r: String)
    ensures
        r@ == (if data_address@.len() == 0 {
            "[private]"@
        } else {
            data_address@
        }),
{
    if data_address.is_empty() {
        String::from_str("[private]")
    } else {
        String::from_str(data_address)
    }
}

/// The sum of a sequence of sizes.
pub open spec fn sum_sizes(s: Seq<u64>) -> nat
    decreases s.len(),
{
    if s.len() == 0 {
        0
    } else {
        sum_sizes(s.drop_last()) + s.last() as nat
    }
}

/// The number of files in a list of directories (each given by the sizes
/// of its files).
pub open spec fn count_files(d: Seq<Seq<u64>>) -> nat
    decreases d.len(),
{
    if d.len() == 0 {
        0
    } else {
        count_files(d.drop_last()) + d.last().len()
    }
}

/// The total size of the files in a list of directories.
pub open spec fn total_bytes(d: Seq<Seq<u64>>) -> nat
    decreases d.len(),
{
    if d.len() == 0 {
        0
    } else {
        total_bytes(d.drop_last()) + sum_sizes(d.last())
    }
}

/// The view of a list of directories.
pub open spec fn directories_view(d: Seq<Vec<u64>>) -> Seq<Seq<u64>> {
    d.map_values(|v: Vec<u64>| v@)
}

proof fn lemma_sum_sizes_prefix(s: Seq<u64>, i: int)
    requires
        0 <= i <= s.len(),
    ensures
        sum_sizes(s.take(i)) <= sum_sizes(s),
    decreases s.len() - i,
{
    if i < s.len() {
        assert(s.take(i + 1).drop_last() =~= s.take(i));
        lemma_sum_sizes_prefix(s, i + 1);
    } else {
        assert(s.take(i) =~= s);
    }
}

proof fn lemma_totals_prefix(d: Seq<Seq<u64>>, i: int)
    requires
        0 <= i <= d.len(),
    ensures
        count_files(d.take(i)) <= count_files(d),
        total_bytes(d.take(i)) <= total_bytes(d),
    decreases d.len() - i,
{
    if i < d.len() {
        assert(d.take(i + 1).drop_last() =~= d.take(i));
        lemma_totals_prefix(d, i + 1);
    } else {
        assert(d.take(i) =~= d);
    }
}

proof fn lemma_sum_sizes_concat(a: Seq<u64>, b: Seq<u64>)
    ensures
        sum_sizes(a + b) == sum_sizes(a) + sum_sizes(b),
    decreases b.len(),
{
    if b.len() == 0 {
        assert(a + b =~= a);
    } else {
        lemma_sum_sizes_concat(a, b.drop_last());
        assert((a + b).drop_last() =~= a + b.drop_last());
        assert((a + b).last() == b.last());
    }
}

/// The directory summary counts every file of every directory once: the
/// number of files is the length of all the directories' size lists put
/// together, and the total size is the sum of all those sizes.
pub proof fn directory_stats_count_every_file(d: Seq<Seq<u64>>)
    ensures
        count_files(d) == d.flatten().len(),
        total_bytes(d) == sum_sizes(d.flatten()),
    decreases d.len(),
{
    d.lemma_flatten_and_flatten_alt_are_equivalent();
    if d.len() > 0 {
        let p = d.drop_last();
        directory_stats_count_every_file(p);
        p.lemma_flatten_and_flatten_alt_are_equivalent();
        assert(d.flatten_alt() == p.flatten_alt() + d.last());
        lemma_sum_sizes_concat(p.flatten_alt(), d.last());
    }
}

/// The number of files and their total size in bytes, for a directory tree
/// given as the sizes of the files of each of its directories.
pub fn directory_stats(directories: &Vec<Vec<u64>>) -> (r: (usize, u64))
    requires
        count_files(directories_view(directories@)) <= usize::MAX,
        total_bytes(directories_view(directories@)) <= u64::MAX,
    ensures
        r.0 == count_files(directories_view(directories@)),
        r.1 == total_bytes(directories_view(directories@)),
        r.0 == directories_view(directories@).flatten().len(),
        r.1 == sum_sizes(directories_view(directories@).flatten()),
{
    let ghost d = directories_view(directories@);
    proof {
        directory_stats_count_every_file(d);
    }
    let mut files_count: usize = 0;
    let mut bytes: u64 = 0;
    let mut i: usize = 0;
    assert(d.take(0) =~= Seq::<Seq<u64>>::empty());
    while i < directories.len()
        invariant
            i <= directories.len(),
            d == directories_view(directories@),
            count_files(d) <= usize::MAX,
            total_bytes(d) <= u64::MAX,
            files_count == count_files(d.take(i as int)),
            bytes == total_bytes(d.take(i as int)),
        decreases directories.len() - i,
    {
        let dir = &directories[i];
        assert(d.take(i + 1).drop_last() =~= d.take(i as int));
        assert(d.take(i + 1).last() == dir@);
        proof {
            lemma_totals_prefix(d, i + 1);
        }
        files_count = files_count + dir.len();
        let mut j: usize = 0;
        let ghost base = bytes;
        assert(dir@.take(0) =~= Seq::<u64>::empty());
        while j < dir.len()
            invariant
                j <= dir.len(),
                base + sum_sizes(dir@) <= u64::MAX,
                bytes == base + sum_sizes(dir@.take(j as int)),
            decreases dir.len() - j,
        {
            assert(dir@.take(j + 1).drop_last() =~= dir@.take(j as int));
            proof {
                lemma_sum_sizes_prefix(dir@, j + 1);
            }
            bytes = bytes + dir[j];
            j = j + 1;
        }
        assert(dir@.take(dir.len() as int) =~= dir@);
        i = i + 1;
    }
    assert(d.take(directories.len() as int) =~= d);
    (files_count, bytes)
}

/// The network a client connects to: a local testnet takes precedence
/// over the alpha network, and the public network is the default.
#[derive(Debug, Clone, Copy, PartialEq, Eq)]
pub enum NetworkKind {
    Local,
    Alpha,
    Public,
}

/// See [`NetworkKind`].
pub fn network_kind(local: bool, alpha: bool) -> (r: NetworkKind)
    ensures
        r == (if local {
            NetworkKind::Local
        } else if alpha {
            NetworkKind::Alpha
        } else {
            NetworkKind::Public
        }),
{
    if local {
        NetworkKind::Local
    } else if alpha {
        NetworkKind::Alpha
    } else {
        NetworkKind::Public
    }
}

} // verus!

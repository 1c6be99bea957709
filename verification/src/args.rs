//! The fuzzer's command line: the arguments a run is configured with, and
//! their rendering back to an argument vector when one process launches
//! another.
use vstd::prelude::*;

use crate::strings::{decimal_digits, u64_to_string};

verus! {

/// The four top-level commands of the fuzzer.
#[derive(Clone, Copy, PartialEq, Eq, Debug)]
pub enum FuzzerCommand {
    Fuzz,
    Read,
    MinifyInput,
    MinifyCorpus,
}

/// The arguments of one fuzzer run. Paths are plain strings here;
/// complexities are in whole units.
#[derive(Clone, Debug)]
pub struct CommandLineArguments {
    pub command: FuzzerCommand,
    pub input_file: Option<String>,
    pub corpus_in: Option<String>,
    pub corpus_out: Option<String>,
    pub artifacts_folder: Option<String>,
    pub corpus_size: usize,
    pub max_input_cplx: u64,
    pub max_nbr_of_runs: u64,
    pub timeout: u64,
}

/// The name of a fuzzer command on the command line.
pub open spec fn spec_command_string(command: FuzzerCommand) -> Seq<char> {
    match command {
        FuzzerCommand::Fuzz => "fuzz"@,
        FuzzerCommand::Read => "read"@,
        FuzzerCommand::MinifyInput => "minify-input"@,
        FuzzerCommand::MinifyCorpus => "minify-corpus"@,
    }
}

/// The full argument vector that `command_line_arguments_string` renders:
/// the command, then each flag with its value, a `--no-...` flag standing
/// in for every absent path.
pub open spec fn spec_arguments(args: CommandLineArguments) -> Seq<Seq<char>> {
    seq![spec_command_string(args.command)] + (match args.input_file {
        Some(f) => seq!["--input-file"@, f@],
        None => Seq::<Seq<char>>::empty(),
    }) + seq!["--corpus-size"@, decimal_digits(args.corpus_size as nat)] + (
    match args.corpus_in {
        Some(f) => seq!["--corpus-in"@, f@],
        None => seq!["--no-in-corpus"@],
    }) + (match args.corpus_out {
        Some(f) => seq!["--corpus-out"@, f@],
        None => seq!["--no-out-corpus"@],
    }) + (match args.artifacts_folder {
        Some(f) => seq!["--artifacts"@, f@],
        None => seq!["--no-artifacts"@],
    }) + seq!["--max-input-cplx"@, decimal_digits(args.max_input_cplx as nat)]
        + seq!["--max-nbr-of-runs"@, decimal_digits(args.max_nbr_of_runs as nat)]
        + seq!["--timeout"@, decimal_digits(args.timeout as nat)]
}

/// The views of a vector of strings.
pub open spec fn string_views(strings: Seq<String>) -> Seq<Seq<char>> {
    strings.map_values(|s: String| s@)
}

/// Renders the arguments as the argument vector to hand to a fuzzer
/// process.
pub fn command_line_arguments_string(args: &CommandLineArguments) -> (r: Vec<String>)
    ensures
        string_views(r@) == spec_arguments(*args),
{
    let mut s: Vec<String> = Vec::new();
    match args.command {
        FuzzerCommand::Fuzz => s.push("fuzz".to_owned()),
        FuzzerCommand::Read => s.push("read".to_owned()),
        FuzzerCommand::MinifyInput => s.push("minify-input".to_owned()),
        FuzzerCommand::MinifyCorpus => s.push("minify-corpus".to_owned()),
    }
    match &args.input_file {
        Some(f) => {
            s.push("--input-file".to_owned());
            s.push(f.clone());
        },
        None => {},
    }
    s.push("--corpus-size".to_owned());
    s.push(u64_to_string(args.corpus_size as u64));
    match &args.corpus_in {
        Some(f) => {
            s.push("--corpus-in".to_owned());
            s.push(f.clone());
        },
        None => {
            s.push("--no-in-corpus".to_owned());
        },
    }
    match &args.corpus_out {
        Some(f) => {
            s.push("--corpus-out".to_owned());
            s.push(f.clone());
        },
        None => {
            s.push("--no-out-corpus".to_owned());
        },
    }
    match &args.artifacts_folder {
        Some(f) => {
            s.push("--artifacts".to_owned());
            s.push(f.clone());
        },
        None => {
            s.push("--no-artifacts".to_owned());
        },
    }
    s.push("--max-input-cplx".to_owned());
    s.push(u64_to_string(args.max_input_cplx));
    s.push("--max-nbr-of-runs".to_owned());
    s.push(u64_to_string(args.max_nbr_of_runs));
    s.push("--timeout".to_owned());
    s.push(u64_to_string(args.timeout));
    proof {
        assert(string_views(s@) =~= spec_arguments(*args));
    }
    s
}

/// A decimal digit.
pub open spec fn is_digit(c: char) -> bool {
    '0' <= c && c <= '9'
}

/// The numeric value of a digit (0 for anything else).
pub open spec fn digit_val(c: char) -> nat {
    if is_digit(c) {
        ((c as int) - 48) as nat
    } else {
        0
    }
}

/// The number that a sequence of digits denotes, most significant first.
pub open spec fn prefix_value(p: Seq<char>) -> nat
    decreases p.len(),
{
    if p.len() == 0 {
        0
    } else {
        prefix_value(p.drop_last()) * 10 + digit_val(p.last())
    }
}

/// The position of the first `--` in `s` at or after `i`, if any.
pub open spec fn first_separator(s: Seq<char>, i: int) -> Option<int>
    decreases s.len() - i,
{
    if i < 0 || i + 1 >= s.len() {
        None
    } else if s[i] == '-' && s[i + 1] == '-' {
        Some(i)
    } else {
        first_separator(s, i + 1)
    }
}

/// The complexity encoded in a corpus file name: corpus and artifact files
/// are named `<complexity>--<hash>`, with the complexity in whole units.
/// `None` when the name has no `--`, the prefix is empty or not all digits,
/// or the number does not fit in a `u64`.
pub open spec fn name_complexity(s: Seq<char>) -> Option<u64> {
    match first_separator(s, 0) {
        None => None,
        Some(i) => {
            let p = s.take(i);
            if p.len() > 0 && (forall|j: int| 0 <= j < p.len() ==> is_digit(p[j]))
                && prefix_value(p) <= u64::MAX {
                Some(prefix_value(p) as u64)
            } else {
                None
            }
        },
    }
}

/// A longer digit prefix never denotes a smaller number.
proof fn lemma_prefix_value_monotonic(p: Seq<char>, j: int, k: int)
    requires
        0 <= j <= k <= p.len(),
    ensures
        prefix_value(p.take(j)) <= prefix_value(p.take(k)),
    decreases k - j,
{
    if j < k {
        lemma_prefix_value_monotonic(p, j, k - 1);
        assert(p.take(k).drop_last() =~= p.take(k - 1));
        assert(prefix_value(p.take(k)) == prefix_value(p.take(k - 1)) * 10 + digit_val(
            p.take(k).last(),
        ));
    } else {
        assert(p.take(j) =~= p.take(k));
    }
}

/// Reads the complexity out of one corpus file name.
fn parse_name_complexity(name: &str) -> (r: Option<u64>)
    ensures
        r == name_complexity(name@),
{
    let n = name.unicode_len();
    let ghost s = name@;
    let mut sep: Option<usize> = None;
    if n >= 2 {
        let mut i: usize = 0;
        while sep.is_none() && i < n - 1
            invariant
                n >= 2,
                n == s.len(),
                s == name@,
                i <= n - 1,
                sep is None ==> first_separator(s, 0) == first_separator(s, i as int),
                sep matches Some(p) ==> p as int + 1 < s.len() && first_separator(s, 0) == Some(
                    p as int,
                ),
            decreases n - i + (if sep is None {
                1int
            } else {
                0int
            }),
        {
            let c1 = name.get_char(i);
            let c2 = name.get_char(i + 1);
            if c1 == '-' && c2 == '-' {
                proof {
                    assert(first_separator(s, i as int) == Some(i as int));
                }
                sep = Some(i);
            } else {
                proof {
                    assert(first_separator(s, i as int) == first_separator(s, i as int + 1));
                }
                i += 1;
            }
        }
        proof {
            if sep is None {
                assert(first_separator(s, i as int) is None);
            }
        }
    } else {
        proof {
            assert(first_separator(s, 0) is None);
        }
    }
    let sep_idx: usize;
    match sep {
        Some(p) => {
            sep_idx = p;
        },
        None => {
            return None;
        },
    }
    let ghost p = s.take(sep_idx as int);
    if sep_idx == 0 {
        return None;
    }
    let mut acc: u64 = 0;
    let mut j: usize = 0;
    while j < sep_idx
        invariant
            n == s.len(),
            s == name@,
            sep_idx as int + 1 < s.len(),
            first_separator(s, 0) == Some(sep_idx as int),
            p == s.take(sep_idx as int),
            j <= sep_idx,
            acc as nat == prefix_value(p.take(j as int)),
            forall|k: int| 0 <= k < j ==> is_digit(p[k]),
        decreases sep_idx - j,
    {
        let c = name.get_char(j);
        proof {
            assert(p[j as int] == s[j as int]);
            assert(p.take(j as int + 1).drop_last() =~= p.take(j as int));
            assert(p.take(j as int + 1).last() == p[j as int]);
        }
        if !(c >= '0' && c <= '9') {
            return None;
        }
        let d = (c as u32) as u64 - 48;
        if acc > u64::MAX / 10 || (acc == u64::MAX / 10 && d > u64::MAX % 10) {
            // The number is already too large for a u64; it only grows
            // with further digits.
            proof {
                lemma_prefix_value_monotonic(p, j as int + 1, p.len() as int);
                assert(p.take(p.len() as int) =~= p);
            }
            return None;
        }
        acc = acc * 10 + d;
        j += 1;
    }
    proof {
        assert(p.take(sep_idx as int) =~= p);
    }
    Some(acc)
}

/// Picks, among corpus file names, the one with the smallest complexity
/// prefix: the seed for the next round of input minification. Ties go to
/// the last of the equally simple names; names without a recognizable
/// complexity are ignored.
pub fn simplest_input_file(names: &Vec<String>) -> (r: Option<usize>)
    ensures
        r is None <==> (forall|j: int|
            0 <= j < names@.len() ==> name_complexity(names@[j]@) is None),
        r matches Some(i) ==> i < names@.len() && name_complexity(names@[i as int]@) is Some && (
        forall|j: int|
            0 <= j < names@.len() && name_complexity(names@[j]@) is Some
                ==> name_complexity(names@[i as int]@).unwrap() <= name_complexity(
                names@[j]@,
            ).unwrap()) && (forall|j: int|
            i < j < names@.len() && name_complexity(names@[j]@) is Some ==> name_complexity(
                names@[i as int]@,
            ).unwrap() < name_complexity(names@[j]@).unwrap()),
{
    let mut best: Option<(usize, u64)> = None;
    let mut idx: usize = 0;
    while idx < names.len()
        invariant
            idx <= names@.len(),
            best is None ==> forall|j: int|
                0 <= j < idx ==> name_complexity(names@[j]@) is None,
            best matches Some((bi, bc)) ==> bi < idx && name_complexity(names@[bi as int]@)
                == Some(bc) && (forall|j: int|
                0 <= j < idx && name_complexity(names@[j]@) is Some ==> bc <= name_complexity(
                    names@[j]@,
                ).unwrap()) && (forall|j: int|
                bi < j < idx && name_complexity(names@[j]@) is Some ==> bc < name_complexity(
                    names@[j]@,
                ).unwrap()),
        decreases names@.len() - idx,
    {
        let c = parse_name_complexity(names[idx].as_str());
        match c {
            Some(cplx) => {
                match best {
                    None => {
                        best = Some((idx, cplx));
                    },
                    Some((bi, bc)) => {
                        if cplx <= bc {
                            best = Some((idx, cplx));
                        }
                    },
                }
            },
            None => {},
        }
        idx += 1;
    }
    match best {
        Some((bi, bc)) => Some(bi),
        None => None,
    }
}

} // verus!

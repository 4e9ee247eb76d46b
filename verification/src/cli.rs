//! The command line of the runner.
use vstd::prelude::*;

use crate::dispatch::Leaf;
use crate::text::{chars_of, contains, parse_number, parse_numbers};

verus! {

/// What the runner was asked for.
pub struct Args {
    /// trials per scenario
    pub trials: usize,
    /// how many levels below the caller the target and argument cages sit
    pub depth: u64,
    /// how many of the six argument cage ids the policy inspects
    pub ncheck: usize,
    /// what the bottom of the stack does
    pub leaf: Leaf,
    /// the handler table for the full-path scenarios
    pub table: String,
    /// the grate stack heights to measure
    pub grates: Vec<usize>,
    /// the thread counts for the contention scenario
    pub threads: Vec<usize>,
    /// only the scenarios whose name contains this are run
    pub only: Option<String>,
    /// where the results are also written
    pub csv: Option<String>,
}

/// What an `Args` says.
pub struct Settings {
    pub trials: usize,
    pub depth: u64,
    pub ncheck: usize,
    pub leaf: Leaf,
    pub table: Seq<char>,
    pub grates: Seq<usize>,
    pub threads: Seq<usize>,
    pub only: Option<Seq<char>>,
    pub csv: Option<Seq<char>>,
}

/// Whether the two texts are the same.
fn same(a: &String, b: &str) -> (r: bool)
    ensures
        r == (a@ == b@),
{
    *a == b.to_owned()
}

impl View for Args {
    type V = Settings;

    open spec fn view(&self) -> Settings {
        Settings {
            trials: self.trials,
            depth: self.depth,
            ncheck: self.ncheck,
            leaf: self.leaf,
            table: self.table@,
            grates: self.grates@,
            threads: self.threads@,
            only: text_of(self.only),
            csv: text_of(self.csv),
        }
    }
}

/// The characters of a text, where there is one.
pub open spec fn text_of(s: Option<String>) -> Option<Seq<char>> {
    match s {
        Some(t) => Some(t@),
        None => None,
    }
}

/// What the command line comes to.
pub enum Parsed {
    /// run the scenarios
    Run(Args),
    /// show the help
    Help,
    /// a flag that is not known
    UnknownFlag(String),
    /// a flag whose value is no number, or no list of numbers
    BadValue(String),
}

/// What a `Parsed` says.
pub enum Outcome {
    Run(Settings),
    Help,
    UnknownFlag(Seq<char>),
    BadValue(Seq<char>),
}

impl View for Parsed {
    type V = Outcome;

    open spec fn view(&self) -> Outcome {
        match *self {
            Parsed::Run(args) => Outcome::Run(args@),
            Parsed::Help => Outcome::Help,
            Parsed::UnknownFlag(flag) => Outcome::UnknownFlag(flag@),
            Parsed::BadValue(flag) => Outcome::BadValue(flag@),
        }
    }
}

/// The settings without any flag.
pub open spec fn default_settings() -> Settings {
    Settings {
        trials: 9,
        depth: 3,
        ncheck: 2,
        leaf: Leaf::Cheap,
        table: "mutex"@,
        grates: seq![1usize, 2, 3],
        threads: seq![1usize, 2, 4, 8],
        only: None,
        csv: None,
    }
}

/// The value of the flag at `i`: what follows it, or nothing at the end.
pub open spec fn value_of(argv: Seq<String>, i: int) -> Seq<char> {
    if i + 1 < argv.len() {
        argv[i + 1]@
    } else {
        Seq::empty()
    }
}

/// A list of numbers as a list of counts.
pub open spec fn counts(list: Seq<nat>) -> Seq<usize> {
    list.map_values(|n: nat| n as usize)
}

/// What the flag at `i` makes of the settings `a`; an outcome where the command line
/// ends there.
pub open spec fn flag_effect(argv: Seq<String>, i: int, a: Settings) -> Result<Settings, Outcome> {
    let flag = argv[i]@;
    let value = value_of(argv, i);
    if flag == "--trials"@ {
        match crate::text::number(value, usize::MAX as nat) {
            Some(n) => Ok(Settings { trials: n as usize, ..a }),
            None => Err(Outcome::BadValue(flag)),
        }
    } else if flag == "--depth"@ {
        match crate::text::number(value, u64::MAX as nat) {
            Some(n) => Ok(Settings { depth: n as u64, ..a }),
            None => Err(Outcome::BadValue(flag)),
        }
    } else if flag == "--ncheck"@ {
        match crate::text::number(value, usize::MAX as nat) {
            Some(n) => Ok(Settings { ncheck: n as usize, ..a }),
            None => Err(Outcome::BadValue(flag)),
        }
    } else if flag == "--leaf"@ {
        Ok(
            Settings {
                leaf: if value == "syscall"@ {
                    Leaf::HostSyscall
                } else {
                    Leaf::Cheap
                },
                ..a
            },
        )
    } else if flag == "--table"@ {
        Ok(Settings { table: value, ..a })
    } else if flag == "--grates"@ {
        match crate::text::numbers(value, usize::MAX as nat) {
            Some(list) => Ok(Settings { grates: counts(list), ..a }),
            None => Err(Outcome::BadValue(flag)),
        }
    } else if flag == "--threads"@ {
        match crate::text::numbers(value, usize::MAX as nat) {
            Some(list) => Ok(Settings { threads: counts(list), ..a }),
            None => Err(Outcome::BadValue(flag)),
        }
    } else if flag == "--only"@ {
        Ok(Settings { only: Some(value), ..a })
    } else if flag == "--csv"@ {
        Ok(Settings { csv: Some(value), ..a })
    } else if flag == "-h"@ || flag == "--help"@ {
        Err(Outcome::Help)
    } else {
        Err(Outcome::UnknownFlag(flag))
    }
}

/// What the flags from `i` on make of the settings `a`. Every flag has a value, and
/// the first one that ends the command line decides.
pub open spec fn parsed_from(argv: Seq<String>, i: int, a: Settings) -> Outcome
    decreases argv.len() + 1 - i,
{
    if i >= argv.len() {
        Outcome::Run(a)
    } else {
        match flag_effect(argv, i, a) {
            Ok(next) => parsed_from(argv, i + 2, next),
            Err(end) => end,
        }
    }
}

/// The settings without any flag.
fn default_args() -> (a: Args)
    ensures
        a@ == default_settings(),
{
    let grates: Vec<usize> = vec![1, 2, 3];
    let threads: Vec<usize> = vec![1, 2, 4, 8];
    let a = Args {
        trials: 9,
        depth: 3,
        ncheck: 2,
        leaf: Leaf::Cheap,
        table: "mutex".to_owned(),
        grates,
        threads,
        only: None,
        csv: None,
    };
    assert(a.grates@ =~= seq![1usize, 2, 3]);
    assert(a.threads@ =~= seq![1usize, 2, 4, 8]);
    a
}

/// Reads a number that is no more than `max`.
fn read_number(s: &String, max: u64) -> (r: Option<u64>)
    ensures
        match r {
            Some(v) => crate::text::number(s@, max as nat) == Some(v as nat) && v <= max,
            None => crate::text::number(s@, max as nat) is None,
        },
{
    let chars: Vec<char> = chars_of(s.as_str());
    assert(chars@.subrange(0, chars@.len() as int) =~= s@);
    parse_number(&chars, 0, chars.len(), max)
}

/// Reads a list of counts.
fn read_counts(s: &String) -> (r: Option<Vec<usize>>)
    ensures
        match r {
            Some(v) => crate::text::numbers(s@, usize::MAX as nat) matches Some(list) && v@
                == counts(list),
            None => crate::text::numbers(s@, usize::MAX as nat) is None,
        },
{
    let r: Option<Vec<usize>> = parse_numbers(s.as_str());
    proof {
        if r is Some {
            let v = r->0@;
            assert(counts(v.map_values(|n: usize| n as nat)) =~= v);
        }
    }
    r
}

/// Reads the command line, without the name of the program.
pub fn parse_args(argv: &[String]) -> (r: Parsed)
    ensures
        r@ == parsed_from(argv@, 0, default_settings()),
{
    let mut a: Args = default_args();
    let n: usize = argv.len();
    let mut i: usize = 0;
    while i < n
        invariant
            i <= n == argv@.len(),
            parsed_from(argv@, i as int, a@) == parsed_from(argv@, 0, default_settings()),
        decreases n - i,
    {
        let flag: &String = &argv[i];
        let value: String = if i + 1 < n {
            argv[i + 1].clone()
        } else {
            String::new()
        };
        if same(flag, "--trials") {
            match read_number(&value, usize::MAX as u64) {
                Some(n) => {
                    a.trials = n as usize;
                },
                None => {
                    return Parsed::BadValue(flag.clone());
                },
            }
        } else if same(flag, "--depth") {
            match read_number(&value, u64::MAX) {
                Some(n) => {
                    a.depth = n;
                },
                None => {
                    return Parsed::BadValue(flag.clone());
                },
            }
        } else if same(flag, "--ncheck") {
            match read_number(&value, usize::MAX as u64) {
                Some(n) => {
                    a.ncheck = n as usize;
                },
                None => {
                    return Parsed::BadValue(flag.clone());
                },
            }
        } else if same(flag, "--leaf") {
            a.leaf = if same(&value, "syscall") {
                Leaf::HostSyscall
            } else {
                Leaf::Cheap
            };
        } else if same(flag, "--table") {
            a.table = value;
        } else if same(flag, "--grates") {
            match read_counts(&value) {
                Some(list) => {
                    a.grates = list;
                },
                None => {
                    return Parsed::BadValue(flag.clone());
                },
            }
        } else if same(flag, "--threads") {
            match read_counts(&value) {
                Some(list) => {
                    a.threads = list;
                },
                None => {
                    return Parsed::BadValue(flag.clone());
                },
            }
        } else if same(flag, "--only") {
            a.only = Some(value);
        } else if same(flag, "--csv") {
            a.csv = Some(value);
        } else if same(flag, "-h") || same(flag, "--help") {
            return Parsed::Help;
        } else {
            return Parsed::UnknownFlag(flag.clone());
        }
        assert(parsed_from(argv@, i + 2, a@) == parsed_from(argv@, 0, default_settings()));
        if i + 1 >= n {
            return Parsed::Run(a);
        }
        i = i + 2;
    }
    Parsed::Run(a)
}

/// The handler tables that can be chosen.
#[derive(Clone, Copy, PartialEq, Eq, Debug, Structural)]
pub enum TableKind {
    MutexNested,
    DashNested,
    Flat,
}

/// The table that a name stands for: any name but `dash` and `flat` stands for the
/// nested hash maps.
pub fn table_kind(name: &String) -> (kind: TableKind)
    ensures
        kind == (if name@ == "dash"@ {
            TableKind::DashNested
        } else if name@ == "flat"@ {
            TableKind::Flat
        } else {
            TableKind::MutexNested
        }),
{
    if same(name, "dash") {
        TableKind::DashNested
    } else if same(name, "flat") {
        TableKind::Flat
    } else {
        TableKind::MutexNested
    }
}

/// Whether the scenario `name` is run: where only some are, its name contains what
/// was asked for.
pub fn keep(only: &Option<String>, name: &str) -> (run: bool)
    ensures
        run == (match *only {
            Some(part) => exists|at: int| crate::text::stands_at(name@, part@, at),
            None => true,
        }),
{
    match only {
        Some(part) => contains(name, part.as_str()),
        None => true,
    }
}

/// What the runner can be asked for.
pub const HELP: &'static str = "threei-dispatch-bench

--trials N        trials per scenario (default 9)
--depth N         how many levels below the caller the target/arg cages sit (default 3)
--ncheck N        how many of the six arg cage ids the policy inspects (default 2)
--leaf cheap|syscall   what rawposix does at the bottom (default cheap)
--table mutex|dash|flat  handler-table backend for the full-path scenarios (default mutex)
--grates 1,2,3    grate stack depths to measure
--threads 1,2,4,8 thread counts for the contention scenario
--only SUBSTR     only run scenarios whose name contains SUBSTR
--csv PATH        also write results as CSV
";

/// The flags are different texts.
proof fn lemma_flags_differ()
    ensures
        "--trials"@ != "--depth"@,
        "--trials"@ != "--ncheck"@,
        "--trials"@ != "--leaf"@,
        "--trials"@ != "--table"@,
        "--trials"@ != "--grates"@,
        "--trials"@ != "--threads"@,
        "--trials"@ != "--only"@,
        "--trials"@ != "--csv"@,
        "--trials"@ != "-h"@,
        "--trials"@ != "--help"@,
        "--depth"@ != "--ncheck"@,
        "--depth"@ != "--leaf"@,
        "--depth"@ != "--table"@,
        "--depth"@ != "--grates"@,
        "--depth"@ != "--threads"@,
        "--depth"@ != "--only"@,
        "--depth"@ != "--csv"@,
        "--depth"@ != "-h"@,
        "--depth"@ != "--help"@,
        "--ncheck"@ != "--leaf"@,
        "--ncheck"@ != "--table"@,
        "--ncheck"@ != "--grates"@,
        "--ncheck"@ != "--threads"@,
        "--ncheck"@ != "--only"@,
        "--ncheck"@ != "--csv"@,
        "--ncheck"@ != "-h"@,
        "--ncheck"@ != "--help"@,
        "--leaf"@ != "--table"@,
        "--leaf"@ != "--grates"@,
        "--leaf"@ != "--threads"@,
        "--leaf"@ != "--only"@,
        "--leaf"@ != "--csv"@,
        "--leaf"@ != "-h"@,
        "--leaf"@ != "--help"@,
        "--table"@ != "--grates"@,
        "--table"@ != "--threads"@,
        "--table"@ != "--only"@,
        "--table"@ != "--csv"@,
        "--table"@ != "-h"@,
        "--table"@ != "--help"@,
        "--grates"@ != "--threads"@,
        "--grates"@ != "--only"@,
        "--grates"@ != "--csv"@,
        "--grates"@ != "-h"@,
        "--grates"@ != "--help"@,
        "--threads"@ != "--only"@,
        "--threads"@ != "--csv"@,
        "--threads"@ != "-h"@,
        "--threads"@ != "--help"@,
        "--only"@ != "--csv"@,
        "--only"@ != "-h"@,
        "--only"@ != "--help"@,
        "--csv"@ != "-h"@,
        "--csv"@ != "--help"@,
        "-h"@ != "--help"@,
{
    reveal_strlit("--trials");
    reveal_strlit("--depth");
    reveal_strlit("--ncheck");
    reveal_strlit("--leaf");
    reveal_strlit("--table");
    reveal_strlit("--grates");
    reveal_strlit("--threads");
    reveal_strlit("--only");
    reveal_strlit("--csv");
    reveal_strlit("-h");
    reveal_strlit("--help");
    assert("--trials"@.len() != "--depth"@.len());
    assert("--trials"@[2] != "--ncheck"@[2]);
    assert("--trials"@.len() != "--leaf"@.len());
    assert("--trials"@.len() != "--table"@.len());
    assert("--trials"@[2] != "--grates"@[2]);
    assert("--trials"@.len() != "--threads"@.len());
    assert("--trials"@.len() != "--only"@.len());
    assert("--trials"@.len() != "--csv"@.len());
    assert("--trials"@.len() != "-h"@.len());
    assert("--trials"@.len() != "--help"@.len());
    assert("--depth"@.len() != "--ncheck"@.len());
    assert("--depth"@.len() != "--leaf"@.len());
    assert("--depth"@[2] != "--table"@[2]);
    assert("--depth"@.len() != "--grates"@.len());
    assert("--depth"@.len() != "--threads"@.len());
    assert("--depth"@.len() != "--only"@.len());
    assert("--depth"@.len() != "--csv"@.len());
    assert("--depth"@.len() != "-h"@.len());
    assert("--depth"@.len() != "--help"@.len());
    assert("--ncheck"@.len() != "--leaf"@.len());
    assert("--ncheck"@.len() != "--table"@.len());
    assert("--ncheck"@[2] != "--grates"@[2]);
    assert("--ncheck"@.len() != "--threads"@.len());
    assert("--ncheck"@.len() != "--only"@.len());
    assert("--ncheck"@.len() != "--csv"@.len());
    assert("--ncheck"@.len() != "-h"@.len());
    assert("--ncheck"@.len() != "--help"@.len());
    assert("--leaf"@.len() != "--table"@.len());
    assert("--leaf"@.len() != "--grates"@.len());
    assert("--leaf"@.len() != "--threads"@.len());
    assert("--leaf"@[2] != "--only"@[2]);
    assert("--leaf"@.len() != "--csv"@.len());
    assert("--leaf"@.len() != "-h"@.len());
    assert("--leaf"@[2] != "--help"@[2]);
    assert("--table"@.len() != "--grates"@.len());
    assert("--table"@.len() != "--threads"@.len());
    assert("--table"@.len() != "--only"@.len());
    assert("--table"@.len() != "--csv"@.len());
    assert("--table"@.len() != "-h"@.len());
    assert("--table"@.len() != "--help"@.len());
    assert("--grates"@.len() != "--threads"@.len());
    assert("--grates"@.len() != "--only"@.len());
    assert("--grates"@.len() != "--csv"@.len());
    assert("--grates"@.len() != "-h"@.len());
    assert("--grates"@.len() != "--help"@.len());
    assert("--threads"@.len() != "--only"@.len());
    assert("--threads"@.len() != "--csv"@.len());
    assert("--threads"@.len() != "-h"@.len());
    assert("--threads"@.len() != "--help"@.len());
    assert("--only"@.len() != "--csv"@.len());
    assert("--only"@.len() != "-h"@.len());
    assert("--only"@[2] != "--help"@[2]);
    assert("--csv"@.len() != "-h"@.len());
    assert("--csv"@.len() != "--help"@.len());
    assert("-h"@.len() != "--help"@.len());
}

/// The settings when the command line is empty.
pub proof fn law_settings_without_flags()
    ensures
        parsed_from(Seq::empty(), 0, default_settings()) == Outcome::Run(default_settings()),
        default_settings().trials == 9,
        default_settings().depth == 3,
        default_settings().ncheck == 2,
        default_settings().leaf == Leaf::Cheap,
        default_settings().table == "mutex"@,
        default_settings().grates == seq![1usize, 2, 3],
        default_settings().threads == seq![1usize, 2, 4, 8],
        default_settings().only is None,
        default_settings().csv is None,
{
}

/// A flag that takes a number, followed by the decimal text of one, sets that number and
/// nothing else, and the rest of the command line is read behind the two.
pub proof fn law_number_flags_set_their_number(argv: Seq<String>, i: int, a: Settings, n: nat)
    requires
        0 <= i,
        i + 1 < argv.len(),
        argv[i + 1]@ == crate::text::decimal(n),
    ensures
        argv[i]@ == "--trials"@ && n <= usize::MAX ==> parsed_from(argv, i, a) == parsed_from(
            argv,
            i + 2,
            Settings { trials: n as usize, ..a },
        ),
        argv[i]@ == "--depth"@ && n <= u64::MAX ==> parsed_from(argv, i, a) == parsed_from(
            argv,
            i + 2,
            Settings { depth: n as u64, ..a },
        ),
        argv[i]@ == "--ncheck"@ && n <= usize::MAX ==> parsed_from(argv, i, a) == parsed_from(
            argv,
            i + 2,
            Settings { ncheck: n as usize, ..a },
        ),
{
    lemma_flags_differ();
    if n <= usize::MAX {
        crate::text::law_printed_numbers_are_read_back(n, usize::MAX as nat);
    }
    if n <= u64::MAX {
        crate::text::law_printed_numbers_are_read_back(n, u64::MAX as nat);
    }
}

/// A flag that takes a list, followed by numbers with commas between them, sets exactly
/// that list and nothing else, and the rest of the command line is read behind the two.
pub proof fn law_list_flags_set_their_list(
    argv: Seq<String>,
    i: int,
    a: Settings,
    list: Seq<usize>,
)
    requires
        0 <= i,
        i + 1 < argv.len(),
        list.len() > 0,
        argv[i + 1]@ == crate::text::joined(Seq::new(list.len(), |j: int| list[j] as nat)),
    ensures
        argv[i]@ == "--threads"@ ==> parsed_from(argv, i, a) == parsed_from(
            argv,
            i + 2,
            Settings { threads: list, ..a },
        ),
        argv[i]@ == "--grates"@ ==> parsed_from(argv, i, a) == parsed_from(
            argv,
            i + 2,
            Settings { grates: list, ..a },
        ),
{
    lemma_flags_differ();
    let numbers = Seq::new(list.len(), |j: int| list[j] as nat);
    crate::text::law_printed_lists_are_read_back(numbers, usize::MAX as nat);
    assert(counts(numbers) =~= list);
}

/// A command line of one list flag and a list: the list is set and every other setting is
/// the default. Both flags read one value to one list.
pub proof fn law_a_list_flag_alone(argv: Seq<String>, list: Seq<usize>)
    requires
        argv.len() == 2,
        list.len() > 0,
        argv[1]@ == crate::text::joined(Seq::new(list.len(), |j: int| list[j] as nat)),
    ensures
        argv[0]@ == "--threads"@ ==> parsed_from(argv, 0, default_settings()) == Outcome::Run(
            Settings {
                trials: 9,
                depth: 3,
                ncheck: 2,
                leaf: Leaf::Cheap,
                table: "mutex"@,
                grates: seq![1usize, 2, 3],
                threads: list,
                only: None,
                csv: None,
            },
        ),
        argv[0]@ == "--grates"@ ==> parsed_from(argv, 0, default_settings()) == Outcome::Run(
            Settings {
                trials: 9,
                depth: 3,
                ncheck: 2,
                leaf: Leaf::Cheap,
                table: "mutex"@,
                grates: list,
                threads: seq![1usize, 2, 4, 8],
                only: None,
                csv: None,
            },
        ),
{
    law_list_flags_set_their_list(argv, 0, default_settings(), list);
}

/// A flag that takes a text sets it to the word behind the flag, or to nothing at the end
/// of the command line; only the word `syscall` makes the leaf a host syscall.
pub proof fn law_text_flags_set_their_text(argv: Seq<String>, i: int, a: Settings, v: Seq<char>)
    requires
        0 <= i < argv.len(),
        i + 1 < argv.len() ==> v == argv[i + 1]@,
        i + 1 == argv.len() ==> v.len() == 0,
    ensures
        argv[i]@ == "--only"@ ==> parsed_from(argv, i, a) == parsed_from(
            argv,
            i + 2,
            Settings { only: Some(v), ..a },
        ),
        argv[i]@ == "--csv"@ ==> parsed_from(argv, i, a) == parsed_from(
            argv,
            i + 2,
            Settings { csv: Some(v), ..a },
        ),
        argv[i]@ == "--table"@ ==> parsed_from(argv, i, a) == parsed_from(
            argv,
            i + 2,
            Settings { table: v, ..a },
        ),
        argv[i]@ == "--leaf"@ && v == "syscall"@ ==> parsed_from(argv, i, a) == parsed_from(
            argv,
            i + 2,
            Settings { leaf: Leaf::HostSyscall, ..a },
        ),
        argv[i]@ == "--leaf"@ && v != "syscall"@ ==> parsed_from(argv, i, a) == parsed_from(
            argv,
            i + 2,
            Settings { leaf: Leaf::Cheap, ..a },
        ),
{
    lemma_flags_differ();
    assert(value_of(argv, i) =~= v);
}

/// A value that stands for no number, or no list of numbers, ends the command line at its
/// flag.
pub proof fn law_bad_values_end_the_command_line(
    argv: Seq<String>,
    i: int,
    a: Settings,
    v: Seq<char>,
)
    requires
        0 <= i < argv.len(),
        i + 1 < argv.len() ==> v == argv[i + 1]@,
        i + 1 == argv.len() ==> v.len() == 0,
    ensures
        (argv[i]@ == "--trials"@ || argv[i]@ == "--ncheck"@) && crate::text::number(
            v,
            usize::MAX as nat,
        ) is None ==> parsed_from(argv, i, a) == Outcome::BadValue(argv[i]@),
        argv[i]@ == "--depth"@ && crate::text::number(v, u64::MAX as nat) is None ==> parsed_from(
            argv,
            i,
            a,
        ) == Outcome::BadValue(argv[i]@),
        (argv[i]@ == "--grates"@ || argv[i]@ == "--threads"@) && crate::text::numbers(
            v,
            usize::MAX as nat,
        ) is None ==> parsed_from(argv, i, a) == Outcome::BadValue(argv[i]@),
        (argv[i]@ == "--trials"@ || argv[i]@ == "--depth"@ || argv[i]@ == "--ncheck"@) && (
        crate::text::number(v, usize::MAX as nat) is Some) ==> !(flag_effect(argv, i, a) is Err),
{
    lemma_flags_differ();
    assert(value_of(argv, i) =~= v);
    if crate::text::number(v, usize::MAX as nat) is Some {
        assert(crate::text::number(v, u64::MAX as nat) is Some);
    }
}

/// Two values that are read to the same number, or list, are the same to their flag: what
/// is set is what the value stands for.
pub proof fn law_values_are_what_they_stand_for(
    argv: Seq<String>,
    i: int,
    a: Settings,
    n: nat,
    list: Seq<nat>,
)
    requires
        0 <= i,
        i + 1 < argv.len(),
    ensures
        argv[i]@ == "--trials"@ && crate::text::number(argv[i + 1]@, usize::MAX as nat) == Some(n)
            ==> parsed_from(argv, i, a) == parsed_from(
            argv,
            i + 2,
            Settings { trials: n as usize, ..a },
        ),
        argv[i]@ == "--depth"@ && crate::text::number(argv[i + 1]@, u64::MAX as nat) == Some(n)
            ==> parsed_from(argv, i, a) == parsed_from(
            argv,
            i + 2,
            Settings { depth: n as u64, ..a },
        ),
        argv[i]@ == "--ncheck"@ && crate::text::number(argv[i + 1]@, usize::MAX as nat) == Some(n)
            ==> parsed_from(argv, i, a) == parsed_from(
            argv,
            i + 2,
            Settings { ncheck: n as usize, ..a },
        ),
        argv[i]@ == "--threads"@ && crate::text::numbers(argv[i + 1]@, usize::MAX as nat) == Some(
            list,
        ) ==> parsed_from(argv, i, a) == parsed_from(
            argv,
            i + 2,
            Settings { threads: Seq::new(list.len(), |j: int| list[j] as usize), ..a },
        ),
        argv[i]@ == "--grates"@ && crate::text::numbers(argv[i + 1]@, usize::MAX as nat) == Some(
            list,
        ) ==> parsed_from(argv, i, a) == parsed_from(
            argv,
            i + 2,
            Settings { grates: Seq::new(list.len(), |j: int| list[j] as usize), ..a },
        ),
{
    lemma_flags_differ();
    assert(counts(list) =~= Seq::new(list.len(), |j: int| list[j] as usize));
}

/// The command line ends with the settings at its end, with the help at a help flag, and
/// at a word that is no flag with that word, whatever follows.
pub proof fn law_how_command_lines_end(argv: Seq<String>, i: int, a: Settings)
    ensures
        i >= argv.len() ==> parsed_from(argv, i, a) == Outcome::Run(a),
        0 <= i < argv.len() && (argv[i]@ == "-h"@ || argv[i]@ == "--help"@) ==> parsed_from(
            argv,
            i,
            a,
        ) == Outcome::Help,
        0 <= i < argv.len() && argv[i]@ != "--trials"@ && argv[i]@ != "--depth"@ && argv[i]@
            != "--ncheck"@ && argv[i]@ != "--leaf"@ && argv[i]@ != "--table"@ && argv[i]@
            != "--grates"@ && argv[i]@ != "--threads"@ && argv[i]@ != "--only"@ && argv[i]@
            != "--csv"@ && argv[i]@ != "-h"@ && argv[i]@ != "--help"@ ==> parsed_from(argv, i, a)
            == Outcome::UnknownFlag(argv[i]@),
{
    lemma_flags_differ();
}

/// The arguments say what their fields hold, and an outcome says what it carries.
pub proof fn law_outcomes_say_what_they_hold(a: Args, flag: String)
    ensures
        a@.trials == a.trials,
        a@.depth == a.depth,
        a@.ncheck == a.ncheck,
        a@.leaf == a.leaf,
        a@.table == a.table@,
        a@.grates == a.grates@,
        a@.threads == a.threads@,
        a.only is None ==> a@.only is None,
        a.only matches Some(only) ==> a@.only == Some(only@),
        a.csv is None ==> a@.csv is None,
        a.csv matches Some(csv) ==> a@.csv == Some(csv@),
        Parsed::Run(a)@ == Outcome::Run(a@),
        Parsed::Help@ == Outcome::Help,
        Parsed::UnknownFlag(flag)@ == Outcome::UnknownFlag(flag@),
        Parsed::BadValue(flag)@ == Outcome::BadValue(flag@),
{
}

} // verus!

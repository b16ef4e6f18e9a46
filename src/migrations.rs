//! Schema migrations of the configuration store: which migration files are
//! still to run, in which order, and how each run is recorded.
//!
//! A migration file is named as the pattern `^(?P<number>\d{2})-(?P<name>\w+)\.sql$`
//! describes, matched by the `regex` crate: two digits, a dash, a name of word
//! characters, and the `.sql` suffix. Digits and word characters are Unicode
//! classes there; a number is read only from ASCII digits.

use vstd::prelude::*;

use crate::text::{cat, chars_of, string_of};

verus! {

/// Declares `regex::Regex`, which holds the compiled file-name pattern.
#[verifier::external_type_specification]
#[verifier::external_body]
pub struct ExRegex(regex::Regex);

/// What the migration file-name pattern captures in `s`: the `number` and
/// `name` groups, or `None` where `s` does not match.
pub uninterp spec fn migration_captures(s: Seq<char>) -> Option<(Seq<char>, Seq<char>)>;

/// The compiled migration file-name pattern.
pub struct MigrationPattern {
    re: regex::Regex,
}

/// Relies on `regex::Regex::new`: compiles a pattern, or fails.
#[verifier::external_body]
fn compile_pattern(pattern: &str) -> (r: Option<regex::Regex>) {
    regex::Regex::new(pattern).ok()
}

/// Relies on `regex::Regex::captures`: the `number` and `name` groups of the
/// match of the migration pattern in `s`. A `MigrationPattern` is only made by
/// `MigrationPattern::new`, from that pattern, whose two groups take part in
/// every match.
#[verifier::external_body]
fn capture_parts(p: &MigrationPattern, s: &str) -> (r: Option<(String, String)>)
    ensures
        match r {
            Some((n, m)) => migration_captures(s@) == Some((n@, m@)),
            None => migration_captures(s@) is None,
        },
{
    let c = p.re.captures(s)?;
    match (c.name("number"), c.name("name")) {
        (Some(n), Some(m)) => Some((n.as_str().to_string(), m.as_str().to_string())),
        _ => None,
    }
}

impl MigrationPattern {
    /// Compiles the migration file-name pattern.
    pub fn new() -> (r: Option<MigrationPattern>) {
        match compile_pattern(r"^(?P<number>\d{2})-(?P<name>\w+)\.sql$") {
            Some(re) => Some(MigrationPattern { re }),
            None => None,
        }
    }
}

/// The value of two ASCII digits.
pub open spec fn two_digits(t: Seq<char>) -> Option<int> {
    if t.len() == 2 && '0' <= t[0] && t[0] <= '9' && '0' <= t[1] && t[1] <= '9' {
        Some(((t[0] as int) - ('0' as int)) * 10 + ((t[1] as int) - ('0' as int)))
    } else {
        None
    }
}

/// The number and name of a migration file: where the pattern matches and
/// its number is two ASCII digits.
pub open spec fn migration_parts(s: Seq<char>) -> Option<(int, Seq<char>)> {
    match migration_captures(s) {
        Some((num, name)) => match two_digits(num) {
            Some(n) => Some((n, name)),
            None => None,
        },
        None => None,
    }
}

/// A migration to run: its number, its name, and where its file stands in
/// the list of file names.
#[derive(Debug, PartialEq, Eq)]
pub struct Migration {
    pub number: u8,
    pub name: String,
    pub file: usize,
}

/// The migrations numbered `n` among the first `k` files, in file order.
pub open spec fn picks(names: Seq<Seq<char>>, n: int, k: int) -> Seq<(int, Seq<char>, int)>
    decreases k,
{
    if k <= 0 || k > names.len() {
        seq![]
    } else {
        let before = picks(names, n, k - 1);
        match migration_parts(names[k - 1]) {
            Some((m, name)) => if m == n {
                before.push((m, name, k - 1))
            } else {
                before
            },
            None => before,
        }
    }
}

/// The migrations numbered below `n` and above `last`, by number, and files
/// with the same number in file order.
pub open spec fn plan_below(names: Seq<Seq<char>>, last: int, n: int) -> Seq<(int, Seq<char>, int)>
    decreases n,
{
    if n <= 0 {
        seq![]
    } else if n - 1 > last {
        plan_below(names, last, n - 1) + picks(names, n - 1, names.len() as int)
    } else {
        plan_below(names, last, n - 1)
    }
}

/// What a planned migration stands for.
pub open spec fn migration_view(m: Migration) -> (int, Seq<char>, int) {
    (m.number as int, m.name@, m.file as int)
}

/// The number and name of a migration file.
pub fn parse_migration_name(pattern: &MigrationPattern, s: &str) -> (r: Option<(u8, String)>)
    ensures
        match r {
            Some((n, name)) => migration_parts(s@) == Some((n as int, name@)),
            None => migration_parts(s@) is None,
        },
{
    let (num, name) = capture_parts(pattern, s)?;
    let ds = chars_of(num.as_str());
    if ds.len() != 2 || !('0' <= ds[0] && ds[0] <= '9') || !('0' <= ds[1] && ds[1] <= '9') {
        return None;
    }
    let d0 = (ds[0] as u32 - '0' as u32) as u8;
    let d1 = (ds[1] as u32 - '0' as u32) as u8;
    Some((d0 * 10 + d1, name))
}

/// The migrations still to run after `last_applied`, given the names of the
/// files there are: those whose name has the migration form and whose number
/// is above `last_applied`, by number, and files with the same number in
/// the order given.
pub fn plan_migrations(pattern: &MigrationPattern, names: &Vec<String>, last_applied: i64) -> (r: Vec<Migration>)
    ensures
        r@.map_values(|m: Migration| migration_view(m)) == plan_below(
            names@.map_values(|s: String| s@),
            last_applied as int,
            100,
        ),
{
    let ghost ns = names@.map_values(|s: String| s@);
    let mut parsed: Vec<Option<(u8, String)>> = Vec::new();
    let mut i: usize = 0;
    while i < names.len()
        invariant
            i <= names@.len(),
            ns == names@.map_values(|s: String| s@),
            parsed@.len() == i,
            forall|j: int|
                0 <= j < i ==> match #[trigger] parsed@[j] {
                    Some((n, name)) => migration_parts(ns[j]) == Some((n as int, name@)),
                    None => migration_parts(ns[j]) is None,
                },
        decreases names@.len() - i,
    {
        parsed.push(parse_migration_name(pattern, names[i].as_str()));
        i = i + 1;
    }
    let mut out: Vec<Migration> = Vec::new();
    let mut n: u8 = 0;
    while n < 100
        invariant
            n <= 100,
            ns == names@.map_values(|s: String| s@),
            parsed@.len() == ns.len(),
            forall|j: int|
                0 <= j < ns.len() ==> match #[trigger] parsed@[j] {
                    Some((m, name)) => migration_parts(ns[j]) == Some((m as int, name@)),
                    None => migration_parts(ns[j]) is None,
                },
            out@.map_values(|m: Migration| migration_view(m)) == plan_below(
                ns,
                last_applied as int,
                n as int,
            ),
        decreases 100 - n,
    {
        let ghost before = out@.map_values(|m: Migration| migration_view(m));
        if (n as i64) > last_applied {
            let mut k: usize = 0;
            while k < parsed.len()
                invariant
                    k <= parsed@.len(),
                    n < 100,
                    parsed@.len() == ns.len(),
                    forall|j: int|
                        0 <= j < ns.len() ==> match #[trigger] parsed@[j] {
                            Some((m, name)) => migration_parts(ns[j]) == Some((m as int, name@)),
                            None => migration_parts(ns[j]) is None,
                        },
                    out@.map_values(|m: Migration| migration_view(m)) == before + picks(
                        ns,
                        n as int,
                        k as int,
                    ),
                decreases parsed@.len() - k,
            {
                let ghost prev = out@;
                match &parsed[k] {
                    Some((m, name)) => {
                        if *m == n {
                            out.push(Migration { number: *m, name: name.clone(), file: k });
                            proof {
                                assert(out@.map_values(|m: Migration| migration_view(m)) =~= prev.map_values(
                                    |m: Migration| migration_view(m),
                                ).push((n as int, name@, k as int)));
                            }
                        }
                    },
                    None => {},
                }
                k = k + 1;
            }
        }
        n = n + 1;
    }
    out
}

/// `n` in decimal, for `n` below 100.
pub open spec fn decimal(n: int) -> Seq<char> {
    if n < 10 {
        seq![('0' as int + n) as char]
    } else {
        seq![('0' as int + n / 10) as char, ('0' as int + n % 10) as char]
    }
}

/// The statement that records a migration as run.
pub fn record_statement(number: u8, name: &str) -> (r: String)
    requires
        number < 100,
    ensures
        r@ == "INSERT INTO Migrations (num, operation, timestamp) VALUES ("@ + decimal(
            number as int,
        ) + ", '"@ + name@ + "', time::now());"@,
{
    let mut digits: Vec<char> = Vec::new();
    if number < 10 {
        digits.push(('0' as u8 + number) as char);
    } else {
        digits.push(('0' as u8 + number / 10) as char);
        digits.push(('0' as u8 + number % 10) as char);
    }
    proof {
        assert(digits@ =~= decimal(number as int));
    }
    let head = cat(
        "INSERT INTO Migrations (num, operation, timestamp) VALUES (",
        string_of(digits.as_slice()).as_str(),
    );
    let mid = cat(head.as_str(), ", '");
    let tail = cat(mid.as_str(), name);
    cat(tail.as_str(), "', time::now());")
}

} // verus!

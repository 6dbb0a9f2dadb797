//! Line searching: pick every line of a text that contains a query string,
//! either exactly or ignoring case.
//!
//! The split into lines and the substring test follow `str::lines` and
//! `str::contains`; case folding is `str::to_lowercase`, whose result is
//! named by the uninterpreted function [`lowercase_of`].

use vstd::prelude::*;

verus! {

/// `needle` occurs in `hay` starting at position `i`.
pub open spec fn occurs_at(hay: Seq<char>, needle: Seq<char>, i: int) -> bool {
    0 <= i && i + needle.len() <= hay.len() && hay.subrange(i, i + needle.len() as int) == needle
}

/// `needle` occurs somewhere in `hay` as a contiguous run of characters.
pub open spec fn contains_seq(hay: Seq<char>, needle: Seq<char>) -> bool {
    exists|i: int| occurs_at(hay, needle, i)
}

/// Drops a final carriage return, as line splitting does before a newline.
pub open spec fn chomp_cr(line: Seq<char>) -> Seq<char> {
    if line.len() > 0 && line.last() == '\r' {
        line.drop_last()
    } else {
        line
    }
}

/// Splits `s` into lines, `cur` being the partial line read so far: each
/// '\n' ends a line (a '\r' just before it is dropped), and a final
/// unterminated line is kept as it stands.
pub open spec fn lines_from(s: Seq<char>, cur: Seq<char>) -> Seq<Seq<char>>
    decreases s.len(),
{
    if s.len() == 0 {
        if cur.len() == 0 {
            Seq::empty()
        } else {
            seq![cur]
        }
    } else if s[0] == '\n' {
        seq![chomp_cr(cur)] + lines_from(s.subrange(1, s.len() as int), Seq::empty())
    } else {
        lines_from(s.subrange(1, s.len() as int), cur.push(s[0]))
    }
}

/// The lines of `s`, as `str::lines` yields them.
pub open spec fn split_lines(s: Seq<char>) -> Seq<Seq<char>> {
    lines_from(s, Seq::empty())
}

/// The lines among `ls` that contain `q`, in order.
pub open spec fn matching_lines(ls: Seq<Seq<char>>, q: Seq<char>) -> Seq<Seq<char>>
    decreases ls.len(),
{
    if ls.len() == 0 {
        Seq::empty()
    } else {
        matching_lines(ls.drop_last(), q) + if contains_seq(ls.last(), q) {
            seq![ls.last()]
        } else {
            Seq::empty()
        }
    }
}

/// The lines among `ls` whose lowercase form contains the lowercase form of
/// `q`, in order.
pub open spec fn matching_lines_ci(ls: Seq<Seq<char>>, q: Seq<char>) -> Seq<Seq<char>>
    decreases ls.len(),
{
    if ls.len() == 0 {
        Seq::empty()
    } else {
        matching_lines_ci(ls.drop_last(), q) + if contains_seq(
            lowercase_of(ls.last()),
            lowercase_of(q),
        ) {
            seq![ls.last()]
        } else {
            Seq::empty()
        }
    }
}

/// What `str::to_lowercase` returns for a given sequence of characters; the
/// result depends on the characters alone.
pub uninterp spec fn lowercase_of(s: Seq<char>) -> Seq<char>;

/// Relies on str::to_lowercase: the Unicode lowercase form of the string,
/// a function of the input characters alone.
#[verifier::external_body]
fn to_lowercase(s: &str) -> (r: String)
    ensures
        r@ == lowercase_of(s@),
{
    s.to_lowercase()
}

/// Relies on str::contains: true exactly when the pattern occurs as a
/// contiguous substring of the string.
#[verifier::external_body]
fn contains_pat(hay: &str, pat: &str) -> (r: bool)
    ensures
        r == contains_seq(hay@, pat@),
{
    hay.contains(pat)
}

/// Relies on str::lines: splits at each '\n', dropping a '\r' immediately
/// before it; a final line without a line ending is kept as it stands.
#[verifier::external_body]
fn lines_of<'a>(contents: &'a str) -> (r: Vec<&'a str>)
    ensures
        r@.map_values(|l: &str| l@) == split_lines(contents@),
{
    contents.lines().collect()
}

/// The search configuration: what to look for and where.
pub struct Config {
    pub query: String,
    pub filename: String,
}

impl Config {
    /// Reads the query and the file name from an argument list whose first
    /// entry is the program name. Fails exactly when fewer than three
    /// entries are present.
    pub fn new(args: &[String]) -> (r: Result<Config, &str>)
        ensures
            args@.len() < 3 ==> (r matches Err(e) && e@ == "not enough arguments"@),
            args@.len() >= 3 ==> (r matches Ok(c) && c.query@ == args@[1]@ && c.filename@
                == args@[2]@),
    {
        if args.len() < 3 {
            return Err("not enough arguments");
        }
        let query = args[1].clone();
        let filename = args[2].clone();
        Ok(Config { query, filename })
    }
}

/// The lines of `contents` that contain `query`, in order of appearance.
pub fn search<'a>(query: &str, contents: &'a str) -> (r: Vec<&'a str>)
    ensures
        r@.map_values(|l: &str| l@) == matching_lines(split_lines(contents@), query@),
{
    let lines = lines_of(contents);
    let mut results: Vec<&'a str> = Vec::new();
    let mut i: usize = 0;
    while i < lines.len()
        invariant
            i <= lines.len(),
            lines@.map_values(|l: &str| l@) == split_lines(contents@),
            results@.map_values(|l: &str| l@) == matching_lines(
                split_lines(contents@).subrange(0, i as int),
                query@,
            ),
        decreases lines.len() - i,
    {
        let line = lines[i];
        let ghost rv0 = results@.map_values(|l: &str| l@);
        if contains_pat(line, query) {
            results.push(line);
            proof {
                assert(results@.map_values(|l: &str| l@) =~= rv0.push(line@));
            }
        }
        proof {
            let ls = split_lines(contents@);
            assert(line@ == ls[i as int]);
            assert(ls.subrange(0, i as int + 1).drop_last() =~= ls.subrange(0, i as int));
            assert(ls.subrange(0, i as int + 1).last() == ls[i as int]);
        }
        i += 1;
    }
    proof {
        let ls = split_lines(contents@);
        assert(ls.subrange(0, ls.len() as int) =~= ls);
    }
    results
}

/// The lines of `contents` that contain `query` up to case, in order of
/// appearance; both sides are compared in their lowercase forms.
pub fn search_case_insensitive<'a>(query: &str, contents: &'a str) -> (r: Vec<&'a str>)
    ensures
        r@.map_values(|l: &str| l@) == matching_lines_ci(split_lines(contents@), query@),
{
    let query_lower = to_lowercase(query);
    let lines = lines_of(contents);
    let mut results: Vec<&'a str> = Vec::new();
    let mut i: usize = 0;
    while i < lines.len()
        invariant
            i <= lines.len(),
            query_lower@ == lowercase_of(query@),
            lines@.map_values(|l: &str| l@) == split_lines(contents@),
            results@.map_values(|l: &str| l@) == matching_lines_ci(
                split_lines(contents@).subrange(0, i as int),
                query@,
            ),
        decreases lines.len() - i,
    {
        let line = lines[i];
        let line_lower = to_lowercase(line);
        let ghost rv0 = results@.map_values(|l: &str| l@);
        if contains_pat(line_lower.as_str(), query_lower.as_str()) {
            results.push(line);
            proof {
                assert(results@.map_values(|l: &str| l@) =~= rv0.push(line@));
            }
        }
        proof {
            let ls = split_lines(contents@);
            assert(line@ == ls[i as int]);
            assert(ls.subrange(0, i as int + 1).drop_last() =~= ls.subrange(0, i as int));
            assert(ls.subrange(0, i as int + 1).last() == ls[i as int]);
        }
        i += 1;
    }
    proof {
        let ls = split_lines(contents@);
        assert(ls.subrange(0, ls.len() as int) =~= ls);
    }
    results
}

} // verus!

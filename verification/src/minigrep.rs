//! Searching a text for the lines that hold a query.

use vstd::prelude::*;
use vstd::string::*;
use crate::text::{contains, contains_str, lines_of, split_lines, texts_of};

verus! {

/// What a search is asked for: the query, the file to search, and whether
/// the case of letters matters.
#[derive(Debug)]
pub struct Config {
    pub query: String,
    pub filename: String,
    pub case_sensitive: bool,
}

/// The error of a command line that names no query.
pub open spec fn no_query() -> Seq<char> {
    "Did not get a query string"@
}

/// The error of a command line that names no file.
pub open spec fn no_filename() -> Seq<char> {
    "Did not get a filename"@
}

impl Config {
    /// Reads a configuration from the arguments of a command line, the
    /// program's own name first. The query and the file's name follow it.
    /// The search minds the case of letters unless a further argument is
    /// given or the environment asks otherwise; `env_unset` says that the
    /// environment does not.
    pub fn new(args: Vec<String>, env_unset: bool) -> (parsed: Result<Config, &'static str>)
        ensures
            match parsed {
                Ok(config) => {
                    &&& args@.len() >= 3
                    &&& config.query@ == args@[1]@
                    &&& config.filename@ == args@[2]@
                    &&& config.case_sensitive == (args@.len() == 3 && env_unset)
                },
                Err(message) => {
                    &&& args@.len() < 3
                    &&& message@ == if args@.len() < 2 {
                        no_query()
                    } else {
                        no_filename()
                    }
                },
            },
    {
        if args.len() < 2 {
            return Err("Did not get a query string");
        }
        let query = args[1].clone();
        if args.len() < 3 {
            return Err("Did not get a filename");
        }
        let filename = args[2].clone();
        let case_sensitive_flag = !(args.len() > 3);
        let mut case_sensitive = env_unset;
        if !case_sensitive_flag {
            case_sensitive = false
        };
        Ok(Config { query, filename, case_sensitive })
    }
}

/// What `str::to_lowercase` makes of a text.
pub uninterp spec fn lowercase(text: Seq<char>) -> Seq<char>;

/// Calls `str::to_lowercase` of the standard library.
///
/// Trusted: the result is a function of the text alone (the lowercase
/// mapping of Unicode, which asks for no locale).
#[verifier::external_body]
pub(crate) fn to_lowercase(text: &str) -> (lower: String)
    ensures
        lower@ == lowercase(text@),
{
    text.to_lowercase()
}

/// `line` holds `query`.
pub open spec fn hit(query: Seq<char>) -> spec_fn(Seq<char>) -> bool {
    |line: Seq<char>| contains(line, query)
}

/// `line` holds `query` when both are put in lower case.
pub open spec fn hit_in_lowercase(query: Seq<char>) -> spec_fn(Seq<char>) -> bool {
    |line: Seq<char>| contains(lowercase(line), lowercase(query))
}

/// Decides whether `line` holds `query` when both are put in lower case.
/// `lowered_query` is the query in lower case already.
pub fn holds_lowered(line: &str, lowered_query: &str) -> (found: bool)
    ensures
        found == contains(lowercase(line@), lowered_query@),
{
    let lowered = to_lowercase(line);
    contains_str(lowered.as_str(), lowered_query)
}

/// The lines of `contents` that hold `query`, in their order.
pub fn search<'a>(query: &str, contents: &'a str) -> (found: Vec<&'a str>)
    ensures
        texts_of(found@) == lines_of(contents@).filter(hit(query@)),
{
    let lines = split_lines(contents);
    let mut found: Vec<&'a str> = Vec::new();
    let ghost all = lines_of(contents@);
    let mut i: usize = 0;
    proof {
        reveal(Seq::filter);
        assert(all.take(0) =~= Seq::empty());
        assert(texts_of(found@) =~= Seq::empty());
    }
    while i < lines.len()
        invariant
            i <= lines@.len(),
            all == texts_of(lines@),
            texts_of(found@) == all.take(i as int).filter(hit(query@)),
        decreases lines@.len() - i,
    {
        let line = lines[i];
        proof {
            reveal(Seq::filter);
            assert(all.take(i + 1).drop_last() =~= all.take(i as int));
            assert(all.take(i + 1).last() == line@);
        }
        if contains_str(line, query) {
            assert(texts_of(found@.push(line)) =~= texts_of(found@).push(line@));
            found.push(line);
        }
        i = i + 1;
    }
    assert(all.take(i as int) =~= all);
    found
}

/// The lines of `contents` that hold `query` when the case of letters is
/// set aside, in their order.
pub fn search_case_insensitive<'a>(query: &str, contents: &'a str) -> (found: Vec<&'a str>)
    ensures
        texts_of(found@) == lines_of(contents@).filter(hit_in_lowercase(query@)),
{
    let lowered = to_lowercase(query);
    let lines = split_lines(contents);
    let mut found: Vec<&'a str> = Vec::new();
    let ghost all = lines_of(contents@);
    let ghost wanted = hit_in_lowercase(query@);
    let mut i: usize = 0;
    proof {
        reveal(Seq::filter);
        assert(all.take(0) =~= Seq::empty());
        assert(texts_of(found@) =~= Seq::empty());
    }
    while i < lines.len()
        invariant
            i <= lines@.len(),
            all == texts_of(lines@),
            forall|line: Seq<char>| #[trigger] wanted(line) == contains(lowercase(line), lowered@),
            texts_of(found@) == all.take(i as int).filter(wanted),
        decreases lines@.len() - i,
    {
        let line = lines[i];
        proof {
            reveal(Seq::filter);
            assert(all.take(i + 1).drop_last() =~= all.take(i as int));
            assert(all.take(i + 1).last() == line@);
        }
        if holds_lowered(line, lowered.as_str()) {
            assert(wanted(line@));
            assert(texts_of(found@.push(line)) =~= texts_of(found@).push(line@));
            found.push(line);
        } else {
            assert(!wanted(line@));
        }
        i = i + 1;
    }
    assert(all.take(i as int) =~= all);
    found
}

/// The search that `config` asks for, on `contents`.
pub fn select<'a>(config: &Config, contents: &'a str) -> (found: Vec<&'a str>)
    ensures
        texts_of(found@) == lines_of(contents@).filter(
            if config.case_sensitive {
                hit(config.query@)
            } else {
                hit_in_lowercase(config.query@)
            },
        ),
{
    if config.case_sensitive {
        search(config.query.as_str(), contents)
    } else {
        search_case_insensitive(config.query.as_str(), contents)
    }
}

/// `lines` one after the other, each followed by a line feed.
pub open spec fn terminated(lines: Seq<Seq<char>>) -> Seq<char>
    decreases lines.len(),
{
    if lines.len() == 0 {
        Seq::empty()
    } else {
        terminated(lines.drop_last()) + lines.last() + seq!['\n']
    }
}

/// The lines of `content` that hold `pattern`, each followed by a line
/// feed: what a line-by-line search prints.
pub fn matching_text(content: &str, pattern: &str) -> (text: String)
    ensures
        text@ == terminated(lines_of(content@).filter(hit(pattern@))),
{
    let found = search(pattern, content);
    let mut text = String::new();
    let mut i: usize = 0;
    proof {
        reveal_strlit("\n");
        assert(texts_of(found@).take(0) =~= Seq::empty());
    }
    while i < found.len()
        invariant
            i <= found@.len(),
            "\n"@ == seq!['\n'],
            text@ == terminated(texts_of(found@).take(i as int)),
        decreases found@.len() - i,
    {
        proof {
            let done = texts_of(found@).take(i + 1);
            assert(done.drop_last() =~= texts_of(found@).take(i as int));
            assert(done.last() == found@[i as int]@);
        }
        text.append(found[i]);
        text.append("\n");
        i = i + 1;
    }
    assert(texts_of(found@).take(i as int) =~= texts_of(found@));
    text
}

} // verus!

//! Searching the lines of a text for a query.

use vstd::prelude::*;
use vstd::string::StrSliceExecFns;

verus! {

/// What to search for, in which file, and whether case matters.
pub struct Config {
    pub query: String,
    pub filename: String,
    pub case_sensitive: bool,
}

/// `needle` occurs in `hay` at `at`.
pub open spec fn occurs_at(hay: Seq<char>, needle: Seq<char>, at: int) -> bool {
    0 <= at && at + needle.len() <= hay.len() && hay.subrange(at, at + needle.len()) == needle
}

/// `needle` occurs somewhere in `hay`. The empty text occurs in every text.
pub open spec fn occurs(hay: Seq<char>, needle: Seq<char>) -> bool {
    exists|at: int| occurs_at(hay, needle, at)
}

/// The place of the first line feed of `text` at or after `from`, or the
/// length of `text` where there is none.
pub open spec fn line_end(text: Seq<char>, from: int) -> int
    decreases text.len() - from,
{
    if from < 0 || from >= text.len() {
        text.len() as int
    } else if text[from] == '\n' {
        from
    } else {
        line_end(text, from + 1)
    }
}

/// The line of `text` that starts at `from` and ends before `end`, without
/// its ending: `end` is the place of a line feed or the end of the text, and
/// a carriage return just before a line feed belongs to the ending.
pub open spec fn line_at(text: Seq<char>, from: int, end: int) -> Seq<char> {
    if end < text.len() && from < end && text[end - 1] == '\r' {
        text.subrange(from, end - 1)
    } else {
        text.subrange(from, end)
    }
}

/// The lines of `text` from `from` on.
pub open spec fn lines_from(text: Seq<char>, from: int) -> Seq<Seq<char>>
    decreases text.len() - from,
{
    if from < 0 || from >= text.len() {
        Seq::empty()
    } else if line_end(text, from) >= text.len() {
        seq![line_at(text, from, line_end(text, from))]
    } else {
        proof {
            lemma_line_end(text, from);
        }
        seq![line_at(text, from, line_end(text, from))] + lines_from(
            text,
            line_end(text, from) + 1,
        )
    }
}

/// The lines of `text`. A line ends with a line feed, or with a carriage
/// return and a line feed, neither of which belongs to the line; the last
/// line may end with the text instead, and then keeps a carriage return at
/// its end. A text that ends with a line ending has no empty line after it.
pub open spec fn lines_of(text: Seq<char>) -> Seq<Seq<char>> {
    lines_from(text, 0)
}

/// The end of a line lies at or after its start, within the text, on a line
/// feed unless it is the end of the text, and no line feed lies before it.
pub proof fn lemma_line_end(text: Seq<char>, from: int)
    requires
        0 <= from <= text.len(),
    ensures
        from <= line_end(text, from) <= text.len(),
        line_end(text, from) < text.len() ==> text[line_end(text, from)] == '\n',
        forall|i: int| from <= i < line_end(text, from) ==> text[i] != '\n',
    decreases text.len() - from,
{
    if from < text.len() && text[from] != '\n' {
        lemma_line_end(text, from + 1);
    }
}

/// What each of the lines holds.
pub open spec fn texts(lines: Seq<&str>) -> Seq<Seq<char>> {
    lines.map_values(|l: &str| l@)
}

/// The test that a line passes if it contains `query`, as both stand or,
/// with `any_case`, when both are taken in lowercase.
pub open spec fn accepts(any_case: bool, query: Seq<char>) -> spec_fn(Seq<char>) -> bool {
    |line: Seq<char>|
        if any_case {
            occurs(lowercase_of(line), lowercase_of(query))
        } else {
            occurs(line, query)
        }
}

/// The lines of `contents` that contain `query`, in their order.
pub open spec fn matching(query: Seq<char>, contents: Seq<char>) -> Seq<Seq<char>> {
    lines_of(contents).filter(accepts(false, query))
}

/// Calls `str::to_lowercase` of std: the lowercase equivalent of `s`, by the
/// rules of Unicode.
pub uninterp spec fn lowercase_of(s: Seq<char>) -> Seq<char>;

/// `str::to_lowercase` of std, whose result is named `lowercase_of`.
#[verifier::external_body]
fn lowercase(s: &str) -> (r: String)
    ensures
        r@ == lowercase_of(s@),
{
    s.to_lowercase()
}

/// The lines of `contents` whose lowercase form contains the lowercase form
/// of `query`, in their order.
pub open spec fn matching_any_case(query: Seq<char>, contents: Seq<char>) -> Seq<Seq<char>> {
    lines_of(contents).filter(accepts(true, query))
}

fn chars_of(s: &str) -> (v: Vec<char>)
    ensures
        v@ == s@,
{
    let mut v: Vec<char> = Vec::new();
    for c in it: s.chars()
        invariant
            v@ == it.seq().take(it.index() as int),
            it.seq() == s@,
    {
        v.push(c);
    }
    v
}

/// Whether `needle` occurs in `hay` at `at`.
fn found_at(hay: &Vec<char>, needle: &Vec<char>, at: usize) -> (r: bool)
    requires
        at + needle.len() <= hay.len(),
    ensures
        r == occurs_at(hay@, needle@, at as int),
{
    let mut k: usize = 0;
    while k < needle.len()
        invariant
            0 <= k <= needle.len(),
            at + needle.len() <= hay.len(),
            forall|j: int| 0 <= j < k ==> hay[at + j] == needle[j],
        decreases needle.len() - k,
    {
        if hay[at + k] != needle[k] {
            assert(hay@.subrange(at as int, at + needle.len())[k as int] != needle@[k as int]);
            return false;
        }
        k += 1;
    }
    assert(hay@.subrange(at as int, at + needle.len()) =~= needle@);
    true
}

/// Whether `needle` occurs in `hay`, both given by their characters.
fn contains_chars(hay: &Vec<char>, needle: &Vec<char>) -> (r: bool)
    ensures
        r == occurs(hay@, needle@),
{
    if needle.len() > hay.len() {
        assert forall|at: int| !occurs_at(hay@, needle@, at) by {}
        return false;
    }
    let last: usize = hay.len() - needle.len();
    let mut at: usize = 0;
    while at < last
        invariant
            0 <= at <= last,
            last == hay.len() - needle.len(),
            forall|j: int| 0 <= j < at ==> !occurs_at(hay@, needle@, j),
        decreases last - at,
    {
        if found_at(hay, needle, at) {
            return true;
        }
        at += 1;
    }
    let r: bool = found_at(hay, needle, last);
    if !r {
        assert forall|j: int| !occurs_at(hay@, needle@, j) by {}
    }
    r
}

/// Whether `needle` occurs in `hay`, character for character.
pub fn contains(hay: &str, needle: &str) -> (r: bool)
    ensures
        r == occurs(hay@, needle@),
{
    contains_chars(&chars_of(hay), &chars_of(needle))
}

fn select<'a>(query: &str, contents: &'a str, any_case: bool) -> (found: Vec<&'a str>)
    ensures
        texts(found@) == lines_of(contents@).filter(accepts(any_case, query@)),
{
    let text: Vec<char> = chars_of(contents);
    let needle: Vec<char> = if any_case {
        chars_of(lowercase(query).as_str())
    } else {
        chars_of(query)
    };
    let ghost wanted = accepts(any_case, query@);
    let ghost mut seen: Seq<Seq<char>> = Seq::empty();
    let mut found: Vec<&'a str> = Vec::new();
    let mut from: usize = 0;
    assert(texts(found@) =~= seen.filter(wanted));
    while from < text.len()
        invariant
            0 <= from <= text.len(),
            text@ == contents@,
            needle@ == if any_case {
                lowercase_of(query@)
            } else {
                query@
            },
            wanted == accepts(any_case, query@),
            lines_of(contents@) == seen + lines_from(contents@, from as int),
            texts(found@) == seen.filter(wanted),
        decreases text.len() - from,
    {
        let mut end: usize = from;
        while end < text.len() && text[end] != '\n'
            invariant
                from <= end <= text.len(),
                line_end(text@, end as int) == line_end(text@, from as int),
            decreases text.len() - end,
        {
            end += 1;
        }
        proof {
            lemma_line_end(text@, from as int);
        }
        let stop: usize = if end < text.len() && from < end && text[end - 1] == '\r' {
            end - 1
        } else {
            end
        };
        let line: &'a str = contents.substring_char(from, stop);
        assert(line@ == line_at(text@, from as int, end as int));
        let hit: bool = if any_case {
            contains_chars(&chars_of(lowercase(line).as_str()), &needle)
        } else {
            contains_chars(&chars_of(line), &needle)
        };
        assert(hit == wanted(line@));
        proof {
            let next = seen.push(line@);
            assert(next.drop_last() =~= seen);
            assert(next.filter(wanted) =~= if hit {
                seen.filter(wanted).push(line@)
            } else {
                seen.filter(wanted)
            }) by {
                reveal(Seq::filter);
            }
            let after: int = if end < text.len() {
                end + 1
            } else {
                end as int
            };
            assert(seen + lines_from(contents@, from as int) =~= next + lines_from(
                contents@,
                after,
            ));
            seen = next;
        }
        if hit {
            found.push(line);
            assert(texts(found@) =~= seen.filter(wanted));
        }
        from = if end < text.len() {
            end + 1
        } else {
            end
        };
    }
    assert(lines_from(contents@, from as int) =~= Seq::empty());
    assert(seen + Seq::<Seq<char>>::empty() =~= seen);
    found
}

impl Config {
    /// Reads a configuration from the arguments of a program, of which the
    /// first is the program's own name: the query, the name of the file, and
    /// optionally a word that makes the search case sensitive if it contains
    /// `true`. Without that word, `env_unset` decides: whether the
    /// environment leaves `CASE_INSENSITIVE` unset.
    pub fn new(args: Vec<String>, env_unset: bool) -> (r: Result<Config, &'static str>)
        ensures
            match r {
                Ok(config) => {
                    &&& args.len() >= 3
                    &&& config.query@ == args[1]@
                    &&& config.filename@ == args[2]@
                    &&& config.case_sensitive == if args.len() >= 4 {
                        occurs(args[3]@, "true"@)
                    } else {
                        env_unset
                    }
                },
                Err(msg) => if args.len() < 2 {
                    msg@ == "No Query String"@
                } else {
                    args.len() == 2 && msg@ == "No Source File"@
                },
            },
    {
        if args.len() < 2 {
            return Err("No Query String");
        }
        let query = args[1].clone();
        if args.len() < 3 {
            return Err("No Source File");
        }
        let filename = args[2].clone();
        let case_sensitive = if args.len() >= 4 {
            contains(args[3].as_str(), "true")
        } else {
            env_unset
        };
        Ok(Config { query, filename, case_sensitive })
    }
}

/// The lines of `contents` that the configured search finds: those that
/// contain the query, with or without regard to case.
pub fn run<'a>(config: &Config, contents: &'a str) -> (found: Vec<&'a str>)
    ensures
        texts(found@) == if config.case_sensitive {
            matching(config.query@, contents@)
        } else {
            matching_any_case(config.query@, contents@)
        },
{
    if config.case_sensitive {
        search(config.query.as_str(), contents)
    } else {
        search_case_insensitive(config.query.as_str(), contents)
    }
}

/// The lines of `contents` that contain `query`, as they stand in
/// `contents`.
pub fn search<'a>(query: &str, contents: &'a str) -> (found: Vec<&'a str>)
    ensures
        texts(found@) == matching(query@, contents@),
{
    select(query, contents, false)
}

/// The lines of `contents` that contain `query` when case is left out of
/// account: both are compared in lowercase.
pub fn search_case_insensitive<'a>(query: &str, contents: &'a str) -> (found: Vec<&'a str>)
    ensures
        texts(found@) == matching_any_case(query@, contents@),
{
    select(query, contents, true)
}

} // verus!

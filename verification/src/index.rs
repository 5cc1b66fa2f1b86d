//! Builds a name-to-path index of the libraries the system knows, from the
//! textual output of the dynamic-linker cache lister.
//!
//! The grammar is line oriented: a directive line reads
//! `<name> (<tag info>) => <absolute path>`. Only the `=>` separator and the
//! position of the name before the first whitespace matter; lines lacking the
//! separator (headers, blanks, malformed rows) contribute nothing.

use vstd::prelude::*;
use crate::strutil::{
    find_char, find_char_from, skip_spaces, skip_spaces_from, str_eq, token_end, token_end_from,
    trim, trim_spec,
};
use vstd::slice::slice_index_get;

verus! {

/// One row of the lister's output: a library name and its absolute path.
#[derive(Debug)]
pub struct Systemlib {
    pub filename: String,
    pub abspath: String,
}

/// The mathematical content of one entry: its name and its path.
pub open spec fn syslib_view(l: Systemlib) -> (Seq<char>, Seq<char>) {
    (l.filename@, l.abspath@)
}

/// The mathematical content of an entry list, in order.
pub open spec fn syslibs_view(s: Seq<Systemlib>) -> Seq<(Seq<char>, Seq<char>)> {
    s.map_values(|l: Systemlib| syslib_view(l))
}

/// Index of the first `=>` at or after `i`, if any.
pub open spec fn find_sep_from(s: Seq<char>, i: int) -> Option<int>
    decreases s.len() - i,
{
    if i < 0 || i + 2 > s.len() {
        None
    } else if s[i] == '=' && s[i + 1] == '>' {
        Some(i)
    } else {
        find_sep_from(s, i + 1)
    }
}

/// What one line contributes: where it holds a `=>`, the line's first
/// whitespace-delimited token as the name and the trimmed text after the
/// first separator as the path; nothing otherwise.
pub open spec fn parse_line_spec(s: Seq<char>) -> Option<(Seq<char>, Seq<char>)> {
    match find_sep_from(s, 0) {
        None => None,
        Some(sep) => {
            let b = skip_spaces_from(s, 0);
            let t = token_end_from(s, b);
            Some((s.subrange(b, t), trim_spec(s.subrange(sep + 2, s.len() as int))))
        },
    }
}

/// A parsed line as a singleton entry list, a skipped one as the empty list.
pub open spec fn line_contrib(o: Option<(Seq<char>, Seq<char>)>) -> Seq<(Seq<char>, Seq<char>)> {
    match o {
        None => Seq::empty(),
        Some(e) => seq![e],
    }
}

pub proof fn lemma_find_char_bounds(s: Seq<char>, i: int, c: char)
    requires
        0 <= i,
    ensures
        find_char_from(s, i, c) is Some ==> i <= find_char_from(s, i, c).unwrap() < s.len(),
    decreases s.len() - i,
{
    if i < s.len() && s[i] != c {
        lemma_find_char_bounds(s, i + 1, c);
    }
}

/// The entries contributed by the lines of `s` from index `i` on, in order.
/// Lines are separated by newlines; a trailing newline opens no final line.
pub open spec fn parse_output_from(s: Seq<char>, i: int) -> Seq<(Seq<char>, Seq<char>)>
    decreases s.len() - i,
    via parse_output_from_decreases
{
    if i < 0 || i >= s.len() {
        Seq::empty()
    } else {
        match find_char_from(s, i, '\n') {
            None => line_contrib(parse_line_spec(s.subrange(i, s.len() as int))),
            Some(j) => line_contrib(parse_line_spec(s.subrange(i, j))) + parse_output_from(
                s,
                j + 1,
            ),
        }
    }
}

#[via_fn]
proof fn parse_output_from_decreases(s: Seq<char>, i: int) {
    if 0 <= i < s.len() {
        lemma_find_char_bounds(s, i, '\n');
    }
}

/// The full entry list of a lister output, in parse order.
pub open spec fn parse_output_spec(s: Seq<char>) -> Seq<(Seq<char>, Seq<char>)> {
    parse_output_from(s, 0)
}

/// Index of the first `=>` in the line, if any.
fn find_sep(line: &str) -> (r: Option<usize>)
    ensures
        match r {
            Some(j) => j + 2 <= line@.len() && find_sep_from(line@, 0) == Some(j as int),
            None => find_sep_from(line@, 0) is None,
        },
{
    let len = line.unicode_len();
    let mut i: usize = 0;
    while i < len && i + 1 < len
        invariant
            i <= len,
            len == line@.len(),
            find_sep_from(line@, 0) == find_sep_from(line@, i as int),
        decreases len - i,
    {
        if line.get_char(i) == '=' && line.get_char(i + 1) == '>' {
            return Some(i);
        }
        i += 1;
    }
    None
}

/// Parses one line of lister output: its first whitespace-delimited token as
/// the library name and the trimmed text after the first `=>` as the path.
/// A line with no `=>` is skipped.
pub fn parse_cache_line(line: &str) -> (r: Option<Systemlib>)
    ensures
        match r {
            Some(l) => parse_line_spec(line@) == Some(syslib_view(l)),
            None => parse_line_spec(line@) is None,
        },
{
    match find_sep(line) {
        None => None,
        Some(sep) => {
            let len = line.unicode_len();
            let b = skip_spaces(line, 0);
            let t = token_end(line, b);
            let name = line.substring_char(b, t);
            let rest = line.substring_char(sep + 2, len);
            let path = trim(rest);
            Some(
                Systemlib {
                    filename: String::from_str(name),
                    abspath: String::from_str(path),
                },
            )
        },
    }
}

/// Parses the lister's full output line by line, keeping the entries in
/// parse order. A line lacking the separator contributes nothing, which is
/// how the header line is skipped.
pub fn parse_cache_output(out: &str) -> (r: Vec<Systemlib>)
    ensures
        syslibs_view(r@) == parse_output_spec(out@),
{
    let len = out.unicode_len();
    let mut libs: Vec<Systemlib> = Vec::new();
    let mut i: usize = 0;
    while i < len
        invariant
            i <= len,
            len == out@.len(),
            syslibs_view(libs@) + parse_output_from(out@, i as int) == parse_output_spec(out@),
        decreases len - i,
    {
        let line_end: usize;
        let next: usize;
        match find_char(out, i, '\n') {
            Some(j) => {
                line_end = j;
                next = j + 1;
            },
            None => {
                line_end = len;
                next = len;
            },
        }
        let line = out.substring_char(i, line_end);
        let ghost before = libs@;
        match parse_cache_line(line) {
            Some(lib) => {
                let ghost v = syslib_view(lib);
                libs.push(lib);
                proof {
                    assert(syslibs_view(libs@) =~= syslibs_view(before).push(v));
                }
            },
            None => {},
        }
        proof {
            if line_end < len {
                assert(line@ =~= out@.subrange(i as int, line_end as int));
            } else {
                assert(line@ =~= out@.subrange(i as int, out@.len() as int));
                assert(parse_output_from(out@, next as int) =~= Seq::<(Seq<char>, Seq<char>)>::empty());
            }
            assert(parse_output_from(out@, i as int) =~= line_contrib(parse_line_spec(line@))
                + parse_output_from(out@, next as int));
            assert(syslibs_view(libs@) + parse_output_from(out@, next as int)
                =~= (syslibs_view(before) + parse_output_from(out@, i as int)));
        }
        i = next;
    }
    proof {
        assert(syslibs_view(libs@) =~= syslibs_view(libs@) + parse_output_from(out@, i as int));
    }
    libs
}

/// The path the index associates with a name: that of the last parsed entry
/// carrying the name, where the same name was listed more than once.
pub open spec fn lookup_spec(entries: Seq<(Seq<char>, Seq<char>)>, name: Seq<char>) -> Option<
    Seq<char>,
>
    decreases entries.len(),
{
    if entries.len() == 0 {
        None
    } else if entries.last().0 == name {
        Some(entries.last().1)
    } else {
        lookup_spec(entries.drop_last(), name)
    }
}

/// The mathematical content of an optional path.
pub open spec fn opt_string_view(o: Option<String>) -> Option<Seq<char>> {
    match o {
        Some(s) => Some(s@),
        None => None,
    }
}

/// Looks one dependency name up among the parsed entries. Where the same
/// name was listed more than once, the last parsed entry wins.
pub fn find_system_lib(system_libs: &[Systemlib], filename: &str) -> (r: Option<String>)
    ensures
        opt_string_view(r) == lookup_spec(syslibs_view(system_libs@), filename@),
{
    let ghost entries = syslibs_view(system_libs@);
    let mut i: usize = system_libs.len();
    proof {
        assert(entries.subrange(0, i as int) =~= entries);
    }
    while i > 0
        invariant
            i <= system_libs@.len(),
            entries == syslibs_view(system_libs@),
            lookup_spec(entries, filename@) == lookup_spec(
                entries.subrange(0, i as int),
                filename@,
            ),
        decreases i,
    {
        i -= 1;
        let lib = slice_index_get(system_libs, i);
        proof {
            assert(entries.subrange(0, i as int + 1).last() == entries[i as int]);
        }
        if str_eq(lib.filename.as_str(), filename) {
            return Some(lib.abspath.clone());
        }
        proof {
            assert(entries.subrange(0, i as int + 1).drop_last() =~= entries.subrange(
                0,
                i as int,
            ));
        }
    }
    None
}

} // verus!

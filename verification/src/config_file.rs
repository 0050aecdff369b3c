//! The configuration file: default command-line arguments, written on lines,
//! where lines that begin with `#` are comments.

use vstd::prelude::*;

use crate::args::strings_view;
use crate::text::{chars_of, is_white_space, trim, trim_str};

verus! {

/// `s` split at each line feed (`str::split('\n')`): one more piece than
/// there are line feeds.
pub open spec fn split_lines(s: Seq<char>) -> Seq<Seq<char>>
    decreases s.len(),
{
    if s.len() == 0 {
        seq![Seq::<char>::empty()]
    } else {
        let prev = split_lines(s.drop_last());
        if s.last() == '\n' {
            prev.push(Seq::<char>::empty())
        } else {
            prev.drop_last().push(prev.last().push(s.last()))
        }
    }
}

/// The words of `s` that end before its last white space, and the word
/// that is still open at its end.
pub open spec fn split_ws(s: Seq<char>) -> (Seq<Seq<char>>, Seq<char>)
    decreases s.len(),
{
    if s.len() == 0 {
        (Seq::empty(), Seq::empty())
    } else {
        let prev = split_ws(s.drop_last());
        if is_white_space(s.last()) {
            if prev.1.len() > 0 {
                (prev.0.push(prev.1), Seq::empty())
            } else {
                (prev.0, Seq::empty())
            }
        } else {
            (prev.0, prev.1.push(s.last()))
        }
    }
}

/// The maximal runs of characters of `s` that are not white space
/// (`str::split_whitespace`).
pub open spec fn words(s: Seq<char>) -> Seq<Seq<char>> {
    let w = split_ws(s);
    if w.1.len() > 0 {
        w.0.push(w.1)
    } else {
        w.0
    }
}

/// The arguments of one line: none for a blank line or a comment, else its
/// words.
pub open spec fn line_args(line: Seq<char>) -> Seq<Seq<char>> {
    let t = trim(line);
    if t.len() == 0 || t[0] == '#' {
        Seq::empty()
    } else {
        words(t)
    }
}

/// The arguments of the lines `lines`, in order.
pub open spec fn args_of_lines(lines: Seq<Seq<char>>) -> Seq<Seq<char>>
    decreases lines.len(),
{
    if lines.len() == 0 {
        Seq::empty()
    } else {
        args_of_lines(lines.drop_last()) + line_args(lines.last())
    }
}

/// The arguments that a configuration file with contents `content` gives.
pub open spec fn config_args(content: Seq<char>) -> Seq<Seq<char>> {
    args_of_lines(split_lines(content))
}

/// `s` split at each line feed.
pub fn split_lines_str(s: &str) -> (r: Vec<String>)
    ensures
        strings_view(r@) == split_lines(s@),
{
    let cs = chars_of(s);
    let n = cs.len();
    let mut done: Vec<String> = Vec::new();
    let mut start: usize = 0;
    let mut i: usize = 0;
    assert(s@.take(0) =~= Seq::<char>::empty());
    assert(s@.subrange(0, 0) =~= Seq::<char>::empty());
    while i < n
        invariant
            cs@ == s@,
            n == s@.len(),
            start <= i <= n,
            split_lines(s@.take(i as int)) == strings_view(done@).push(
                s@.subrange(start as int, i as int),
            ),
        decreases n - i,
    {
        assert(s@.take(i + 1).drop_last() =~= s@.take(i as int));
        assert(s@.take(i + 1).last() == s@[i as int]);
        if cs[i] == '\n' {
            let ghost before = strings_view(done@);
            done.push(s.substring_char(start, i).to_owned());
            assert(strings_view(done@) =~= before.push(s@.subrange(start as int, i as int)));
            start = i + 1;
            assert(s@.subrange(start as int, i + 1) =~= Seq::<char>::empty());
        } else {
            assert(s@.subrange(start as int, i + 1) =~= s@.subrange(start as int, i as int).push(
                s@[i as int],
            ));
            assert(strings_view(done@).push(s@.subrange(start as int, i as int)).drop_last()
                =~= strings_view(done@));
        }
        i = i + 1;
    }
    let ghost before = strings_view(done@);
    done.push(s.substring_char(start, n).to_owned());
    assert(strings_view(done@) =~= before.push(s@.subrange(start as int, n as int)));
    assert(s@.take(n as int) =~= s@);
    done
}

/// The maximal runs of characters of `s` that are not white space.
pub fn words_str(s: &str) -> (r: Vec<String>)
    ensures
        strings_view(r@) == words(s@),
{
    let cs = chars_of(s);
    let n = cs.len();
    let mut done: Vec<String> = Vec::new();
    let mut start: usize = 0;
    let mut i: usize = 0;
    assert(s@.take(0) =~= Seq::<char>::empty());
    assert(s@.subrange(0, 0) =~= Seq::<char>::empty());
    while i < n
        invariant
            cs@ == s@,
            n == s@.len(),
            start <= i <= n,
            split_ws(s@.take(i as int)) == (strings_view(done@), s@.subrange(start as int, i as int)),
        decreases n - i,
    {
        assert(s@.take(i + 1).drop_last() =~= s@.take(i as int));
        assert(s@.take(i + 1).last() == s@[i as int]);
        if is_white_space_char_at(&cs, i) {
            if start < i {
                let ghost before = strings_view(done@);
                done.push(s.substring_char(start, i).to_owned());
                assert(strings_view(done@) =~= before.push(s@.subrange(start as int, i as int)));
            } else {
                assert(s@.subrange(start as int, i as int).len() == 0);
            }
            start = i + 1;
            assert(s@.subrange(start as int, i + 1) =~= Seq::<char>::empty());
        } else {
            assert(s@.subrange(start as int, i + 1) =~= s@.subrange(start as int, i as int).push(
                s@[i as int],
            ));
        }
        i = i + 1;
    }
    assert(s@.take(n as int) =~= s@);
    if start < n {
        let ghost before = strings_view(done@);
        done.push(s.substring_char(start, n).to_owned());
        assert(strings_view(done@) =~= before.push(s@.subrange(start as int, n as int)));
    } else {
        assert(s@.subrange(start as int, n as int).len() == 0);
    }
    done
}

fn is_white_space_char_at(cs: &Vec<char>, i: usize) -> (b: bool)
    requires
        i < cs@.len(),
    ensures
        b == is_white_space(cs@[i as int]),
{
    crate::text::is_white_space_char(cs[i])
}

/// The arguments of one line of the configuration file.
pub fn line_args_str(line: &str) -> (r: Vec<String>)
    ensures
        strings_view(r@) == line_args(line@),
{
    let t = trim_str(line);
    let cs = chars_of(t.as_str());
    if cs.len() == 0 || cs[0] == '#' {
        let r: Vec<String> = Vec::new();
        assert(strings_view(r@) =~= Seq::<Seq<char>>::empty());
        r
    } else {
        words_str(t.as_str())
    }
}

/// The default arguments that a configuration file with contents `content`
/// gives: the words of each line that is neither blank nor a comment.
pub fn args_from_config(content: &str) -> (r: Vec<String>)
    ensures
        strings_view(r@) == config_args(content@),
{
    let lines = split_lines_str(content);
    let n = lines.len();
    let mut r: Vec<String> = Vec::new();
    let mut i: usize = 0;
    assert(strings_view(lines@).take(0) =~= Seq::<Seq<char>>::empty());
    assert(strings_view(r@) =~= Seq::<Seq<char>>::empty());
    while i < n
        invariant
            n == lines@.len(),
            i <= n,
            strings_view(lines@) == split_lines(content@),
            strings_view(r@) == args_of_lines(strings_view(lines@).take(i as int)),
        decreases n - i,
    {
        let words = line_args_str(lines[i].as_str());
        let ghost before = strings_view(r@);
        let m = words.len();
        let mut j: usize = 0;
        while j < m
            invariant
                m == words@.len(),
                j <= m,
                strings_view(r@) == before + strings_view(words@).take(j as int),
            decreases m - j,
        {
            let w = words[j].clone();
            let ghost prev = strings_view(r@);
            r.push(w);
            assert(strings_view(r@) =~= prev.push(words@[j as int]@));
            assert(strings_view(words@).take(j + 1) =~= strings_view(words@).take(j as int).push(
                words@[j as int]@,
            ));
            assert(strings_view(r@) =~= before + strings_view(words@).take(j + 1));
            j = j + 1;
        }
        assert(strings_view(words@).take(m as int) =~= strings_view(words@));
        assert(strings_view(lines@).take(i + 1).drop_last() =~= strings_view(lines@).take(i as int));
        assert(strings_view(lines@).take(i + 1).last() == lines@[i as int]@);
        i = i + 1;
    }
    assert(strings_view(lines@).take(n as int) =~= strings_view(lines@));
    r
}

} // verus!

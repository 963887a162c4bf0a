//! Character sequences: the operations on text that the passes share, each
//! stated over `Seq<char>` and implemented on `str`.

use vstd::prelude::*;

verus! {

/// The characters that carry the Unicode property `White_Space`.
pub open spec fn is_space(c: char) -> bool {
    let n = c as u32;
    (0x09 <= n <= 0x0D) || n == 0x20 || n == 0x85 || n == 0xA0 || n == 0x1680 || (0x2000 <= n
        <= 0x200A) || n == 0x2028 || n == 0x2029 || n == 0x202F || n == 0x205F || n == 0x3000
}

/// The first position at or after `i` that holds no white space.
pub open spec fn skip_spaces(s: Seq<char>, i: int) -> int
    decreases s.len() - i,
{
    if 0 <= i < s.len() && is_space(s[i]) {
        skip_spaces(s, i + 1)
    } else {
        i
    }
}

/// The end of the text before `j` once the white space just before `j` is
/// left out.
pub open spec fn skip_spaces_back(s: Seq<char>, j: int) -> int
    decreases j,
{
    if 0 < j <= s.len() && is_space(s[j - 1]) {
        skip_spaces_back(s, j - 1)
    } else {
        j
    }
}

/// `s` without the white space at its end.
pub open spec fn trimmed_end(s: Seq<char>) -> Seq<char> {
    s.subrange(0, skip_spaces_back(s, s.len() as int))
}

/// `s` without the white space at its start.
pub open spec fn trimmed_start(s: Seq<char>) -> Seq<char> {
    s.subrange(skip_spaces(s, 0), s.len() as int)
}

/// `s` without the white space at either end.
pub open spec fn trimmed(s: Seq<char>) -> Seq<char> {
    trimmed_start(trimmed_end(s))
}

/// `s` without any occurrence of `c`.
pub open spec fn without_char(s: Seq<char>, c: char) -> Seq<char>
    decreases s.len(),
{
    if s.len() == 0 {
        s
    } else if s.last() == c {
        without_char(s.drop_last(), c)
    } else {
        without_char(s.drop_last(), c).push(s.last())
    }
}

/// The pieces of `s` from `start` on that the separators at or after `i`
/// delimit.
pub open spec fn split_from(s: Seq<char>, c: char, start: int, i: int) -> Seq<Seq<char>>
    decreases s.len() - i,
{
    if i < 0 || start < 0 || start > i || i >= s.len() {
        seq![s.subrange(start, s.len() as int)]
    } else if s[i] == c {
        seq![s.subrange(start, i)] + split_from(s, c, i + 1, i + 1)
    } else {
        split_from(s, c, start, i + 1)
    }
}

/// The pieces of `s` between the occurrences of `c`: one more piece than
/// there are occurrences.
pub open spec fn split_on(s: Seq<char>, c: char) -> Seq<Seq<char>> {
    split_from(s, c, 0, 0)
}

/// The parts in order with `sep` between every two neighbours.
pub open spec fn join(parts: Seq<Seq<char>>, sep: Seq<char>) -> Seq<char>
    decreases parts.len(),
{
    if parts.len() == 0 {
        Seq::empty()
    } else if parts.len() == 1 {
        parts[0]
    } else {
        join(parts.drop_last(), sep) + sep + parts.last()
    }
}

/// The parts in order, each followed by `end`.
pub open spec fn join_ended(parts: Seq<Seq<char>>, end: Seq<char>) -> Seq<char>
    decreases parts.len(),
{
    if parts.len() == 0 {
        Seq::empty()
    } else {
        join_ended(parts.drop_last(), end) + parts.last() + end
    }
}

/// Whether `s` ends with `suffix`.
pub open spec fn ends_with(s: Seq<char>, suffix: Seq<char>) -> bool {
    suffix.len() <= s.len() && s.subrange(s.len() - suffix.len(), s.len() as int) == suffix
}

/// The first position at or after `i` that does not hold `c`.
pub open spec fn skip_char(s: Seq<char>, c: char, i: int) -> int
    decreases s.len() - i,
{
    if 0 <= i < s.len() && s[i] == c {
        skip_char(s, c, i + 1)
    } else {
        i
    }
}

/// `s` without the run of `c` at its start.
pub open spec fn without_leading(s: Seq<char>, c: char) -> Seq<char> {
    s.subrange(skip_char(s, c, 0), s.len() as int)
}

/// `s` without the carriage return at its end, if it has one.
pub open spec fn without_return(s: Seq<char>) -> Seq<char> {
    if s.len() > 0 && s.last() == '\r' {
        s.drop_last()
    } else {
        s
    }
}

/// The lines of `s`: the pieces that end in a line feed, each without that
/// line feed and without a carriage return before it, and then what follows
/// the last line feed, unless nothing follows it.
pub open spec fn lines_of(s: Seq<char>) -> Seq<Seq<char>> {
    let pieces = split_on(s, '\n');
    let ended = pieces.drop_last().map_values(|p: Seq<char>| without_return(p));
    if pieces.last().len() == 0 {
        ended
    } else {
        ended.push(pieces.last())
    }
}

/// The lines of `s` but the first, with a line feed between every two
/// neighbours.
pub open spec fn after_first_line(s: Seq<char>) -> Seq<char> {
    let lines = lines_of(s);
    if lines.len() <= 1 {
        Seq::empty()
    } else {
        join(lines.subrange(1, lines.len() as int), "\n"@)
    }
}

/// A text has at least one piece.
pub proof fn lemma_split_from_len(s: Seq<char>, c: char, start: int, i: int)
    ensures
        split_from(s, c, start, i).len() >= 1,
    decreases s.len() - i,
{
    if !(i < 0 || start < 0 || start > i || i >= s.len()) {
        if s[i] == c {
            lemma_split_from_len(s, c, i + 1, i + 1);
        } else {
            lemma_split_from_len(s, c, start, i + 1);
        }
    }
}

/// The views of the strings of a vector, in order.
pub open spec fn views(v: Seq<String>) -> Seq<Seq<char>> {
    v.map_values(|s: String| s@)
}

/// Whether the character is white space.
pub fn char_is_space(c: char) -> (r: bool)
    ensures
        r == is_space(c),
{
    let n: u32 = c as u32;
    (0x09 <= n && n <= 0x0D) || n == 0x20 || n == 0x85 || n == 0xA0 || n == 0x1680 || (0x2000 <= n
        && n <= 0x200A) || n == 0x2028 || n == 0x2029 || n == 0x202F || n == 0x205F || n == 0x3000
}

/// Whether two string slices hold the same characters.
pub fn str_eq(a: &str, b: &str) -> (r: bool)
    ensures
        r == (a@ == b@),
{
    let x = a.to_owned();
    let y = b.to_owned();
    x == y
}

/// Whether the optional string is present and holds the characters of `b`.
pub fn opt_str_eq(a: &Option<String>, b: &str) -> (r: bool)
    ensures
        r == (a matches Some(s) && s@ == b@),
{
    match a {
        Some(s) => str_eq(s.as_str(), b),
        None => false,
    }
}

/// `s` without the white space at its end.
pub fn trim_end(s: &str) -> (r: &str)
    ensures
        r@ == trimmed_end(s@),
{
    let n = s.unicode_len();
    let mut j: usize = n;
    while j > 0 && char_is_space(s.get_char(j - 1))
        invariant
            j <= n,
            n == s@.len(),
            skip_spaces_back(s@, n as int) == skip_spaces_back(s@, j as int),
        decreases j,
    {
        j = j - 1;
    }
    s.substring_char(0, j)
}

/// `s` without the white space at its start.
pub fn trim_start(s: &str) -> (r: &str)
    ensures
        r@ == trimmed_start(s@),
{
    let n = s.unicode_len();
    let mut i: usize = 0;
    while i < n && char_is_space(s.get_char(i))
        invariant
            i <= n,
            n == s@.len(),
            skip_spaces(s@, 0) == skip_spaces(s@, i as int),
        decreases n - i,
    {
        i = i + 1;
    }
    s.substring_char(i, n)
}

/// `s` without the white space at either end.
pub fn trim(s: &str) -> (r: &str)
    ensures
        r@ == trimmed(s@),
{
    trim_start(trim_end(s))
}

/// `s` without the run of `c` at its start.
pub fn strip_leading(s: &str, c: char) -> (r: &str)
    ensures
        r@ == without_leading(s@, c),
{
    let n = s.unicode_len();
    let mut i: usize = 0;
    while i < n && s.get_char(i) == c
        invariant
            i <= n,
            n == s@.len(),
            skip_char(s@, c, 0) == skip_char(s@, c, i as int),
        decreases n - i,
    {
        i = i + 1;
    }
    s.substring_char(i, n)
}

/// Whether `s` ends with `suffix`.
pub fn has_suffix(s: &str, suffix: &str) -> (r: bool)
    ensures
        r == ends_with(s@, suffix@),
{
    let n = s.unicode_len();
    let m = suffix.unicode_len();
    if m > n {
        return false;
    }
    str_eq(s.substring_char(n - m, n), suffix)
}

/// Whether `s` starts with the character `c`.
pub fn starts_with_char(s: &str, c: char) -> (r: bool)
    ensures
        r == (s@.len() > 0 && s@[0] == c),
{
    if s.unicode_len() > 0 {
        s.get_char(0) == c
    } else {
        false
    }
}

/// `s` without any occurrence of `c`.
pub fn remove_char(s: &str, c: char) -> (r: String)
    ensures
        r@ == without_char(s@, c),
{
    let n = s.unicode_len();
    let mut out = String::new();
    let mut start: usize = 0;
    let mut i: usize = 0;
    while i < n
        invariant
            start <= i <= n,
            n == s@.len(),
            out@ + without_char(s@.subrange(start as int, i as int), c) == without_char(
                s@.subrange(0, i as int),
                c,
            ),
            without_char(s@.subrange(start as int, i as int), c) == s@.subrange(
                start as int,
                i as int,
            ),
        decreases n - i,
    {
        let ghost head = s@.subrange(0, i as int);
        let ghost run = s@.subrange(start as int, i as int);
        let ghost head1 = s@.subrange(0, i as int + 1);
        proof {
            assert(head1.drop_last() =~= head);
        }
        if s.get_char(i) == c {
            out.append(s.substring_char(start, i));
            start = i + 1;
            proof {
                assert(s@.subrange(start as int, start as int) =~= Seq::<char>::empty());
                assert(out@ + Seq::<char>::empty() =~= out@);
            }
        } else {
            proof {
                let run1 = s@.subrange(start as int, i as int + 1);
                assert(run1.drop_last() =~= run);
                assert(run1 =~= run.push(s@[i as int]));
                assert((out@ + run).push(s@[i as int]) =~= out@ + run1);
            }
        }
        i = i + 1;
    }
    proof {
        assert(s@.subrange(0, n as int) =~= s@);
    }
    out.append(s.substring_char(start, n));
    out
}

/// The pieces of `s` between the occurrences of `c`.
pub fn split(s: &str, c: char) -> (r: Vec<String>)
    ensures
        views(r@) == split_on(s@, c),
{
    let n = s.unicode_len();
    let mut out: Vec<String> = Vec::new();
    let mut start: usize = 0;
    let mut i: usize = 0;
    while i < n
        invariant
            start <= i <= n,
            n == s@.len(),
            split_on(s@, c) == views(out@) + split_from(s@, c, start as int, i as int),
        decreases n - i,
    {
        if s.get_char(i) == c {
            let ghost before = views(out@);
            out.push(s.substring_char(start, i).to_owned());
            proof {
                assert(views(out@) =~= before.push(s@.subrange(start as int, i as int)));
                assert(views(out@) + split_from(s@, c, i as int + 1, i as int + 1) =~= before
                    + split_from(s@, c, start as int, i as int));
            }
            start = i + 1;
        }
        i = i + 1;
    }
    let ghost before = views(out@);
    out.push(s.substring_char(start, n).to_owned());
    proof {
        assert(views(out@) =~= before.push(s@.subrange(start as int, n as int)));
        assert(views(out@) =~= before + split_from(s@, c, start as int, n as int));
    }
    out
}

/// The parts in order with `sep` between every two neighbours.
pub fn join_strs(parts: &Vec<String>, sep: &str) -> (r: String)
    ensures
        r@ == join(views(parts@), sep@),
{
    let mut out = String::new();
    let mut i: usize = 0;
    while i < parts.len()
        invariant
            i <= parts.len(),
            out@ == join(views(parts@).take(i as int), sep@),
        decreases parts.len() - i,
    {
        proof {
            let next = views(parts@).take(i as int + 1);
            assert(next.drop_last() =~= views(parts@).take(i as int));
            assert(next.last() == parts@[i as int]@);
            if i == 0 {
                assert(out@ + parts@[i as int]@ =~= parts@[i as int]@);
            }
        }
        if i > 0 {
            out.append(sep);
        }
        out.append(parts[i].as_str());
        i = i + 1;
    }
    proof {
        assert(views(parts@).take(parts@.len() as int) =~= views(parts@));
    }
    out
}

/// The parts in order, each followed by `end`.
pub fn join_strs_ended(parts: &Vec<String>, end: &str) -> (r: String)
    ensures
        r@ == join_ended(views(parts@), end@),
{
    let mut out = String::new();
    let mut i: usize = 0;
    while i < parts.len()
        invariant
            i <= parts.len(),
            out@ == join_ended(views(parts@).take(i as int), end@),
        decreases parts.len() - i,
    {
        proof {
            let next = views(parts@).take(i as int + 1);
            assert(next.drop_last() =~= views(parts@).take(i as int));
            assert(next.last() == parts@[i as int]@);
        }
        out.append(parts[i].as_str());
        out.append(end);
        i = i + 1;
    }
    proof {
        assert(views(parts@).take(parts@.len() as int) =~= views(parts@));
    }
    out
}

/// The lines of `s` but the first, with a line feed between every two
/// neighbours.
pub fn drop_first_line(s: &str) -> (r: String)
    ensures
        r@ == after_first_line(s@),
{
    let pieces = split(s, '\n');
    proof {
        lemma_split_from_len(s@, '\n', 0, 0);
    }
    let n = pieces.len();
    let ghost all = views(pieces@);
    let ghost ended = all.drop_last().map_values(|p: Seq<char>| without_return(p));
    let ghost lines = lines_of(s@);
    if n < 2 {
        return String::new();
    }
    let mut kept: Vec<String> = Vec::new();
    let mut i: usize = 1;
    proof {
        assert(views(kept@) =~= ended.subrange(1, 1));
    }
    while i < n - 1
        invariant
            1 <= i <= n - 1,
            n >= 2,
            n == pieces@.len(),
            all == views(pieces@),
            ended == all.drop_last().map_values(|p: Seq<char>| without_return(p)),
            views(kept@) == ended.subrange(1, i as int),
        decreases n - i,
    {
        let ghost before = views(kept@);
        let piece = pieces[i].as_str();
        let len = piece.unicode_len();
        let line = if len > 0 && piece.get_char(len - 1) == '\r' {
            piece.substring_char(0, len - 1)
        } else {
            piece
        };
        kept.push(line.to_owned());
        proof {
            assert(piece@ == all[i as int]);
            assert(line@ =~= without_return(piece@));
            assert(views(kept@) =~= before.push(line@));
            assert(views(kept@) =~= ended.subrange(1, i as int + 1));
        }
        i = i + 1;
    }
    if pieces[n - 1].as_str().unicode_len() > 0 {
        let ghost before = views(kept@);
        kept.push(pieces[n - 1].clone());
        proof {
            assert(views(kept@) =~= before.push(all.last()));
            assert(views(kept@) =~= lines.subrange(1, lines.len() as int));
        }
    } else {
        proof {
            assert(views(kept@) =~= lines.subrange(1, lines.len() as int));
        }
    }
    proof {
        if lines.len() <= 1 {
            assert(views(kept@).len() == 0);
        }
    }
    join_strs(&kept, "\n")
}

} // verus!

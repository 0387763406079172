//! Reading the address of the next page out of a `Link` response header.
//!
//! The header is a comma-separated list of entries; an entry names a link
//! where it holds `<target>;` then optional white space then
//! `rel="relation"`.  The first such link in an entry counts, an entry
//! without one is passed over, and of several `next` links the last wins.
use vstd::prelude::*;
use vstd::string::{StrSliceExecFns, StringExecFns};

verus! {

/// White space as Unicode defines it.
pub open spec fn is_space(c: char) -> bool {
    c == ' ' || c == '\t' || c == '\n' || c == '\x0B' || c == '\x0C' || c == '\r'
        || c == '\u{85}' || c == '\u{a0}' || c == '\u{1680}' || ('\u{2000}' <= c && c
        <= '\u{200a}') || c == '\u{2028}' || c == '\u{2029}' || c == '\u{202f}' || c
        == '\u{205f}' || c == '\u{3000}'
}

/// The text `rel="`.
pub open spec fn rel_open() -> Seq<char> {
    seq!['r', 'e', 'l', '=', '"']
}

/// The word `next`.
pub open spec fn next_word() -> Seq<char> {
    seq!['n', 'e', 'x', 't']
}

/// The first index in `from..hi` that holds `c`, or `hi`.
pub open spec fn find_char(s: Seq<char>, from: int, hi: int, c: char) -> int
    decreases hi - from,
{
    if from >= hi {
        hi
    } else if s[from] == c {
        from
    } else {
        find_char(s, from + 1, hi, c)
    }
}

/// The first index in `from..hi` that is not white space, or `hi`.
pub open spec fn skip_spaces(s: Seq<char>, from: int, hi: int) -> int
    decreases hi - from,
{
    if from >= hi {
        hi
    } else if !is_space(s[from]) {
        from
    } else {
        skip_spaces(s, from + 1, hi)
    }
}

/// The link (target, relation) that starts at index `i` of the entry that
/// ends before `hi`.
pub open spec fn link_at(s: Seq<char>, i: int, hi: int) -> Option<(Seq<char>, Seq<char>)> {
    if 0 <= i < hi <= s.len() && s[i] == '<' {
        let j = find_char(s, i + 1, hi, '>');
        if j + 1 < hi && s[j + 1] == ';' {
            let k = skip_spaces(s, j + 2, hi);
            if k + 5 <= hi && s.subrange(k, k + 5) == rel_open() {
                let m = find_char(s, k + 5, hi, '"');
                if m < hi {
                    Some((s.subrange(i + 1, j), s.subrange(k + 5, m)))
                } else {
                    None
                }
            } else {
                None
            }
        } else {
            None
        }
    } else {
        None
    }
}

/// The leftmost link that starts in `from..hi`.
pub open spec fn first_link(s: Seq<char>, from: int, hi: int) -> Option<(Seq<char>, Seq<char>)>
    decreases hi - from,
{
    if from >= hi {
        None
    } else if link_at(s, from, hi) is Some {
        link_at(s, from, hi)
    } else {
        first_link(s, from + 1, hi)
    }
}

/// Where the entry that ends at `hi` starts: just after the last comma
/// before `hi`, or at zero.
pub open spec fn entry_start(s: Seq<char>, hi: int) -> int
    decreases hi,
{
    if hi <= 0 {
        0
    } else if s[hi - 1] == ',' {
        hi
    } else {
        entry_start(s, hi - 1)
    }
}

/// The target of the last `next` link among the entries that end at or
/// before `hi`.
pub open spec fn next_link_before(s: Seq<char>, hi: int) -> Option<Seq<char>>
    decreases hi,
{
    let lo = entry_start(s, hi);
    let (found, target, rel) = match first_link(s, lo, hi) {
        Some((t, r)) => (true, t, r),
        None => (false, Seq::empty(), Seq::empty()),
    };
    if found && rel == next_word() {
        Some(target)
    } else if 0 < lo <= hi {
        next_link_before(s, lo - 1)
    } else {
        None
    }
}

/// The target of the header's last `next` link.
pub open spec fn next_link(header: Seq<char>) -> Option<Seq<char>> {
    next_link_before(header, header.len() as int)
}

fn find_in(cs: &Vec<char>, from: usize, hi: usize, c: char) -> (r: usize)
    requires
        from <= hi <= cs@.len(),
    ensures
        r as int == find_char(cs@, from as int, hi as int, c),
        from <= r <= hi,
{
    let mut i = from;
    while i < hi
        invariant
            from <= i <= hi,
            hi <= cs@.len(),
            find_char(cs@, i as int, hi as int, c) == find_char(cs@, from as int, hi as int, c),
        decreases hi - i,
    {
        if cs[i] == c {
            return i;
        }
        i = i + 1;
    }
    i
}

fn space(c: char) -> (r: bool)
    ensures
        r == is_space(c),
{
    c == ' ' || c == '\t' || c == '\n' || c == '\x0B' || c == '\x0C' || c == '\r' || c
        == '\u{85}' || c == '\u{a0}' || c == '\u{1680}' || ('\u{2000}' <= c && c <= '\u{200a}')
        || c == '\u{2028}' || c == '\u{2029}' || c == '\u{202f}' || c == '\u{205f}' || c
        == '\u{3000}'
}

fn skip_in(cs: &Vec<char>, from: usize, hi: usize) -> (r: usize)
    requires
        from <= hi <= cs@.len(),
    ensures
        r as int == skip_spaces(cs@, from as int, hi as int),
        from <= r <= hi,
{
    let mut i = from;
    while i < hi
        invariant
            from <= i <= hi,
            hi <= cs@.len(),
            skip_spaces(cs@, i as int, hi as int) == skip_spaces(cs@, from as int, hi as int),
        decreases hi - i,
    {
        if !space(cs[i]) {
            return i;
        }
        i = i + 1;
    }
    i
}

/// The bounds of the target and of the relation of the link at `i`.
fn link_in(cs: &Vec<char>, i: usize, hi: usize) -> (r: Option<(usize, usize, usize, usize)>)
    requires
        i < hi <= cs@.len(),
    ensures
        match r {
            Some((a, b, c, d)) => {
                &&& a <= b <= hi && c <= d <= hi
                &&& link_at(cs@, i as int, hi as int) == Some(
                    (cs@.subrange(a as int, b as int), cs@.subrange(c as int, d as int)),
                )
            },
            None => link_at(cs@, i as int, hi as int) is None,
        },
{
    if cs[i] != '<' {
        return None;
    }
    let j = find_in(cs, i + 1, hi, '>');
    if j >= hi - 1 || cs[j + 1] != ';' {
        return None;
    }
    let k = skip_in(cs, j + 2, hi);
    if hi - k < 5 {
        return None;
    }
    if cs[k] != 'r' || cs[k + 1] != 'e' || cs[k + 2] != 'l' || cs[k + 3] != '=' || cs[k + 4] != '"' {
        proof {
            let w = cs@.subrange(k as int, k + 5);
            if w == rel_open() {
                assert(w[0] == 'r' && w[1] == 'e' && w[2] == 'l' && w[3] == '=' && w[4] == '"');
            }
        }
        return None;
    }
    proof {
        assert(cs@.subrange(k as int, k + 5) =~= rel_open());
    }
    let m = find_in(cs, k + 5, hi, '"');
    if m >= hi {
        return None;
    }
    Some((i + 1, j, k + 5, m))
}

/// The bounds of the target and of the relation of the leftmost link in
/// `from..hi`.
fn first_link_in(cs: &Vec<char>, from: usize, hi: usize) -> (r: Option<(usize, usize, usize, usize)>)
    requires
        from <= hi <= cs@.len(),
    ensures
        match r {
            Some((a, b, c, d)) => {
                &&& a <= b <= hi && c <= d <= hi
                &&& first_link(cs@, from as int, hi as int) == Some(
                    (cs@.subrange(a as int, b as int), cs@.subrange(c as int, d as int)),
                )
            },
            None => first_link(cs@, from as int, hi as int) is None,
        },
{
    let mut i = from;
    while i < hi
        invariant
            from <= i <= hi,
            hi <= cs@.len(),
            first_link(cs@, i as int, hi as int) == first_link(cs@, from as int, hi as int),
        decreases hi - i,
    {
        let l = link_in(cs, i, hi);
        if l.is_some() {
            return l;
        }
        i = i + 1;
    }
    None
}

fn entry_start_in(cs: &Vec<char>, hi: usize) -> (r: usize)
    requires
        hi <= cs@.len(),
    ensures
        r as int == entry_start(cs@, hi as int),
        r <= hi,
{
    let mut i = hi;
    while i > 0
        invariant
            i <= hi <= cs@.len(),
            entry_start(cs@, i as int) == entry_start(cs@, hi as int),
        decreases i,
    {
        if cs[i - 1] == ',' {
            return i;
        }
        i = i - 1;
    }
    0
}

/// The characters of `s`.
fn chars_of(s: &str) -> (r: Vec<char>)
    ensures
        r@ == s@,
{
    let n = s.unicode_len();
    let mut v: Vec<char> = Vec::new();
    let mut i: usize = 0;
    while i < n
        invariant
            i <= n,
            n == s@.len(),
            v@ == s@.subrange(0, i as int),
        decreases n - i,
    {
        v.push(s.get_char(i));
        i = i + 1;
        proof {
            assert(v@ =~= s@.subrange(0, i as int));
        }
    }
    proof {
        assert(v@ =~= s@);
    }
    v
}

/// The address of the next page that a `Link` header names, if any.
pub fn parse_next_page(link_header: &str) -> (r: Option<String>)
    ensures
        match r {
            Some(u) => next_link(link_header@) == Some(u@),
            None => next_link(link_header@) is None,
        },
{
    let cs = chars_of(link_header);
    let mut hi = cs.len();
    loop
        invariant
            hi <= cs@.len(),
            cs@ == link_header@,
            next_link_before(cs@, hi as int) == next_link(link_header@),
        decreases hi,
    {
        let lo = entry_start_in(&cs, hi);
        match first_link_in(&cs, lo, hi) {
            Some((a, b, c, d)) => {
                if d - c == 4 && cs[c] == 'n' && cs[c + 1] == 'e' && cs[c + 2] == 'x' && cs[c + 3]
                    == 't' {
                    proof {
                        assert(cs@.subrange(c as int, d as int) =~= next_word());
                    }
                    let t = link_header.substring_char(a, b);
                    return Some(String::from_str(t));
                }
                proof {
                    let rel = cs@.subrange(c as int, d as int);
                    if rel == next_word() {
                        assert(rel.len() == 4);
                        assert(rel[0] == 'n' && rel[1] == 'e' && rel[2] == 'x' && rel[3] == 't');
                        assert(cs@[c as int] == 'n');
                    }
                    assert(rel != next_word());
                    assert(first_link(cs@, lo as int, hi as int) == Some((cs@.subrange(a as int, b as int), rel)));
                }
            },
            None => {},
        }
        proof {
            assert(next_link_before(cs@, hi as int) == if 0 < lo <= hi {
                next_link_before(cs@, lo - 1)
            } else {
                None
            });
        }
        if lo == 0 {
            return None;
        }
        hi = lo - 1;
    }
}

} // verus!

use vstd::prelude::*;
use crate::text::{occurs_at, occurs_in, contains_at, copy_range};
use crate::mac::{MacStyle, mac_token, find_mac_token, lladdr_token, find_lladdr_token};

verus! {

/// Index of the first `'\n'` at or after `from`, or the length of `s`.
pub open spec fn next_newline(s: Seq<char>, from: int) -> int
    decreases s.len() - from,
{
    if from >= s.len() {
        s.len() as int
    } else if s[from] == '\n' {
        from
    } else {
        next_newline(s, from + 1)
    }
}

proof fn lemma_next_newline(s: Seq<char>, from: int)
    requires
        0 <= from <= s.len(),
    ensures
        from <= next_newline(s, from) <= s.len(),
        next_newline(s, from) < s.len() ==> s[next_newline(s, from)] == '\n',
        forall|m: int| from <= m < next_newline(s, from) ==> s[m] != '\n',
    decreases s.len() - from,
{
    if from < s.len() && s[from] != '\n' {
        lemma_next_newline(s, from + 1);
    }
}

/// A line of `s` starts at `i`.
pub open spec fn line_start(s: Seq<char>, i: int) -> bool {
    0 <= i < s.len() && (i == 0 || s[i - 1] == '\n')
}

/// The line that starts at `i`, without its `"\n"` or `"\r\n"` ending.
pub open spec fn line_at(s: Seq<char>, i: int) -> Seq<char> {
    let e = next_newline(s, i);
    if e < s.len() && e > i && s[e - 1] == '\r' {
        s.subrange(i, e - 1)
    } else {
        s.subrange(i, e)
    }
}

/// A line that names `ip` and holds a token that may be an address in `style`.
pub open spec fn line_matches(l: Seq<char>, ip: Seq<char>, style: MacStyle) -> bool {
    occurs_in(l, ip) && mac_token(l, style) is Some
}

/// The line at `i` is the first matching line of `s`.
pub open spec fn first_match_at(s: Seq<char>, ip: Seq<char>, style: MacStyle, i: int) -> bool {
    &&& line_start(s, i)
    &&& line_matches(line_at(s, i), ip, style)
    &&& forall|j: int| #[trigger] line_start(s, j) && j < i ==> !line_matches(line_at(s, j), ip, style)
}

/// In a neighbor table `s`, the first address token of the first line that
/// names `ip` and holds one.
pub open spec fn table_token(s: Seq<char>, ip: Seq<char>, style: MacStyle) -> Option<Seq<char>> {
    if exists|i: int| first_match_at(s, ip, style, i) {
        mac_token(line_at(s, choose|i: int| first_match_at(s, ip, style, i)), style)
    } else {
        None
    }
}

/// The token after `lladdr` on the first line of `s`.
pub open spec fn first_line_lladdr(s: Seq<char>) -> Option<Seq<char>> {
    if s.len() == 0 {
        None
    } else {
        lladdr_token(line_at(s, 0))
    }
}

fn find_newline(s: &Vec<char>, from: usize) -> (e: usize)
    requires
        from <= s.len(),
    ensures
        e == next_newline(s@, from as int),
{
    let mut e: usize = from;
    while e < s.len() && s[e] != '\n'
        invariant
            from <= e <= s.len(),
            next_newline(s@, e as int) == next_newline(s@, from as int),
        decreases s.len() - e,
    {
        e = e + 1;
    }
    e
}

fn line_of(s: &Vec<char>, i: usize) -> (r: Vec<char>)
    requires
        i <= s.len(),
    ensures
        r@ == line_at(s@, i as int),
{
    let e: usize = find_newline(s, i);
    proof {
        lemma_next_newline(s@, i as int);
    }
    if e < s.len() && e > i && s[e - 1] == '\r' {
        copy_range(s, i, e - 1)
    } else {
        copy_range(s, i, e)
    }
}

/// Whether `pat` occurs in `s`.
pub fn occurs(s: &Vec<char>, pat: &Vec<char>) -> (r: bool)
    ensures
        r == occurs_in(s@, pat@),
{
    if pat.len() > s.len() {
        return false;
    }
    let last: usize = s.len() - pat.len();
    let mut k: usize = 0;
    while k <= last
        invariant
            last == s.len() - pat.len(),
            k <= last + 1,
            forall|j: int| 0 <= j < k ==> !occurs_at(s@, pat@, j),
        decreases last + 1 - k,
    {
        if contains_at(s, pat, k) {
            return true;
        }
        if k == last {
            return false;
        }
        k = k + 1;
    }
    false
}

/// The first address token of the first line of `s` that names `ip` and holds one.
pub fn find_table_token(s: &Vec<char>, ip: &Vec<char>, style: MacStyle) -> (r: Option<Vec<char>>)
    ensures
        match r {
            Some(t) => table_token(s@, ip@, style) == Some(t@),
            None => table_token(s@, ip@, style) is None,
        },
{
    let n: usize = s.len();
    let mut p: usize = 0;
    while p < n
        invariant
            n == s.len(),
            p <= n,
            p == 0 || p == n || s@[p - 1] == '\n',
            forall|j: int| #[trigger] line_start(s@, j) && j < p ==> !line_matches(line_at(s@, j), ip@, style),
        decreases n - p,
    {
        let e: usize = find_newline(s, p);
        proof {
            lemma_next_newline(s@, p as int);
        }
        let l = line_of(s, p);
        if occurs(&l, ip) {
            match find_mac_token(&l, style) {
                Some(t) => {
                    proof {
                        assert(first_match_at(s@, ip@, style, p as int));
                        let i = choose|i: int| first_match_at(s@, ip@, style, i);
                        if i < p {
                            assert(line_start(s@, i));
                        } else if p < i {
                            assert(line_start(s@, p as int));
                        }
                    }
                    return Some(t);
                },
                None => {},
            }
        }
        let q: usize = if e < n { e + 1 } else { n };
        assert forall|j: int| #[trigger] line_start(s@, j) && j < q implies !line_matches(
            line_at(s@, j),
            ip@,
            style,
        ) by {
            if p < j && j < q {
                assert(s@[j - 1] != '\n');
            }
        }
        p = q;
    }
    proof {
        if exists|i: int| first_match_at(s@, ip@, style, i) {
            let i = choose|i: int| first_match_at(s@, ip@, style, i);
            assert(line_start(s@, i));
        }
    }
    None
}

/// The token after `lladdr` on the first line of `s`.
pub fn find_first_line_lladdr(s: &Vec<char>) -> (r: Option<Vec<char>>)
    ensures
        match r {
            Some(t) => first_line_lladdr(s@) == Some(t@),
            None => first_line_lladdr(s@) is None,
        },
{
    if s.len() == 0 {
        return None;
    }
    let l = line_of(s, 0);
    find_lladdr_token(&l)
}

} // verus!

use vstd::prelude::*;
use crate::text::{
    ascii_lower, all_ascii, lower_of, lowercase, string_of, is_space, utf8_len, token_span,
    lemma_token_span_unique, space, width, token_end, copy_range,
};

verus! {

/// How a neighbor-table tool writes link-layer addresses.
#[derive(Clone, Copy, Debug, PartialEq, Eq, Structural)]
pub enum MacStyle {
    /// Octets joined by `:` (BSD `arp`/`ndp`, Linux `ip`).
    Colon,
    /// Octets joined by `-` (Windows `arp`).
    Hyphen,
}

impl MacStyle {
    /// The character between octets.
    pub open spec fn separator(self) -> char {
        match self {
            MacStyle::Colon => ':',
            MacStyle::Hyphen => '-',
        }
    }

    /// Least byte length of a token taken for an address in this style.
    pub open spec fn min_bytes(self) -> nat {
        match self {
            MacStyle::Colon => 11,
            MacStyle::Hyphen => 17,
        }
    }

    fn separator_char(self) -> (r: char)
        ensures
            r == self.separator(),
    {
        match self {
            MacStyle::Colon => ':',
            MacStyle::Hyphen => '-',
        }
    }

    fn min_len(self) -> (r: usize)
        ensures
            r == self.min_bytes(),
    {
        match self {
            MacStyle::Colon => 11,
            MacStyle::Hyphen => 17,
        }
    }
}

/// A token that may be a link-layer address: it holds the style's separator
/// and is at least the style's least length in bytes.
pub open spec fn plausible_mac(t: Seq<char>, style: MacStyle) -> bool {
    t.contains(style.separator()) && utf8_len(t) >= style.min_bytes()
}

/// `l[i..k]` is the first plausible token of `l`.
pub open spec fn first_plausible_at(l: Seq<char>, style: MacStyle, i: int, k: int) -> bool {
    &&& token_span(l, i, k)
    &&& plausible_mac(l.subrange(i, k), style)
    &&& forall|i2: int, k2: int|
        #![trigger token_span(l, i2, k2)]
        token_span(l, i2, k2) && i2 < i ==> !plausible_mac(l.subrange(i2, k2), style)
}

/// The first whitespace-separated token of the line `l` that may be an
/// address in `style`, if there is one.
pub open spec fn mac_token(l: Seq<char>, style: MacStyle) -> Option<Seq<char>> {
    if exists|t: (int, int)| first_plausible_at(l, style, t.0, t.1) {
        let t = choose|t: (int, int)| first_plausible_at(l, style, t.0, t.1);
        Some(l.subrange(t.0, t.1))
    } else {
        None
    }
}

proof fn lemma_mac_token_is(l: Seq<char>, style: MacStyle, i: int, k: int)
    requires
        first_plausible_at(l, style, i, k),
    ensures
        mac_token(l, style) == Some(l.subrange(i, k)),
{
    assert(first_plausible_at(l, style, (i, k).0, (i, k).1));
    let c = choose|t: (int, int)| first_plausible_at(l, style, t.0, t.1);
    let i2 = c.0;
    let k2 = c.1;
    if i2 < i {
        assert(token_span(l, i2, k2));
    } else if i < i2 {
        assert(token_span(l, i, k));
    } else {
        lemma_token_span_unique(l, i, k, k2);
    }
}

/// Whether `l[a..b]` is a plausible token in `style`.
fn plausible_range(l: &Vec<char>, a: usize, b: usize, style: MacStyle) -> (r: bool)
    requires
        a <= b <= l.len(),
    ensures
        r == plausible_mac(l@.subrange(a as int, b as int), style),
{
    let sep = style.separator_char();
    let min: usize = style.min_len();
    let mut has: bool = false;
    let mut acc: usize = 0;
    let mut m: usize = a;
    while m < b
        invariant
            a <= m <= b <= l.len(),
            sep == style.separator(),
            min == style.min_bytes(),
            min <= 17,
            has == l@.subrange(a as int, m as int).contains(sep),
            utf8_len(l@.subrange(a as int, m as int)) < min ==> acc == utf8_len(
                l@.subrange(a as int, m as int),
            ),
            utf8_len(l@.subrange(a as int, m as int)) >= min ==> acc >= min,
            acc <= min + 4,
        decreases b - m,
    {
        let ghost before = l@.subrange(a as int, m as int);
        let ghost after = l@.subrange(a as int, m + 1);
        proof {
            assert(after.drop_last() =~= before);
            assert(after.last() == l@[m as int]);
            if before.contains(sep) {
                let j = choose|j: int| 0 <= j < before.len() && before[j] == sep;
                assert(after[j] == sep);
            }
            if after.contains(sep) && l@[m as int] != sep {
                let j = choose|j: int| 0 <= j < after.len() && after[j] == sep;
                assert(before[j] == sep);
            }
            if l@[m as int] == sep {
                assert(after[m - a] == sep);
            }
        }
        let c = l[m];
        if c == sep {
            has = true;
        }
        if acc < min {
            acc = acc + width(c);
        }
        m = m + 1;
    }
    has && acc >= min
}

/// The first plausible token of the line `l` in `style`.
pub fn find_mac_token(l: &Vec<char>, style: MacStyle) -> (r: Option<Vec<char>>)
    ensures
        match r {
            Some(t) => mac_token(l@, style) == Some(t@),
            None => mac_token(l@, style) is None,
        },
{
    let n: usize = l.len();
    let mut p: usize = 0;
    while p < n
        invariant
            n == l.len(),
            p <= n,
            p == 0 || is_space(l@[p - 1]) || p == n || is_space(l@[p as int]),
            forall|i2: int, k2: int|
                #![trigger token_span(l@, i2, k2)]
                token_span(l@, i2, k2) && i2 < p ==> !plausible_mac(l@.subrange(i2, k2), style),
        decreases n - p,
    {
        if space(l[p]) {
            p = p + 1;
        } else {
            let k: usize = token_end(l, p);
            assert(token_span(l@, p as int, k as int));
            if plausible_range(l, p, k, style) {
                proof {
                    lemma_mac_token_is(l@, style, p as int, k as int);
                }
                return Some(copy_range(l, p, k));
            }
            assert forall|i2: int, k2: int|
                #![trigger token_span(l@, i2, k2)]
                token_span(l@, i2, k2) && i2 < k implies !plausible_mac(
                    l@.subrange(i2, k2),
                    style,
                ) by {
                if p <= i2 < k && i2 != p {
                    assert(!is_space(l@[i2 - 1]));
                } else if i2 == p {
                    lemma_token_span_unique(l@, p as int, k as int, k2);
                }
            }
            p = k;
        }
    }
    proof {
        if exists|t: (int, int)| first_plausible_at(l@, style, t.0, t.1) {
            let c = choose|t: (int, int)| first_plausible_at(l@, style, t.0, t.1);
            assert(token_span(l@, c.0, c.1));
        }
    }
    None
}


/// The word that Linux `ip neighbor` writes before a link-layer address.
pub open spec fn lladdr_word() -> Seq<char> {
    seq!['l', 'l', 'a', 'd', 'd', 'r']
}

/// `l[i..k]` is the first token of `l` that reads `lladdr`.
pub open spec fn first_marker_at(l: Seq<char>, i: int, k: int) -> bool {
    &&& token_span(l, i, k)
    &&& l.subrange(i, k) == lladdr_word()
    &&& forall|i2: int, k2: int|
        #![trigger token_span(l, i2, k2)]
        token_span(l, i2, k2) && i2 < i ==> l.subrange(i2, k2) != lladdr_word()
}

/// `l[i..k]` is the first token of `l` that starts at or after `from`.
pub open spec fn next_token_at(l: Seq<char>, from: int, i: int, k: int) -> bool {
    &&& token_span(l, i, k)
    &&& from <= i
    &&& forall|m: int| from <= m < i ==> is_space(l[m])
}

/// `t` places the first `lladdr` token of `l` at `l[t.0..t.1]` and the
/// token after it at `l[t.2..t.3]`.
pub open spec fn lladdr_pick(l: Seq<char>, t: (int, int, int, int)) -> bool {
    first_marker_at(l, t.0, t.1) && next_token_at(l, t.1, t.2, t.3)
}

/// The token that follows the first `lladdr` token of the line `l`, if both exist.
pub open spec fn lladdr_token(l: Seq<char>) -> Option<Seq<char>> {
    if exists|t: (int, int, int, int)| lladdr_pick(l, t) {
        let t = choose|t: (int, int, int, int)| lladdr_pick(l, t);
        Some(l.subrange(t.2, t.3))
    } else {
        None
    }
}

proof fn lemma_marker_unique(l: Seq<char>, i: int, k: int, i2: int, k2: int)
    requires
        first_marker_at(l, i, k),
        first_marker_at(l, i2, k2),
    ensures
        i == i2 && k == k2,
{
    if i < i2 {
        assert(token_span(l, i, k));
    } else if i2 < i {
        assert(token_span(l, i2, k2));
    }
    lemma_token_span_unique(l, i, k, k2);
}

proof fn lemma_lladdr_is(l: Seq<char>, i: int, k: int, i2: int, k2: int)
    requires
        first_marker_at(l, i, k),
        next_token_at(l, k, i2, k2),
    ensures
        lladdr_token(l) == Some(l.subrange(i2, k2)),
{
    assert(lladdr_pick(l, (i, k, i2, k2)));
    let c = choose|t: (int, int, int, int)| lladdr_pick(l, t);
    lemma_marker_unique(l, i, k, c.0, c.1);
    if c.2 < i2 {
        assert(is_space(l[c.2]));
    } else if i2 < c.2 {
        assert(is_space(l[i2]));
    }
    lemma_token_span_unique(l, i2, k2, c.3);
}

proof fn lemma_lladdr_missing(l: Seq<char>, i: int, k: int)
    requires
        first_marker_at(l, i, k),
        forall|m: int| k <= m < l.len() ==> is_space(l[m]),
    ensures
        lladdr_token(l) is None,
{
    if exists|t: (int, int, int, int)| lladdr_pick(l, t) {
        let c = choose|t: (int, int, int, int)| lladdr_pick(l, t);
        lemma_marker_unique(l, i, k, c.0, c.1);
        assert(!is_space(l[c.2]));
    }
}

/// Whether `l[a..b]` reads `lladdr`.
fn is_marker(l: &Vec<char>, a: usize, b: usize) -> (r: bool)
    requires
        a <= b <= l.len(),
    ensures
        r == (l@.subrange(a as int, b as int) == lladdr_word()),
{
    let ghost t = l@.subrange(a as int, b as int);
    if b - a != 6 {
        assert(t.len() != lladdr_word().len());
        return false;
    }
    let r = l[a] == 'l' && l[a + 1] == 'l' && l[a + 2] == 'a' && l[a + 3] == 'd' && l[a + 4] == 'd'
        && l[a + 5] == 'r';
    proof {
        if r {
            assert(t =~= lladdr_word());
        } else {
            if t == lladdr_word() {
                assert(t[0] == 'l' && t[1] == 'l' && t[2] == 'a' && t[3] == 'd' && t[4] == 'd'
                    && t[5] == 'r');
            }
        }
    }
    r
}

/// The token after the first `lladdr` token of the line `l`.
pub fn find_lladdr_token(l: &Vec<char>) -> (r: Option<Vec<char>>)
    ensures
        match r {
            Some(t) => lladdr_token(l@) == Some(t@),
            None => lladdr_token(l@) is None,
        },
{
    let n: usize = l.len();
    let mut p: usize = 0;
    while p < n
        invariant
            n == l.len(),
            p <= n,
            p == 0 || is_space(l@[p - 1]) || p == n || is_space(l@[p as int]),
            forall|i2: int, k2: int|
                #![trigger token_span(l@, i2, k2)]
                token_span(l@, i2, k2) && i2 < p ==> l@.subrange(i2, k2) != lladdr_word(),
        decreases n - p,
    {
        if space(l[p]) {
            p = p + 1;
        } else {
            let k: usize = token_end(l, p);
            assert(token_span(l@, p as int, k as int));
            if is_marker(l, p, k) {
                assert(first_marker_at(l@, p as int, k as int));
                let mut q: usize = k;
                while q < n && space(l[q])
                    invariant
                        k <= q <= n,
                        n == l.len(),
                        forall|m: int| k <= m < q ==> is_space(l@[m]),
                    decreases n - q,
                {
                    q = q + 1;
                }
                if q == n {
                    proof {
                        lemma_lladdr_missing(l@, p as int, k as int);
                    }
                    return None;
                }
                let e: usize = token_end(l, q);
                assert(next_token_at(l@, k as int, q as int, e as int));
                proof {
                    lemma_lladdr_is(l@, p as int, k as int, q as int, e as int);
                }
                return Some(copy_range(l, q, e));
            }
            assert forall|i2: int, k2: int|
                #![trigger token_span(l@, i2, k2)]
                token_span(l@, i2, k2) && i2 < k implies l@.subrange(i2, k2) != lladdr_word() by {
                if p < i2 < k {
                    assert(!is_space(l@[i2 - 1]));
                } else if i2 == p {
                    lemma_token_span_unique(l@, p as int, k as int, k2);
                }
            }
            p = k;
        }
    }
    proof {
        if exists|t: (int, int, int, int)| lladdr_pick(l@, t) {
            let c = choose|t: (int, int, int, int)| lladdr_pick(l@, t);
            assert(token_span(l@, c.0, c.1));
        }
    }
    None
}


/// A hexadecimal digit, in either case.
pub open spec fn is_hex_digit(c: char) -> bool {
    ('0' <= c && c <= '9') || ('a' <= c && c <= 'f') || ('A' <= c && c <= 'F')
}

/// Six pairs of hex digits, joined by `sep`.
pub open spec fn is_mac_text(t: Seq<char>, sep: char) -> bool {
    &&& t.len() == 17
    &&& forall|i: int| 0 <= i < 17 ==> if i % 3 == 2 { t[i] == sep } else { is_hex_digit(#[trigger] t[i]) }
}

/// Canonical form: six pairs of lowercase hex digits joined by `:`.
pub open spec fn is_canonical_mac(t: Seq<char>) -> bool {
    &&& is_mac_text(t, ':')
    &&& forall|i: int| 0 <= i < 17 ==> !('A' <= #[trigger] t[i] && t[i] <= 'F')
}

/// `t` with each `-` turned into `:`.
pub open spec fn hyphens_to_colons(t: Seq<char>) -> Seq<char> {
    t.map_values(|c: char| if c == '-' { ':' } else { c })
}

/// Normal form of an address token: `-` becomes `:`, then the text is lowercased.
pub open spec fn normalized_mac(t: Seq<char>) -> Seq<char> {
    lower_of(hyphens_to_colons(t))
}

/// Turns `-` into `:` and lowercases. A hyphen- or colon-separated address
/// comes out in canonical form, with the same digits up to case.
pub fn normalize_mac(t: &Vec<char>) -> (r: String)
    ensures
        r@ == normalized_mac(t@),
        is_mac_text(t@, '-') || is_mac_text(t@, ':') ==> is_canonical_mac(r@),
        is_mac_text(t@, '-') || is_mac_text(t@, ':') ==> forall|i: int|
            0 <= i < 17 && i % 3 != 2 ==> r@[i] == ascii_lower(#[trigger] t@[i]),
{
    let mut v: Vec<char> = Vec::new();
    let mut i: usize = 0;
    while i < t.len()
        invariant
            i <= t.len(),
            v@ == hyphens_to_colons(t@).take(i as int),
        decreases t.len() - i,
    {
        let c = t[i];
        if c == '-' {
            v.push(':');
        } else {
            v.push(c);
        }
        i = i + 1;
        assert(v@ =~= hyphens_to_colons(t@).take(i as int));
    }
    assert(hyphens_to_colons(t@).take(t.len() as int) =~= hyphens_to_colons(t@));
    let s = string_of(&v);
    let r = lowercase(s.as_str());
    proof {
        let h = hyphens_to_colons(t@);
        if is_mac_text(t@, '-') || is_mac_text(t@, ':') {
            assert forall|j: int| 0 <= j < h.len() implies (h[j] as u32) < 0x80 by {
                assert(is_hex_digit(t@[j]) || t@[j] == '-' || t@[j] == ':');
            }
            assert(all_ascii(h));
            assert forall|j: int| 0 <= j < 17 implies if j % 3 == 2 { r@[j] == ':' } else {
                is_hex_digit(#[trigger] r@[j])
            } by {
                assert(is_hex_digit(t@[j]) || t@[j] == '-' || t@[j] == ':');
            }
        }
    }
    r
}

} // verus!

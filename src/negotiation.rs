use vstd::prelude::*;

use crate::media::utf8;

verus! {

/// The two content codings this library negotiates.
#[derive(Clone, Copy, Debug, PartialEq, Eq, Hash, Structural)]
pub enum Algorithm {
    Gzip,
    Brotli,
}

/// The token that names a coding in `Content-Encoding` and `Accept-Encoding`.
pub open spec fn wire_name_of(a: Algorithm) -> Seq<char> {
    match a {
        Algorithm::Gzip => "gzip"@,
        Algorithm::Brotli => "br"@,
    }
}

/// Brotli wins whenever the client takes it; gzip is used otherwise.
pub open spec fn preferred(accepts_gzip: bool, accepts_br: bool) -> Algorithm {
    if accepts_br {
        Algorithm::Brotli
    } else {
        Algorithm::Gzip
    }
}

impl Algorithm {
    pub fn wire_name(&self) -> (r: &'static str)
        ensures
            r@ == wire_name_of(*self),
    {
        match self {
            Algorithm::Gzip => "gzip",
            Algorithm::Brotli => "br",
        }
    }
}

/// Picks the coding for a client that accepts `gzip` and/or `br`.
pub fn select_algorithm(accepts_gzip: bool, accepts_br: bool) -> (r: Algorithm)
    ensures
        r == preferred(accepts_gzip, accepts_br),
        accepts_br ==> r == Algorithm::Brotli,
        !accepts_br ==> r == Algorithm::Gzip,
{
    if accepts_br {
        Algorithm::Brotli
    } else {
        Algorithm::Gzip
    }
}

/// ASCII whitespace, which is what surrounds a token in a header list.
pub open spec fn is_space(b: u8) -> bool {
    b == 32 || b == 9 || b == 10 || b == 11 || b == 12 || b == 13
}

/// `v[i..j]` is one whole entry of the comma-separated list `v`.
pub open spec fn is_segment(v: Seq<u8>, i: int, j: int) -> bool {
    &&& 0 <= i <= j <= v.len()
    &&& i == 0 || v[i - 1] == 44
    &&& j == v.len() || v[j] == 44
    &&& forall|k: int| i <= k < j ==> v[k] != 44
}

/// `s` is `tok` with whitespace before and after.
pub open spec fn trims_to(s: Seq<u8>, tok: Seq<u8>) -> bool {
    exists|a: int, b: int|
        #![trigger s.subrange(a, b)]
        0 <= a <= b <= s.len() && (forall|k: int| 0 <= k < a ==> is_space(s[k])) && (forall|k: int|
            b <= k < s.len() ==> is_space(s[k])) && s.subrange(a, b) == tok
}

/// Some entry of the comma-separated list `v`, trimmed, is `tok`.
pub open spec fn lists_token(v: Seq<u8>, tok: Seq<u8>) -> bool {
    exists|i: int, j: int| #[trigger] is_segment(v, i, j) && trims_to(v.subrange(i, j), tok)
}

/// Some header value lists `tok`.
pub open spec fn any_lists(values: Seq<String>, tok: Seq<u8>) -> bool {
    exists|n: int| 0 <= n < values.len() && lists_token(utf8(#[trigger] values[n]@), tok)
}

/// The bytes of the token `gzip`.
pub open spec fn gzip_token() -> Seq<u8> {
    seq![103u8, 122u8, 105u8, 112u8]
}

/// The bytes of the token `br`.
pub open spec fn br_token() -> Seq<u8> {
    seq![98u8, 114u8]
}

/// A token that neither is empty nor starts or ends with whitespace.
pub open spec fn is_bare_token(tok: Seq<u8>) -> bool {
    tok.len() > 0 && !is_space(tok[0]) && !is_space(tok[tok.len() - 1])
}

fn space_byte(b: u8) -> (r: bool)
    ensures
        r == is_space(b),
{
    b == 32 || b == 9 || b == 10 || b == 11 || b == 12 || b == 13
}

fn equal_at(v: &[u8], a: usize, tok: &[u8]) -> (r: bool)
    requires
        a + tok@.len() <= v@.len(),
    ensures
        r == (v@.subrange(a as int, a + tok@.len()) == tok@),
{
    let n: usize = v.len();
    let mut k: usize = 0;
    while k < tok.len()
        invariant
            n == v@.len(),
            a + tok@.len() <= v@.len(),
            0 <= k <= tok@.len(),
            forall|m: int| 0 <= m < k ==> v@[a + m] == tok@[m],
        decreases tok@.len() - k,
    {
        if v[a + k] != tok[k] {
            assert(v@.subrange(a as int, a + tok@.len())[k as int] != tok@[k as int]);
            return false;
        }
        k = k + 1;
    }
    assert(v@.subrange(a as int, a + tok@.len()) =~= tok@);
    true
}

fn segment_trims_to(v: &[u8], i: usize, j: usize, tok: &[u8]) -> (r: bool)
    requires
        i <= j <= v@.len(),
        is_bare_token(tok@),
    ensures
        r == trims_to(v@.subrange(i as int, j as int), tok@),
{
    let ghost s = v@.subrange(i as int, j as int);
    let mut a: usize = i;
    while a < j && space_byte(v[a])
        invariant
            i <= a <= j <= v@.len(),
            forall|k: int| i <= k < a ==> is_space(v@[k]),
        decreases j - a,
    {
        a = a + 1;
    }
    let mut b: usize = j;
    while b > a && space_byte(v[b - 1])
        invariant
            i <= a <= b <= j <= v@.len(),
            forall|k: int| b <= k < j ==> is_space(v@[k]),
        decreases b - a,
    {
        b = b - 1;
    }
    let same = b - a == tok.len() && equal_at(v, a, tok);
    assert(s == v@.subrange(i as int, j as int));
    proof {
        if same {
            assert(s.subrange(a - i, b - i) =~= v@.subrange(a as int, b as int));
        }
    }
    proof {
        if same {
            assert(s.subrange(a - i, b - i) == tok@);
        } else {
            if trims_to(s, tok@) {
                let (a2, b2) = choose|a2: int, b2: int|
                    #![trigger s.subrange(a2, b2)]
                    0 <= a2 <= b2 <= s.len() && (forall|k: int| 0 <= k < a2 ==> is_space(s[k])) && (
                    forall|k: int| b2 <= k < s.len() ==> is_space(s[k])) && s.subrange(a2, b2) == tok@;
                assert(s.subrange(a2, b2)[0] == tok@[0]);
                assert(!is_space(s[a2]));
                assert(s.subrange(a2, b2)[b2 - a2 - 1] == tok@[tok@.len() - 1]);
                assert(!is_space(s[b2 - 1]));
                if a - i < a2 {
                    assert(is_space(s[a - i]));
                }
                if a - i > a2 {
                    assert(is_space(v@[i + a2]));
                }
                assert(a - i == a2);
                if b - i < b2 {
                    assert(is_space(v@[i + b2 - 1]));
                }
                if b - i > b2 {
                    assert(is_space(s[b - i - 1]));
                }
                assert(b - i == b2);
                assert(s.subrange(a2, b2) =~= v@.subrange(a as int, b as int));
                assert(false);
            }
        }
    }
    same
}

fn lists(v: &[u8], tok: &[u8]) -> (r: bool)
    requires
        is_bare_token(tok@),
    ensures
        r == lists_token(v@, tok@),
{
    let n: usize = v.len();
    let mut start: usize = 0;
    let mut p: usize = 0;
    while p < n
        invariant
            n == v@.len(),
            is_bare_token(tok@),
            start <= p <= n,
            start == 0 || v@[start - 1] == 44,
            forall|k: int| start <= k < p ==> v@[k] != 44,
            forall|i: int, j: int|
                #[trigger] is_segment(v@, i, j) && j < start ==> !trims_to(v@.subrange(i, j), tok@),
        decreases n - p,
    {
        if v[p] == 44 {
            assert(is_segment(v@, start as int, p as int));
            if segment_trims_to(v, start, p, tok) {
                return true;
            }
            assert forall|i: int, j: int| #[trigger] is_segment(v@, i, j) && j < p + 1 implies !trims_to(
                v@.subrange(i, j),
                tok@,
            ) by {
                if j >= start {
                    assert(j == p);
                    if i < start {
                        assert(v@[start - 1] != 44);
                    }
                    if i > start {
                        assert(v@[i - 1] != 44);
                    }
                }
            }
            start = p + 1;
        }
        p = p + 1;
    }
    assert(is_segment(v@, start as int, n as int));
    let r = segment_trims_to(v, start, n, tok);
    proof {
        assert forall|i: int, j: int| #[trigger] is_segment(v@, i, j) implies !trims_to(v@.subrange(i, j), tok@)
            || r by {
            if j >= start {
                if j < n {
                    assert(v@[j] != 44);
                }
                if i < start {
                    assert(v@[start - 1] != 44);
                }
                if i > start {
                    assert(v@[i - 1] != 44);
                }
            }
        }
    }
    r
}

/// Whether the client accepts gzip and whether it accepts brotli, read from its
/// `Accept-Encoding` header values: a coding counts when some comma-separated
/// entry of some value is exactly its token once surrounding whitespace is removed.
pub fn accepted_algorithms(values: &Vec<String>) -> (r: (bool, bool))
    ensures
        r.0 == any_lists(values@, gzip_token()),
        r.1 == any_lists(values@, br_token()),
{
    let gzip: Vec<u8> = vec![103u8, 122u8, 105u8, 112u8];
    let br: Vec<u8> = vec![98u8, 114u8];
    assert(gzip@ =~= gzip_token());
    assert(br@ =~= br_token());
    let mut accepts_gzip = false;
    let mut accepts_br = false;
    let mut n: usize = 0;
    while n < values.len()
        invariant
            0 <= n <= values@.len(),
            gzip@ == gzip_token(),
            br@ == br_token(),
            accepts_gzip == exists|m: int| 0 <= m < n && lists_token(utf8(#[trigger] values@[m]@), gzip_token()),
            accepts_br == exists|m: int| 0 <= m < n && lists_token(utf8(#[trigger] values@[m]@), br_token()),
        decreases values@.len() - n,
    {
        let bytes = values[n].as_str().as_bytes();
        let g = lists(bytes, gzip.as_slice());
        let b = lists(bytes, br.as_slice());
        assert(bytes@ == utf8(values@[n as int]@));
        accepts_gzip = accepts_gzip || g;
        accepts_br = accepts_br || b;
        n = n + 1;
    }
    (accepts_gzip, accepts_br)
}

} // verus!

//! Byte-string helpers: ASCII case folding, equality, and decimal rendering.
//!
//! Header names compare case-insensitively, and a corrected `Content-Length`
//! value has to be rendered as decimal digits; both are defined here against
//! small mathematical models.
use vstd::prelude::*;

verus! {

/// ASCII case folding of one byte: an uppercase letter maps to its lowercase
/// counterpart, every other byte is unchanged.
pub open spec fn lower_byte(b: u8) -> u8 {
    if 65 <= b && b <= 90 {
        (b + 32) as u8
    } else {
        b
    }
}

/// ASCII case folding of a byte string.
pub open spec fn lower_bytes(s: Seq<u8>) -> Seq<u8> {
    s.map_values(|b: u8| lower_byte(b))
}

/// Compares two byte strings exactly.
pub fn bytes_eq(a: &Vec<u8>, b: &Vec<u8>) -> (r: bool)
    ensures
        r == (a@ == b@),
{
    if a.len() != b.len() {
        return false;
    }
    let mut i: usize = 0;
    while i < a.len()
        invariant
            i <= a.len(),
            a@.len() == b@.len(),
            forall|k: int| 0 <= k < i ==> a@[k] == b@[k],
        decreases a.len() - i,
    {
        if a[i] != b[i] {
            return false;
        }
        i = i + 1;
    }
    proof {
        assert(a@ =~= b@);
    }
    true
}

/// Compares two byte strings up to ASCII case.
pub fn bytes_eq_nocase(a: &Vec<u8>, b: &Vec<u8>) -> (r: bool)
    ensures
        r == (lower_bytes(a@) == lower_bytes(b@)),
{
    if a.len() != b.len() {
        proof {
            assert(lower_bytes(a@).len() != lower_bytes(b@).len());
        }
        return false;
    }
    let mut i: usize = 0;
    while i < a.len()
        invariant
            i <= a.len(),
            a@.len() == b@.len(),
            forall|k: int| 0 <= k < i ==> lower_byte(a@[k]) == lower_byte(b@[k]),
        decreases a.len() - i,
    {
        let x = a[i];
        let y = b[i];
        let lx = if 65 <= x && x <= 90 { x + 32 } else { x };
        let ly = if 65 <= y && y <= 90 { y + 32 } else { y };
        if lx != ly {
            proof {
                assert(lower_bytes(a@)[i as int] != lower_bytes(b@)[i as int]);
            }
            return false;
        }
        i = i + 1;
    }
    proof {
        assert(lower_bytes(a@) =~= lower_bytes(b@));
    }
    true
}

/// Linear whitespace inside a header value: space or horizontal tab.
pub open spec fn is_ws(b: u8) -> bool {
    b == 32 || b == 9
}

/// A byte string with leading whitespace dropped.
pub open spec fn trim_front(s: Seq<u8>) -> Seq<u8>
    decreases s.len(),
{
    if s.len() > 0 && is_ws(s[0]) {
        trim_front(s.drop_first())
    } else {
        s
    }
}

/// A byte string with trailing whitespace dropped.
pub open spec fn trim_back(s: Seq<u8>) -> Seq<u8>
    decreases s.len(),
{
    if s.len() > 0 && is_ws(s.last()) {
        trim_back(s.drop_last())
    } else {
        s
    }
}

/// A byte string with leading and trailing whitespace dropped.
pub open spec fn trim(s: Seq<u8>) -> Seq<u8> {
    trim_back(trim_front(s))
}

proof fn lemma_trim_front_skip(s: Seq<u8>, j: int)
    requires
        0 <= j <= s.len(),
        forall|k: int| 0 <= k < j ==> is_ws(s[k]),
        j == s.len() || !is_ws(s[j]),
    ensures
        trim_front(s) == s.skip(j),
    decreases j,
{
    if j == 0 {
        assert(s.skip(0) =~= s);
    } else {
        lemma_trim_front_skip(s.drop_first(), j - 1);
        assert(s.drop_first().skip(j - 1) =~= s.skip(j));
    }
}

proof fn lemma_trim_back_take(s: Seq<u8>, j: int)
    requires
        0 <= j <= s.len(),
        forall|k: int| j <= k < s.len() ==> is_ws(s[k]),
        j == 0 || !is_ws(s[j - 1]),
    ensures
        trim_back(s) == s.take(j),
    decreases s.len(),
{
    if j == s.len() {
        if s.len() > 0 && is_ws(s.last()) {
            assert(false);
        }
        assert(s.take(j) =~= s);
    } else {
        lemma_trim_back_take(s.drop_last(), j);
        assert(s.drop_last().take(j) =~= s.take(j));
    }
}

/// Drops leading and trailing whitespace from a byte string.
pub fn trim_exec(s: &Vec<u8>) -> (r: Vec<u8>)
    ensures
        r@ == trim(s@),
{
    let mut lo: usize = 0;
    while lo < s.len() && (s[lo] == 32 || s[lo] == 9)
        invariant
            lo <= s@.len(),
            forall|k: int| 0 <= k < lo ==> is_ws(s@[k]),
        decreases s.len() - lo,
    {
        lo = lo + 1;
    }
    let mut hi: usize = s.len();
    while hi > lo && (s[hi - 1] == 32 || s[hi - 1] == 9)
        invariant
            lo <= hi <= s@.len(),
            forall|k: int| 0 <= k < lo ==> is_ws(s@[k]),
            forall|k: int| hi <= k < s@.len() ==> is_ws(s@[k]),
        decreases hi,
    {
        hi = hi - 1;
    }
    let mut out: Vec<u8> = Vec::new();
    let mut i: usize = lo;
    while i < hi
        invariant
            lo <= i <= hi <= s@.len(),
            out@.len() == i - lo,
            forall|k: int| 0 <= k < out@.len() ==> out@[k] == s@[lo + k],
        decreases hi - i,
    {
        out.push(s[i]);
        i = i + 1;
    }
    proof {
        lemma_trim_front_skip(s@, lo as int);
        let t = s@.skip(lo as int);
        assert(forall|k: int| (hi - lo) <= k < t.len() ==> is_ws(#[trigger] t[k]));
        if hi > lo {
            assert(!is_ws(t[hi - lo - 1]));
        }
        lemma_trim_back_take(t, hi - lo);
        assert(out@ =~= t.take(hi - lo));
    }
    out
}

/// The decimal digit string of a natural number, most significant digit first.
pub open spec fn dec_of(n: nat) -> Seq<u8>
    decreases n,
{
    if n < 10 {
        seq![(48 + n) as u8]
    } else {
        dec_of(n / 10) + seq![(48 + n % 10) as u8]
    }
}

/// Renders a number as its decimal digit string.
pub fn render_decimal(n: usize) -> (r: Vec<u8>)
    ensures
        r@ == dec_of(n as nat),
{
    let mut tmp: Vec<u8> = Vec::new();
    let mut m: usize = n;
    proof {
        assert(dec_of(n as nat) =~= dec_of(n as nat) + tmp@.reverse());
    }
    while m >= 10
        invariant
            dec_of(n as nat) == dec_of(m as nat) + tmp@.reverse(),
        decreases m,
    {
        let ghost pre = tmp@;
        let d: u8 = (m % 10) as u8 + 48;
        tmp.push(d);
        proof {
            assert(tmp@.reverse() =~= seq![d] + pre.reverse());
            assert(dec_of(m as nat) == dec_of((m as nat) / 10) + seq![d]);
            assert(dec_of((m as nat) / 10) + (seq![d] + pre.reverse()) =~= dec_of(m as nat)
                + pre.reverse());
            assert((m as nat) / 10 == (m / 10) as nat);
        }
        m = m / 10;
    }
    let ghost pre = tmp@;
    let last: u8 = m as u8 + 48;
    tmp.push(last);
    proof {
        assert(dec_of(m as nat) == seq![last]);
        assert(tmp@.reverse() =~= seq![last] + pre.reverse());
        assert(seq![last] + pre.reverse() =~= dec_of(m as nat) + pre.reverse());
    }
    let mut out: Vec<u8> = Vec::new();
    let mut j: usize = tmp.len();
    while j > 0
        invariant
            j <= tmp@.len(),
            out@.len() == tmp@.len() - j,
            forall|k: int| 0 <= k < out@.len() ==> out@[k] == tmp@[tmp@.len() - 1 - k],
        decreases j,
    {
        j = j - 1;
        out.push(tmp[j]);
    }
    proof {
        assert(out@ =~= tmp@.reverse());
    }
    out
}

} // verus!

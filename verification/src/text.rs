//! Character-level text utilities: whitespace trimming, splitting on a
//! pattern, single-character replacement and decimal rendering of integers.

use vstd::prelude::*;
use vstd::utf8::encode_utf8;

verus! {

/// Unicode `White_Space` code points, the set that `char::is_whitespace` and
/// `str::trim` use.
pub open spec fn is_white_space(c: char) -> bool {
    let u = c as u32;
    ||| 0x09 <= u <= 0x0d
    ||| u == 0x20
    ||| u == 0x85
    ||| u == 0xa0
    ||| u == 0x1680
    ||| 0x2000 <= u <= 0x200a
    ||| u == 0x2028
    ||| u == 0x2029
    ||| u == 0x202f
    ||| u == 0x205f
    ||| u == 0x3000
}

/// `s` without its leading white space.
pub open spec fn trim_start(s: Seq<char>) -> Seq<char>
    decreases s.len(),
{
    if s.len() > 0 && is_white_space(s[0]) {
        trim_start(s.drop_first())
    } else {
        s
    }
}

/// `s` without its trailing white space.
pub open spec fn trim_end(s: Seq<char>) -> Seq<char>
    decreases s.len(),
{
    if s.len() > 0 && is_white_space(s.last()) {
        trim_end(s.drop_last())
    } else {
        s
    }
}

/// `s` without leading and trailing white space, as `str::trim` gives it.
pub open spec fn trim(s: Seq<char>) -> Seq<char> {
    trim_end(trim_start(s))
}

pub fn char_is_white_space(c: char) -> (r: bool)
    ensures
        r == is_white_space(c),
{
    let u = c as u32;
    (0x09 <= u && u <= 0x0d) || u == 0x20 || u == 0x85 || u == 0xa0 || u == 0x1680 || (0x2000
        <= u && u <= 0x200a) || u == 0x2028 || u == 0x2029 || u == 0x202f || u == 0x205f || u
        == 0x3000
}

/// Appends one character to a string (std `String::push`).
#[verifier::external_body]
pub(crate) fn push_char(s: &mut String, c: char)
    ensures
        final(s)@ == old(s)@.push(c),
{
    s.push(c);
}

/// The characters of `s`, in order.
pub fn chars_of(s: &str) -> (r: Vec<char>)
    ensures
        r@ == s@,
{
    let mut r: Vec<char> = Vec::new();
    for c in it: s.chars()
        invariant
            r@ == it.seq().take(it.index() as int),
    {
        r.push(c);
    }
    r
}


/// The first position at or after `i` where `p` occurs in `s`.
pub open spec fn find_from(s: Seq<char>, p: Seq<char>, i: int) -> Option<int>
    decreases s.len() + 1 - i,
{
    if i < 0 || i + p.len() > s.len() {
        None
    } else if s.subrange(i, i + p.len()) == p {
        Some(i)
    } else {
        find_from(s, p, i + 1)
    }
}

/// The first position where `p` occurs in `s` (`str::find`).
pub open spec fn find(s: Seq<char>, p: Seq<char>) -> Option<int> {
    find_from(s, p, 0)
}

/// The pieces that `str::splitn(n, p)` yields for a non-empty pattern `p`:
/// at most `n` pieces, split at the leftmost occurrences of `p`, the last
/// piece holding the rest of `s`.
pub open spec fn splitn(s: Seq<char>, n: nat, p: Seq<char>) -> Seq<Seq<char>>
    decreases n,
{
    if n == 0 {
        Seq::empty()
    } else if n == 1 {
        seq![s]
    } else {
        match find(s, p) {
            None => seq![s],
            Some(i) => seq![s.take(i)] + splitn(s.skip(i + p.len()), (n - 1) as nat, p),
        }
    }
}

/// `s` with every occurrence of the character `c` replaced by `r`
/// (`str::replace` with a one-character pattern).
pub open spec fn replace_char(s: Seq<char>, c: char, r: Seq<char>) -> Seq<char>
    decreases s.len(),
{
    if s.len() == 0 {
        s
    } else {
        replace_char(s.drop_last(), c, r) + if s.last() == c {
            r
        } else {
            seq![s.last()]
        }
    }
}

/// The decimal digit for `d < 10`.
pub open spec fn digit_char(d: nat) -> char {
    (48 + d) as char
}

/// The decimal rendering of a natural number, without leading zeros.
pub open spec fn decimal(n: nat) -> Seq<char>
    decreases n,
{
    if n < 10 {
        seq![digit_char(n)]
    } else {
        decimal(n / 10).push(digit_char(n % 10))
    }
}

/// The decimal rendering of an integer, with a leading `-` when negative.
pub open spec fn signed_decimal(n: int) -> Seq<char> {
    if n < 0 {
        seq!['-'] + decimal((-n) as nat)
    } else {
        decimal(n as nat)
    }
}

/// `splitn` with `n >= 1` gives between one and `n` pieces.
pub proof fn lemma_splitn_len(s: Seq<char>, n: nat, p: Seq<char>)
    requires
        n >= 1,
    ensures
        1 <= splitn(s, n, p).len() <= n,
    decreases n,
{
    if n > 1 {
        match find(s, p) {
            None => {},
            Some(i) => {
                lemma_splitn_len(s.skip(i + p.len()), (n - 1) as nat, p);
            },
        }
    }
}

/// The characters of `v` from `lo` up to `hi`.
pub fn slice_chars(v: &Vec<char>, lo: usize, hi: usize) -> (r: Vec<char>)
    requires
        lo <= hi <= v.len(),
    ensures
        r@ == v@.subrange(lo as int, hi as int),
{
    let mut r: Vec<char> = Vec::new();
    let mut i = lo;
    while i < hi
        invariant
            lo <= i <= hi <= v.len(),
            r@ == v@.subrange(lo as int, i as int),
        decreases hi - i,
    {
        r.push(v[i]);
        i = i + 1;
    }
    r
}

/// A string holding the characters of `v`.
pub fn string_of(v: &Vec<char>) -> (r: String)
    ensures
        r@ == v@,
{
    let mut r = String::new();
    let mut i: usize = 0;
    while i < v.len()
        invariant
            i <= v.len(),
            r@ == v@.take(i as int),
        decreases v.len() - i,
    {
        push_char(&mut r, v[i]);
        i = i + 1;
        assert(v@.take(i as int) == v@.take(i - 1).push(v@[i - 1]));
    }
    assert(v@.take(v.len() as int) == v@);
    r
}

proof fn lemma_trim_start_step(s: Seq<char>, i: int)
    requires
        0 <= i < s.len(),
        is_white_space(s[i]),
    ensures
        trim_start(s.skip(i)) == trim_start(s.skip(i + 1)),
{
    assert(s.skip(i).drop_first() == s.skip(i + 1));
}

proof fn lemma_trim_end_step(s: Seq<char>, j: int)
    requires
        0 < j <= s.len(),
        is_white_space(s[j - 1]),
    ensures
        trim_end(s.take(j)) == trim_end(s.take(j - 1)),
{
    assert(s.take(j).drop_last() == s.take(j - 1));
}

/// `v` without leading and trailing white space.
pub fn trim_chars(v: &Vec<char>) -> (r: Vec<char>)
    ensures
        r@ == trim(v@),
{
    let mut lo: usize = 0;
    assert(v@.skip(0) == v@);
    while lo < v.len() && char_is_white_space(v[lo])
        invariant
            lo <= v.len(),
            trim_start(v@) == trim_start(v@.skip(lo as int)),
        decreases v.len() - lo,
    {
        proof {
            lemma_trim_start_step(v@, lo as int);
        }
        lo = lo + 1;
    }
    let ghost t = v@.skip(lo as int);
    assert(trim_start(v@) == t);
    let mut hi: usize = v.len();
    assert(t.take(t.len() as int) == t);
    while hi > lo && char_is_white_space(v[hi - 1])
        invariant
            lo <= hi <= v.len(),
            t == v@.skip(lo as int),
            trim_end(t) == trim_end(t.take(hi - lo)),
        decreases hi,
    {
        proof {
            lemma_trim_end_step(t, hi - lo);
        }
        hi = hi - 1;
    }
    let r = slice_chars(v, lo, hi);
    assert(r@ == t.take(hi - lo));
    r
}

/// The first position where `p` occurs in `v`.
pub fn find_chars(v: &Vec<char>, p: &Vec<char>) -> (r: Option<usize>)
    ensures
        match r {
            Some(i) => find(v@, p@) == Some(i as int) && i + p.len() <= v.len(),
            None => find(v@, p@) is None,
        },
{
    if p.len() > v.len() {
        return None;
    }
    let mut i: usize = 0;
    while i <= v.len() - p.len()
        invariant
            p.len() <= v.len(),
            i <= v.len(),
            find(v@, p@) == find_from(v@, p@, i as int),
        decreases v.len() - i,
    {
        let mut j: usize = 0;
        let mut same = true;
        assert(v@.subrange(i as int, i as int) == p@.take(0));
        while j < p.len()
            invariant
                i + p.len() <= v.len(),
                j <= p.len(),
                same <==> v@.subrange(i as int, i + j) == p@.take(j as int),
            decreases p.len() - j,
        {
            if v[i + j] != p[j] {
                same = false;
                assert(v@.subrange(i as int, i + j + 1)[j as int] != p@.take(j + 1)[j as int]);
            } else if same {
                assert(v@.subrange(i as int, i + j + 1) == v@.subrange(i as int, i + j).push(
                    v@[i + j],
                ));
                assert(p@.take(j + 1) == p@.take(j as int).push(p@[j as int]));
            }
            if !same {
                assert(v@.subrange(i as int, i + j + 1) != p@.take(j + 1)) by {
                    if v@.subrange(i as int, i + j + 1) == p@.take(j + 1) {
                        assert(v@.subrange(i as int, i + j) == v@.subrange(i as int, i + j
                            + 1).take(j as int));
                        assert(p@.take(j as int) == p@.take(j + 1).take(j as int));
                    }
                }
            }
            j = j + 1;
        }
        assert(p@.take(p.len() as int) == p@);
        if same {
            return Some(i);
        }
        i = i + 1;
    }
    None
}

/// The pieces of `v` split at the leftmost occurrences of the non-empty
/// pattern `p`, at most `n` of them (`str::splitn`).
pub fn splitn_chars(v: &Vec<char>, n: usize, p: &Vec<char>) -> (r: Vec<Vec<char>>)
    requires
        p.len() > 0,
    ensures
        r.deep_view() == splitn(v@, n as nat, p@),
{
    let mut pieces: Vec<Vec<char>> = Vec::new();
    if n == 0 {
        assert(pieces.deep_view() == Seq::<Seq<char>>::empty());
        return pieces;
    }
    let mut rest = slice_chars(v, 0, v.len());
    assert(rest@ == v@);
    assert(pieces.deep_view() + splitn(rest@, n as nat, p@) == splitn(v@, n as nat, p@));
    let mut left: usize = n;
    while left > 1
        invariant
            1 <= left <= n,
            p.len() > 0,
            pieces.deep_view() + splitn(rest@, left as nat, p@) == splitn(v@, n as nat, p@),
        decreases left,
    {
        match find_chars(&rest, p) {
            None => {
                assert(splitn(rest@, left as nat, p@) == splitn(rest@, 1, p@));
                left = 1;
            },
            Some(i) => {
                let head = slice_chars(&rest, 0, i);
                let tail = slice_chars(&rest, i + p.len(), rest.len());
                let ghost old_pieces = pieces.deep_view();
                let ghost hv = head@;
                assert(head.deep_view() =~= hv);
                pieces.push(head);
                assert(pieces.deep_view() =~= old_pieces.push(hv));
                assert(head@ == rest@.take(i as int));
                assert(tail@ == rest@.skip(i + p.len()));
                assert(splitn(rest@, left as nat, p@) == seq![head@] + splitn(
                    tail@,
                    (left - 1) as nat,
                    p@,
                ));
                assert(old_pieces + (seq![head@] + splitn(tail@, (left - 1) as nat, p@))
                    == old_pieces.push(head@) + splitn(tail@, (left - 1) as nat, p@));
                rest = tail;
                left = left - 1;
            },
        }
    }
    let ghost old_pieces = pieces.deep_view();
    let ghost last = rest@;
    assert(splitn(rest@, left as nat, p@) == seq![last]);
    assert(rest.deep_view() =~= last);
    pieces.push(rest);
    assert(pieces.deep_view() =~= old_pieces.push(last));
    assert(old_pieces + seq![last] == old_pieces.push(last));
    pieces
}


/// `v` with every occurrence of `c` replaced by the characters of `r`.
pub fn replace_char_chars(v: &Vec<char>, c: char, r: &Vec<char>) -> (out: Vec<char>)
    ensures
        out@ == replace_char(v@, c, r@),
{
    let mut out: Vec<char> = Vec::new();
    let mut i: usize = 0;
    assert(v@.take(0) == Seq::<char>::empty());
    while i < v.len()
        invariant
            i <= v.len(),
            out@ == replace_char(v@.take(i as int), c, r@),
        decreases v.len() - i,
    {
        assert(v@.take(i + 1).drop_last() == v@.take(i as int));
        if v[i] == c {
            let mut k: usize = 0;
            let ghost before = out@;
            while k < r.len()
                invariant
                    k <= r.len(),
                    out@ == before + r@.take(k as int),
                decreases r.len() - k,
            {
                out.push(r[k]);
                k = k + 1;
                assert(r@.take(k as int) == r@.take(k - 1).push(r@[k - 1]));
            }
            assert(r@.take(r.len() as int) == r@);
        } else {
            out.push(v[i]);
        }
        i = i + 1;
    }
    assert(v@.take(v.len() as int) == v@);
    out
}

/// The digit character for `d < 10`.
pub fn digit(d: u64) -> (c: char)
    requires
        d < 10,
    ensures
        c == digit_char(d as nat),
{
    let b: u8 = 48u8 + d as u8;
    b as char
}

/// Appends the decimal rendering of `n` to `s`.
pub fn push_decimal(s: &mut String, n: u64)
    ensures
        final(s)@ == old(s)@ + decimal(n as nat),
    decreases n,
{
    if n >= 10 {
        push_decimal(s, n / 10);
        push_char(s, digit(n % 10));
        assert(old(s)@ + decimal(n as nat) == old(s)@ + decimal((n / 10) as nat) + seq![
            digit_char((n % 10) as nat),
        ]);
    } else {
        push_char(s, digit(n));
    }
}

/// The decimal rendering of `n` (`usize::to_string`).
pub fn usize_to_string(n: usize) -> (r: String)
    ensures
        r@ == decimal(n as nat),
{
    let mut r = String::new();
    push_decimal(&mut r, n as u64);
    r
}

/// The decimal rendering of `n` (`i32::to_string`).
pub fn i32_to_string(n: i32) -> (r: String)
    ensures
        r@ == signed_decimal(n as int),
{
    let mut r = String::new();
    if n < 0 {
        push_char(&mut r, '-');
        let m: i64 = -(n as i64);
        push_decimal(&mut r, m as u64);
    } else {
        push_decimal(&mut r, n as u64);
    }
    r
}


/// Whether `char::is_numeric` holds of `c`: the character belongs to one of
/// Unicode's number categories (Nd, Nl, No).
pub uninterp spec fn numeric_char(c: char) -> bool;

/// `char::is_numeric`. Beyond naming its result, the contract states what
/// the documentation gives for ASCII: among ASCII characters exactly the
/// digits `0`..`9` are numeric. What it answers for other characters
/// (Unicode's number categories) is left to the name.
#[verifier::external_body]
pub(crate) fn char_is_numeric(c: char) -> (r: bool)
    ensures
        r == numeric_char(c),
        (c as u32) < 128 ==> (r <==> ('0' <= c && c <= '9')),
{
    c.is_numeric()
}

/// Whether every character of `s` is numeric.
pub open spec fn all_numeric(s: Seq<char>) -> bool {
    forall|i: int| 0 <= i < s.len() ==> #[trigger] numeric_char(s[i])
}

/// The number of UTF-8 bytes of a text, as `str::len` reports it (a
/// string held in memory always has fewer bytes than `usize::MAX`).
pub open spec fn byte_count(s: Seq<char>) -> int {
    (encode_utf8(s).len() as usize) as int
}

/// The number of bytes of the UTF-8 encoding of `s` (`str::len`).
pub fn byte_len(s: &String) -> (r: usize)
    ensures
        r == byte_count(s@),
{
    s.as_str().len()
}

/// Concatenation of the strings of `parts` with `sep` between neighbours
/// (`[String]::join`).
pub open spec fn join(parts: Seq<Seq<char>>, sep: Seq<char>) -> Seq<char>
    decreases parts.len(),
{
    if parts.len() == 0 {
        Seq::empty()
    } else if parts.len() == 1 {
        parts[0]
    } else {
        join(parts.drop_last(), sep) + sep + parts.last()
    }
}

} // verus!

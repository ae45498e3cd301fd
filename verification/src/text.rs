//! Character-level text handling shared by the parsers: whitespace, trimming,
//! splitting and unsigned number parsing, each with the meaning that Rust's
//! `str` methods give it.
use vstd::prelude::*;

verus! {

/// The characters of a string slice, in order.
pub fn str_chars(s: &str) -> (v: Vec<char>)
    ensures
        v@ == s@,
{
    let mut v: Vec<char> = Vec::new();
    for c in it: s.chars()
        invariant
            v@ == it.seq().take(it.index() as int),
    {
        v.push(c);
    }
    v
}

/// Unicode `White_Space`, the set that `char::is_whitespace` and the `\s`
/// class of regular expressions use.
pub open spec fn is_ws(c: char) -> bool {
    let u = c as u32;
    ||| 0x09 <= u <= 0x0d
    ||| u == 0x20
    ||| u == 0x85
    ||| u == 0xa0
    ||| u == 0x1680
    ||| 0x2000 <= u <= 0x200a
    ||| u == 0x2028
    ||| u == 0x2029
    ||| u == 0x202f
    ||| u == 0x205f
    ||| u == 0x3000
}

/// Whether `c` is white space, as `char::is_whitespace` decides.
pub fn is_whitespace(c: char) -> (r: bool)
    ensures
        r == is_ws(c),
{
    let u = c as u32;
    (0x09 <= u && u <= 0x0d) || u == 0x20 || u == 0x85 || u == 0xa0 || u == 0x1680 || (0x2000
        <= u && u <= 0x200a) || u == 0x2028 || u == 0x2029 || u == 0x202f || u == 0x205f || u
        == 0x3000
}

/// `s` without its leading white space.
pub open spec fn trim_start(s: Seq<char>) -> Seq<char>
    decreases s.len(),
{
    if s.len() > 0 && is_ws(s[0]) {
        trim_start(s.drop_first())
    } else {
        s
    }
}

/// `s` without its trailing white space.
pub open spec fn trim_end(s: Seq<char>) -> Seq<char>
    decreases s.len(),
{
    if s.len() > 0 && is_ws(s.last()) {
        trim_end(s.drop_last())
    } else {
        s
    }
}

/// `s` without leading and trailing white space, as `str::trim` gives it.
pub open spec fn trim(s: Seq<char>) -> Seq<char> {
    trim_end(trim_start(s))
}

/// Trimming from the front drops exactly the maximal white-space prefix.
pub proof fn lemma_trim_start_at(s: Seq<char>, i: int)
    requires
        0 <= i <= s.len(),
        forall|j: int| 0 <= j < i ==> is_ws(#[trigger] s[j]),
        i == s.len() || !is_ws(s[i]),
    ensures
        trim_start(s) == s.subrange(i, s.len() as int),
    decreases i,
{
    if i > 0 {
        assert forall|j: int| 0 <= j < i - 1 implies is_ws(#[trigger] s.drop_first()[j]) by {
            assert(s.drop_first()[j] == s[j + 1]);
        }
        lemma_trim_start_at(s.drop_first(), i - 1);
        assert(s.drop_first().subrange(i - 1, s.len() - 1) =~= s.subrange(i, s.len() as int));
    } else {
        assert(s.subrange(0, s.len() as int) =~= s);
    }
}

/// Trimming from the back drops exactly the maximal white-space suffix.
pub proof fn lemma_trim_end_at(s: Seq<char>, k: int)
    requires
        0 <= k <= s.len(),
        forall|j: int| k <= j < s.len() ==> is_ws(#[trigger] s[j]),
        k == 0 || !is_ws(s[k - 1]),
    ensures
        trim_end(s) == s.subrange(0, k),
    decreases s.len() - k,
{
    if k < s.len() {
        assert forall|j: int| k <= j < s.len() - 1 implies is_ws(#[trigger] s.drop_last()[j]) by {
            assert(s.drop_last()[j] == s[j]);
        }
        lemma_trim_end_at(s.drop_last(), k);
        assert(s.drop_last().subrange(0, k) =~= s.subrange(0, k));
    } else {
        assert(s.subrange(0, s.len() as int) =~= s);
    }
}

/// A copy of `v[lo..hi]`.
pub fn copy_range(v: &Vec<char>, lo: usize, hi: usize) -> (r: Vec<char>)
    requires
        lo <= hi <= v.len(),
    ensures
        r@ == v@.subrange(lo as int, hi as int),
{
    let mut r: Vec<char> = Vec::new();
    let mut i = lo;
    while i < hi
        invariant
            lo <= i <= hi <= v.len(),
            r@ == v@.subrange(lo as int, i as int),
        decreases hi - i,
    {
        r.push(v[i]);
        i = i + 1;
        assert(r@ =~= v@.subrange(lo as int, i as int));
    }
    r
}

/// The bounds `(lo, hi)` of `v` once leading and trailing white space is dropped.
pub fn trim_bounds(v: &Vec<char>, lo: usize, hi: usize) -> (r: (usize, usize))
    requires
        lo <= hi <= v.len(),
    ensures
        lo <= r.0 <= r.1 <= hi,
        v@.subrange(r.0 as int, r.1 as int) == trim(v@.subrange(lo as int, hi as int)),
{
    let ghost s = v@.subrange(lo as int, hi as int);
    let mut i = lo;
    while i < hi && is_whitespace(v[i])
        invariant
            lo <= i <= hi <= v.len(),
            s == v@.subrange(lo as int, hi as int),
            forall|j: int| lo <= j < i ==> is_ws(#[trigger] v@[j]),
        decreases hi - i,
    {
        i = i + 1;
    }
    proof {
        assert forall|j: int| 0 <= j < i - lo implies is_ws(#[trigger] s[j]) by {
            assert(s[j] == v@[lo + j]);
        }
        lemma_trim_start_at(s, i - lo);
    }
    let mut k = hi;
    while k > i && is_whitespace(v[k - 1])
        invariant
            lo <= i <= k <= hi <= v.len(),
            forall|j: int| k <= j < hi ==> is_ws(#[trigger] v@[j]),
        decreases k - i,
    {
        k = k - 1;
    }
    proof {
        let t = s.subrange(i - lo, s.len() as int);
        assert(t =~= v@.subrange(i as int, hi as int));
        assert forall|j: int| k - i <= j < t.len() implies is_ws(#[trigger] t[j]) by {
            assert(t[j] == v@[i + j]);
        }
        lemma_trim_end_at(t, k - i);
        assert(t.subrange(0, k - i) =~= v@.subrange(i as int, k as int));
    }
    (i, k)
}

/// `v` trimmed, as `str::trim` does it.
pub fn trim_chars(v: &Vec<char>) -> (r: Vec<char>)
    ensures
        r@ == trim(v@),
{
    let (lo, hi) = trim_bounds(v, 0, v.len());
    assert(v@.subrange(0, v.len() as int) =~= v@);
    copy_range(v, lo, hi)
}

/// The views of a sequence of character vectors.
pub open spec fn views(v: Seq<Vec<char>>) -> Seq<Seq<char>> {
    v.map_values(|x: Vec<char>| x@)
}

/// Index of the first `c` in `s`, or `s.len()` when there is none.
pub open spec fn index_of(s: Seq<char>, c: char) -> nat
    decreases s.len(),
{
    if s.len() == 0 {
        0
    } else if s[0] == c {
        0
    } else {
        1 + index_of(s.drop_first(), c)
    }
}

/// Index of the first white-space character of `s`, or `s.len()`.
pub open spec fn ws_index(s: Seq<char>) -> nat
    decreases s.len(),
{
    if s.len() == 0 {
        0
    } else if is_ws(s[0]) {
        0
    } else {
        1 + ws_index(s.drop_first())
    }
}

pub proof fn lemma_ws_index_bound(s: Seq<char>)
    ensures
        ws_index(s) <= s.len(),
        s.len() > 0 && !is_ws(s[0]) ==> ws_index(s) > 0,
    decreases s.len(),
{
    if s.len() > 0 {
        lemma_ws_index_bound(s.drop_first());
    }
}

pub proof fn lemma_index_of(s: Seq<char>, c: char, i: int)
    requires
        0 <= i <= s.len(),
        forall|j: int| 0 <= j < i ==> #[trigger] s[j] != c,
        i == s.len() || s[i] == c,
    ensures
        index_of(s, c) == i,
    decreases i,
{
    if i > 0 {
        assert forall|j: int| 0 <= j < i - 1 implies #[trigger] s.drop_first()[j] != c by {
            assert(s.drop_first()[j] == s[j + 1]);
        }
        lemma_index_of(s.drop_first(), c, i - 1);
    }
}

pub proof fn lemma_ws_index(s: Seq<char>, i: int)
    requires
        0 <= i <= s.len(),
        forall|j: int| 0 <= j < i ==> !is_ws(#[trigger] s[j]),
        i == s.len() || is_ws(s[i]),
    ensures
        ws_index(s) == i,
    decreases i,
{
    if i > 0 {
        assert forall|j: int| 0 <= j < i - 1 implies !is_ws(#[trigger] s.drop_first()[j]) by {
            assert(s.drop_first()[j] == s[j + 1]);
        }
        lemma_ws_index(s.drop_first(), i - 1);
    }
}

/// The pieces of `s` between occurrences of `c`, as `str::split` with a
/// one-character pattern gives them: empty pieces included, never none.
pub open spec fn split_on(s: Seq<char>, c: char) -> Seq<Seq<char>>
    decreases s.len(),
{
    let k = index_of(s, c);
    if k >= s.len() {
        seq![s]
    } else {
        seq![s.take(k as int)] + split_on(s.skip(k + 1int), c)
    }
}

/// `s` without one trailing carriage return.
pub open spec fn strip_cr(s: Seq<char>) -> Seq<char> {
    if s.len() > 0 && s.last() == '\r' {
        s.drop_last()
    } else {
        s
    }
}

/// The lines of `s`, as `str::lines` gives them: split at `\n`, a `\r` before
/// a `\n` dropped, and no empty line after a final `\n`.
pub open spec fn lines(s: Seq<char>) -> Seq<Seq<char>>
    decreases s.len(),
{
    if s.len() == 0 {
        seq![]
    } else {
        let k = index_of(s, '\n');
        if k >= s.len() {
            seq![s]
        } else {
            seq![strip_cr(s.take(k as int))] + lines(s.skip(k + 1int))
        }
    }
}

/// The white-space separated words of `s`, as `str::split_whitespace` gives them.
pub open spec fn split_ws(s: Seq<char>) -> Seq<Seq<char>>
    decreases s.len(),
{
    if s.len() == 0 {
        seq![]
    } else if is_ws(s[0]) {
        split_ws(s.drop_first())
    } else {
        let k = ws_index(s);
        proof {
            lemma_ws_index_bound(s);
        }
        seq![s.take(k as int)] + split_ws(s.skip(k as int))
    }
}

/// The pieces of `v[lo..hi]` between occurrences of `c`.
pub fn split_range(v: &Vec<char>, lo: usize, hi: usize, c: char) -> (r: Vec<Vec<char>>)
    requires
        lo <= hi <= v.len(),
    ensures
        views(r@) == split_on(v@.subrange(lo as int, hi as int), c),
{
    let mut r: Vec<Vec<char>> = Vec::new();
    let mut start = lo;
    let mut i = lo;
    while i < hi
        invariant
            lo <= start <= i <= hi <= v.len(),
            split_on(v@.subrange(lo as int, hi as int), c) == views(r@) + split_on(
                v@.subrange(start as int, hi as int),
                c,
            ),
            forall|j: int| start <= j < i ==> #[trigger] v@[j] != c,
        decreases hi - i,
    {
        if v[i] == c {
            let ghost t = v@.subrange(start as int, hi as int);
            proof {
                assert forall|j: int| 0 <= j < i - start implies #[trigger] t[j] != c by {
                    assert(t[j] == v@[start + j]);
                }
                lemma_index_of(t, c, i - start);
                assert(t.take(i - start) =~= v@.subrange(start as int, i as int));
                assert(t.skip(i - start + 1) =~= v@.subrange(i + 1, hi as int));
            }
            let piece = copy_range(v, start, i);
            let ghost before = r@;
            r.push(piece);
            proof {
                assert(views(r@) =~= views(before) + seq![piece@]);
                assert(views(r@) + split_on(v@.subrange(i + 1, hi as int), c) =~= views(before)
                    + split_on(t, c));
            }
            start = i + 1;
        }
        i = i + 1;
    }
    let ghost t = v@.subrange(start as int, hi as int);
    proof {
        assert forall|j: int| 0 <= j < t.len() implies #[trigger] t[j] != c by {
            assert(t[j] == v@[start + j]);
        }
        lemma_index_of(t, c, t.len() as int);
    }
    let piece = copy_range(v, start, hi);
    let ghost before = r@;
    r.push(piece);
    assert(views(r@) =~= views(before) + seq![piece@]);
    r
}

/// The pieces of `v` between occurrences of `c`.
pub fn split_chars(v: &Vec<char>, c: char) -> (r: Vec<Vec<char>>)
    ensures
        views(r@) == split_on(v@, c),
{
    assert(v@.subrange(0, v.len() as int) =~= v@);
    split_range(v, 0, v.len(), c)
}

/// The lines of `v`.
pub fn lines_of(v: &Vec<char>) -> (r: Vec<Vec<char>>)
    ensures
        views(r@) == lines(v@),
{
    let hi = v.len();
    let mut r: Vec<Vec<char>> = Vec::new();
    let mut start: usize = 0;
    let mut i: usize = 0;
    assert(v@.subrange(0, hi as int) =~= v@);
    while i < hi
        invariant
            start <= i <= hi == v.len(),
            lines(v@) == views(r@) + lines(v@.subrange(start as int, hi as int)),
            forall|j: int| start <= j < i ==> #[trigger] v@[j] != '\n',
        decreases hi - i,
    {
        if v[i] == '\n' {
            let ghost t = v@.subrange(start as int, hi as int);
            proof {
                assert forall|j: int| 0 <= j < i - start implies #[trigger] t[j] != '\n' by {
                    assert(t[j] == v@[start + j]);
                }
                lemma_index_of(t, '\n', i - start);
                assert(t.take(i - start) =~= v@.subrange(start as int, i as int));
                assert(t.skip(i - start + 1) =~= v@.subrange(i + 1, hi as int));
            }
            let mut end = i;
            if end > start && v[end - 1] == '\r' {
                end = end - 1;
            }
            let piece = copy_range(v, start, end);
            assert(piece@ == strip_cr(v@.subrange(start as int, i as int)));
            let ghost before = r@;
            r.push(piece);
            proof {
                assert(views(r@) =~= views(before) + seq![piece@]);
                assert(views(r@) + lines(v@.subrange(i + 1, hi as int)) =~= views(before) + lines(
                    t,
                ));
            }
            start = i + 1;
        }
        i = i + 1;
    }
    let ghost t = v@.subrange(start as int, hi as int);
    if start < hi {
        proof {
            assert forall|j: int| 0 <= j < t.len() implies #[trigger] t[j] != '\n' by {
                assert(t[j] == v@[start + j]);
            }
            lemma_index_of(t, '\n', t.len() as int);
        }
        let piece = copy_range(v, start, hi);
        let ghost before = r@;
        r.push(piece);
        assert(views(r@) =~= views(before) + seq![piece@]);
    } else {
        assert(views(r@) + lines(t) =~= views(r@));
    }
    r
}

/// The white-space separated words of `v`.
pub fn split_whitespace_chars(v: &Vec<char>) -> (r: Vec<Vec<char>>)
    ensures
        views(r@) == split_ws(v@),
{
    let hi = v.len();
    let mut r: Vec<Vec<char>> = Vec::new();
    let mut i: usize = 0;
    assert(v@.subrange(0, hi as int) =~= v@);
    while i < hi
        invariant
            i <= hi == v.len(),
            split_ws(v@) == views(r@) + split_ws(v@.subrange(i as int, hi as int)),
        decreases hi - i,
    {
        let ghost t = v@.subrange(i as int, hi as int);
        if is_whitespace(v[i]) {
            assert(t.drop_first() =~= v@.subrange(i + 1, hi as int));
            i = i + 1;
        } else {
            let mut k = i + 1;
            while k < hi && !is_whitespace(v[k])
                invariant
                    i < k <= hi == v.len(),
                    forall|j: int| i <= j < k ==> !is_ws(#[trigger] v@[j]),
                decreases hi - k,
            {
                k = k + 1;
            }
            proof {
                assert forall|j: int| 0 <= j < k - i implies !is_ws(#[trigger] t[j]) by {
                    assert(t[j] == v@[i + j]);
                }
                lemma_ws_index(t, k - i);
                assert(t.take(k - i) =~= v@.subrange(i as int, k as int));
                assert(t.skip(k - i) =~= v@.subrange(k as int, hi as int));
            }
            let piece = copy_range(v, i, k);
            let ghost before = r@;
            r.push(piece);
            proof {
                assert(views(r@) =~= views(before) + seq![piece@]);
                assert(views(r@) + split_ws(v@.subrange(k as int, hi as int)) =~= views(before)
                    + split_ws(t));
            }
            i = k;
        }
    }
    assert(v@.subrange(hi as int, hi as int) =~= Seq::<char>::empty());
    assert(views(r@) + split_ws(Seq::<char>::empty()) =~= views(r@));
    r
}

/// The value of `c` as a digit in `radix` (at most 36), as `char::to_digit` gives it.
pub open spec fn digit_of(c: char, radix: nat) -> Option<nat> {
    let u = c as u32;
    let d: int = if 0x30 <= u <= 0x39 {
        u - 0x30
    } else if 0x61 <= u <= 0x7a {
        u - 0x61 + 10
    } else if 0x41 <= u <= 0x5a {
        u - 0x41 + 10
    } else {
        radix as int
    };
    if d < radix {
        Some(d as nat)
    } else {
        None
    }
}

/// Every character of `s` is a digit in `radix`.
pub open spec fn all_digits(s: Seq<char>, radix: nat) -> bool {
    forall|i: int| 0 <= i < s.len() ==> (#[trigger] digit_of(s[i], radix)) is Some
}

/// The number that the digits `s` spell in `radix`, most significant first.
pub open spec fn digits_value(s: Seq<char>, radix: nat) -> nat
    decreases s.len(),
{
    if s.len() == 0 {
        0
    } else {
        digits_value(s.drop_last(), radix) * radix + match digit_of(s.last(), radix) {
            Some(d) => d,
            None => 0,
        }
    }
}

/// The digits of a number text: `s` without one leading `+`.
pub open spec fn unsigned_body(s: Seq<char>) -> Seq<char> {
    if s.len() > 0 && s[0] == '+' {
        s.drop_first()
    } else {
        s
    }
}

/// What `from_str_radix` gives for an unsigned type whose largest value is
/// `max`: an optional `+`, then at least one digit, and a value up to `max`.
pub open spec fn parse_uint(s: Seq<char>, radix: nat, max: int) -> Option<nat> {
    let body = unsigned_body(s);
    if body.len() > 0 && all_digits(body, radix) && digits_value(body, radix) <= max {
        Some(digits_value(body, radix))
    } else {
        None
    }
}

/// A longer run of digits never spells a smaller number.
pub proof fn lemma_digits_value_prefix(s: Seq<char>, radix: nat, k: int)
    requires
        1 <= radix,
        0 <= k <= s.len(),
    ensures
        digits_value(s.take(k), radix) <= digits_value(s, radix),
    decreases s.len() - k,
{
    if k < s.len() {
        lemma_digits_value_prefix(s, radix, k + 1);
        assert(s.take(k + 1).drop_last() =~= s.take(k));
        let v = digits_value(s.take(k), radix);
        assert(v * radix >= v) by (nonlinear_arith)
            requires
                radix >= 1,
        ;
    } else {
        assert(s.take(k) =~= s);
    }
}

/// The digit value of `c` in `radix`.
pub fn to_digit(c: char, radix: u32) -> (r: Option<u32>)
    requires
        radix <= 36,
    ensures
        match r {
            Some(d) => digit_of(c, radix as nat) == Some(d as nat),
            None => digit_of(c, radix as nat) is None,
        },
{
    let u = c as u32;
    let d: u32 = if 0x30 <= u && u <= 0x39 {
        u - 0x30
    } else if 0x61 <= u && u <= 0x7a {
        u - 0x61 + 10
    } else if 0x41 <= u && u <= 0x5a {
        u - 0x41 + 10
    } else {
        radix
    };
    if d < radix {
        Some(d)
    } else {
        None
    }
}

/// `v[lo..hi]` read as an unsigned 64-bit number in `radix`, as `u64::from_str_radix` reads it.
pub fn parse_u64_range(v: &Vec<char>, lo: usize, hi: usize, radix: u32) -> (r: Option<u64>)
    requires
        lo <= hi <= v.len(),
        2 <= radix <= 36,
    ensures
        match r {
            Some(x) => parse_uint(v@.subrange(lo as int, hi as int), radix as nat, u64::MAX as int)
                == Some(x as nat),
            None => parse_uint(v@.subrange(lo as int, hi as int), radix as nat, u64::MAX as int) is None,
        },
{
    let ghost s = v@.subrange(lo as int, hi as int);
    let b = if lo < hi && v[lo] == '+' {
        lo + 1
    } else {
        lo
    };
    let ghost body = v@.subrange(b as int, hi as int);
    assert(body =~= unsigned_body(s));
    if b == hi {
        return None;
    }
    let mut acc: u64 = 0;
    let mut i = b;
    while i < hi
        invariant
            b <= i <= hi <= v.len(),
            b < hi,
            2 <= radix <= 36,
            body == v@.subrange(b as int, hi as int),
            body == unsigned_body(v@.subrange(lo as int, hi as int)),
            all_digits(body.take(i - b), radix as nat),
            acc as nat == digits_value(body.take(i - b), radix as nat),
        decreases hi - i,
    {
        let ghost k = i - b;
        assert(body.take(k + 1).drop_last() =~= body.take(k));
        assert(body[k] == v@[i as int]);
        let d = match to_digit(v[i], radix) {
            Some(d) => d,
            None => {
                assert(!all_digits(body, radix as nat)) by {
                    assert(digit_of(body[k], radix as nat) is None);
                }
                return None;
            },
        };
        proof {
            lemma_digits_value_prefix(body, radix as nat, k + 1);
        }
        let m = match acc.checked_mul(radix as u64) {
            Some(m) => m,
            None => {
                assert(digits_value(body.take(k + 1), radix as nat) > u64::MAX) by (nonlinear_arith)
                    requires
                        digits_value(body.take(k + 1), radix as nat) == acc * radix + d,
                        acc * radix > u64::MAX,
                ;
                return None;
            },
        };
        let n = match m.checked_add(d as u64) {
            Some(n) => n,
            None => {
                assert(digits_value(body.take(k + 1), radix as nat) == m + d);
                return None;
            },
        };
        i = i + 1;
        assert forall|j: int| 0 <= j < i - b implies (#[trigger] digit_of(
            body.take(i - b)[j],
            radix as nat,
        )) is Some by {
            if j < k {
                assert(body.take(i - b)[j] == body.take(k)[j]);
            }
        }
        acc = n;
    }
    assert(body.take(hi - b) =~= body);
    Some(acc)
}

/// `v` read as an unsigned 64-bit decimal number, as `str::parse::<u64>` reads it.
pub fn parse_u64(v: &Vec<char>) -> (r: Option<u64>)
    ensures
        match r {
            Some(x) => parse_uint(v@, 10, u64::MAX as int) == Some(x as nat),
            None => parse_uint(v@, 10, u64::MAX as int) is None,
        },
{
    assert(v@.subrange(0, v.len() as int) =~= v@);
    parse_u64_range(v, 0, v.len(), 10)
}

/// The character classes that the `/proc/<pid>/maps` grammar is made of.
#[derive(Clone, Copy, Debug, PartialEq, Eq)]
pub enum CharClass {
    /// `[0-9a-f]`
    LowerHex,
    /// `[rwsxp-]`
    Permission,
    /// ASCII `[0-9]`
    Digit,
    /// Unicode white space
    Space,
}

/// Whether `c` belongs to `cls`.
pub open spec fn in_class(c: char, cls: CharClass) -> bool {
    match cls {
        CharClass::LowerHex => ('0' <= c && c <= '9') || ('a' <= c && c <= 'f'),
        CharClass::Permission => c == 'r' || c == 'w' || c == 's' || c == 'x' || c == 'p' || c == '-',
        CharClass::Digit => '0' <= c && c <= '9',
        CharClass::Space => is_ws(c),
    }
}

/// The end of the longest run of `cls` characters of `t` that starts at `i`.
pub open spec fn span_end(t: Seq<char>, i: int, cls: CharClass) -> int
    decreases t.len() - i,
{
    if 0 <= i < t.len() && in_class(t[i], cls) {
        span_end(t, i + 1, cls)
    } else {
        i
    }
}

pub proof fn lemma_span_end(t: Seq<char>, i: int, k: int, cls: CharClass)
    requires
        0 <= i <= k <= t.len(),
        forall|j: int| i <= j < k ==> in_class(#[trigger] t[j], cls),
        k == t.len() || !in_class(t[k], cls),
    ensures
        span_end(t, i, cls) == k,
    decreases k - i,
{
    if i < k {
        lemma_span_end(t, i + 1, k, cls);
    }
}

/// Whether `c` belongs to `cls`.
pub fn char_in_class(c: char, cls: CharClass) -> (r: bool)
    ensures
        r == in_class(c, cls),
{
    match cls {
        CharClass::LowerHex => ('0' <= c && c <= '9') || ('a' <= c && c <= 'f'),
        CharClass::Permission => c == 'r' || c == 'w' || c == 's' || c == 'x' || c == 'p' || c == '-',
        CharClass::Digit => '0' <= c && c <= '9',
        CharClass::Space => is_whitespace(c),
    }
}

/// The end of the longest run of `cls` characters of `v` that starts at `i`.
pub fn run_end(v: &Vec<char>, i: usize, cls: CharClass) -> (r: usize)
    requires
        i <= v.len(),
    ensures
        i <= r <= v.len(),
        r == span_end(v@, i as int, cls),
{
    let mut k = i;
    while k < v.len() && char_in_class(v[k], cls)
        invariant
            i <= k <= v.len(),
            forall|j: int| i <= j < k ==> in_class(#[trigger] v@[j], cls),
        decreases v.len() - k,
    {
        k = k + 1;
    }
    proof {
        lemma_span_end(v@, i as int, k as int, cls);
    }
    k
}

/// Whether `v[lo..hi]` holds exactly the characters of `lit`.
pub fn range_eq_str(v: &Vec<char>, lo: usize, hi: usize, lit: &str) -> (r: bool)
    requires
        lo <= hi <= v.len(),
    ensures
        r == (v@.subrange(lo as int, hi as int) == lit@),
{
    let w = str_chars(lit);
    if hi - lo != w.len() {
        return false;
    }
    let mut i: usize = 0;
    while i < w.len()
        invariant
            lo <= hi <= v.len(),
            hi - lo == w.len(),
            w@ == lit@,
            i <= w.len(),
            forall|j: int| 0 <= j < i ==> v@[lo + j] == #[trigger] w@[j],
        decreases w.len() - i,
    {
        if v[lo + i] != w[i] {
            assert(v@.subrange(lo as int, hi as int)[i as int] != lit@[i as int]);
            return false;
        }
        i = i + 1;
    }
    assert(v@.subrange(lo as int, hi as int) =~= lit@);
    true
}

/// Whether `v` holds exactly the characters of `lit`.
pub fn chars_eq_str(v: &Vec<char>, lit: &str) -> (r: bool)
    ensures
        r == (v@ == lit@),
{
    assert(v@.subrange(0, v.len() as int) =~= v@);
    range_eq_str(v, 0, v.len(), lit)
}

/// `String::push`: appends `c` to `s`.
#[verifier::external_body]
pub(crate) fn string_push(s: &mut String, c: char)
    ensures
        final(s)@ == old(s)@.push(c),
{
    s.push(c)
}

/// A `String` holding `v[lo..hi]`.
pub fn string_from_range(v: &Vec<char>, lo: usize, hi: usize) -> (r: String)
    requires
        lo <= hi <= v.len(),
    ensures
        r@ == v@.subrange(lo as int, hi as int),
{
    let mut r = String::new();
    let mut i = lo;
    while i < hi
        invariant
            lo <= i <= hi <= v.len(),
            r@ == v@.subrange(lo as int, i as int),
        decreases hi - i,
    {
        string_push(&mut r, v[i]);
        i = i + 1;
        assert(r@ =~= v@.subrange(lo as int, i as int));
    }
    r
}

/// A `String` holding the characters of `v`.
pub fn string_from_chars(v: &Vec<char>) -> (r: String)
    ensures
        r@ == v@,
{
    assert(v@.subrange(0, v.len() as int) =~= v@);
    string_from_range(v, 0, v.len())
}

/// ASCII white space, the set that `u8::is_ascii_whitespace` uses: space,
/// tab, line feed, form feed and carriage return.
pub open spec fn is_ascii_ws(c: char) -> bool {
    c == ' ' || c == '\t' || c == '\n' || c == '\x0C' || c == '\r'
}

/// Whether `c` is ASCII white space.
pub fn is_ascii_whitespace(c: char) -> (r: bool)
    ensures
        r == is_ascii_ws(c),
{
    c == ' ' || c == '\t' || c == '\n' || c == '\x0C' || c == '\r'
}

/// Index of the first ASCII white-space character of `s`, or `s.len()`.
pub open spec fn ascii_ws_index(s: Seq<char>) -> nat
    decreases s.len(),
{
    if s.len() == 0 {
        0
    } else if is_ascii_ws(s[0]) {
        0
    } else {
        1 + ascii_ws_index(s.drop_first())
    }
}

pub proof fn lemma_ascii_ws_index_bound(s: Seq<char>)
    ensures
        ascii_ws_index(s) <= s.len(),
        s.len() > 0 && !is_ascii_ws(s[0]) ==> ascii_ws_index(s) > 0,
    decreases s.len(),
{
    if s.len() > 0 {
        lemma_ascii_ws_index_bound(s.drop_first());
    }
}

pub proof fn lemma_ascii_ws_index(s: Seq<char>, i: int)
    requires
        0 <= i <= s.len(),
        forall|j: int| 0 <= j < i ==> !is_ascii_ws(#[trigger] s[j]),
        i == s.len() || is_ascii_ws(s[i]),
    ensures
        ascii_ws_index(s) == i,
    decreases i,
{
    if i > 0 {
        assert forall|j: int| 0 <= j < i - 1 implies !is_ascii_ws(#[trigger] s.drop_first()[j]) by {
            assert(s.drop_first()[j] == s[j + 1]);
        }
        lemma_ascii_ws_index(s.drop_first(), i - 1);
    }
}

/// The ASCII white-space separated words of `s`, as `str::split_ascii_whitespace` gives them.
pub open spec fn split_ascii_ws(s: Seq<char>) -> Seq<Seq<char>>
    decreases s.len(),
{
    if s.len() == 0 {
        seq![]
    } else if is_ascii_ws(s[0]) {
        split_ascii_ws(s.drop_first())
    } else {
        let k = ascii_ws_index(s);
        proof {
            lemma_ascii_ws_index_bound(s);
        }
        seq![s.take(k as int)] + split_ascii_ws(s.skip(k as int))
    }
}

/// The ASCII white-space separated words of `v`.
pub fn split_ascii_whitespace_chars(v: &Vec<char>) -> (r: Vec<Vec<char>>)
    ensures
        views(r@) == split_ascii_ws(v@),
{
    let hi = v.len();
    let mut r: Vec<Vec<char>> = Vec::new();
    let mut i: usize = 0;
    assert(v@.subrange(0, hi as int) =~= v@);
    while i < hi
        invariant
            i <= hi == v.len(),
            split_ascii_ws(v@) == views(r@) + split_ascii_ws(v@.subrange(i as int, hi as int)),
        decreases hi - i,
    {
        let ghost t = v@.subrange(i as int, hi as int);
        if is_ascii_whitespace(v[i]) {
            assert(t.drop_first() =~= v@.subrange(i + 1, hi as int));
            i = i + 1;
        } else {
            let mut k = i + 1;
            while k < hi && !is_ascii_whitespace(v[k])
                invariant
                    i < k <= hi == v.len(),
                    forall|j: int| i <= j < k ==> !is_ascii_ws(#[trigger] v@[j]),
                decreases hi - k,
            {
                k = k + 1;
            }
            proof {
                assert forall|j: int| 0 <= j < k - i implies !is_ascii_ws(#[trigger] t[j]) by {
                    assert(t[j] == v@[i + j]);
                }
                lemma_ascii_ws_index(t, k - i);
                assert(t.take(k - i) =~= v@.subrange(i as int, k as int));
                assert(t.skip(k - i) =~= v@.subrange(k as int, hi as int));
            }
            let piece = copy_range(v, i, k);
            let ghost before = r@;
            r.push(piece);
            proof {
                assert(views(r@) =~= views(before) + seq![piece@]);
                assert(views(r@) + split_ascii_ws(v@.subrange(k as int, hi as int)) =~= views(before)
                    + split_ascii_ws(t));
            }
            i = k;
        }
    }
    assert(v@.subrange(hi as int, hi as int) =~= Seq::<char>::empty());
    assert(views(r@) + split_ascii_ws(Seq::<char>::empty()) =~= views(r@));
    r
}

} // verus!

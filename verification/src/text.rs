//! Verified text helpers: decimal rendering of indices and decimal parsing
//! of byte tokens.

use vstd::prelude::*;
use vstd::string::StringExecFns;

verus! {

/// The character for one decimal digit.
pub open spec fn spec_digit_char(d: int) -> char {
    if d == 0 { '0' }
    else if d == 1 { '1' }
    else if d == 2 { '2' }
    else if d == 3 { '3' }
    else if d == 4 { '4' }
    else if d == 5 { '5' }
    else if d == 6 { '6' }
    else if d == 7 { '7' }
    else if d == 8 { '8' }
    else { '9' }
}

/// The decimal digits of `n`, most significant first, no leading zeros
/// (except for `n == 0` itself).
pub open spec fn spec_decimal_chars(n: nat) -> Seq<char>
    decreases n,
{
    if n < 10 {
        seq![spec_digit_char(n as int)]
    } else {
        spec_decimal_chars(n / 10).push(spec_digit_char((n % 10) as int))
    }
}

/// One decimal digit as a string.
fn digit_str(d: usize) -> (r: String)
    requires
        d < 10,
    ensures
        r@ == seq![spec_digit_char(d as int)],
{
    let s = match d {
        0 => String::from_str("0"),
        1 => String::from_str("1"),
        2 => String::from_str("2"),
        3 => String::from_str("3"),
        4 => String::from_str("4"),
        5 => String::from_str("5"),
        6 => String::from_str("6"),
        7 => String::from_str("7"),
        8 => String::from_str("8"),
        _ => String::from_str("9"),
    };
    proof {
        reveal_strlit("0");
        reveal_strlit("1");
        reveal_strlit("2");
        reveal_strlit("3");
        reveal_strlit("4");
        reveal_strlit("5");
        reveal_strlit("6");
        reveal_strlit("7");
        reveal_strlit("8");
        reveal_strlit("9");
        assert(s@ =~= seq![spec_digit_char(d as int)]);
    }
    s
}

/// Renders `n` in decimal.
pub fn usize_to_string(n: usize) -> (r: String)
    ensures
        r@ == spec_decimal_chars(n as nat),
    decreases n,
{
    if n < 10 {
        digit_str(n)
    } else {
        let mut s = usize_to_string(n / 10);
        let d = digit_str(n % 10);
        s.append(d.as_str());
        proof {
            assert(s@ =~= spec_decimal_chars((n / 10) as nat).push(spec_digit_char((n % 10) as int)));
        }
        s
    }
}

} // verus!

verus! {

/// Splitting a byte sequence at a separator, keeping empty pieces, as
/// `str::split` does.
pub open spec fn spec_split(s: Seq<u8>, sep: u8) -> Seq<Seq<u8>>
    decreases s.len(),
{
    if s.len() == 0 {
        seq![Seq::<u8>::empty()]
    } else {
        let rest = spec_split(s.drop_first(), sep);
        if s.first() == sep {
            seq![Seq::<u8>::empty()] + rest
        } else {
            seq![seq![s.first()] + rest.first()] + rest.drop_first()
        }
    }
}

/// A split always yields at least one piece.
pub proof fn lemma_split_nonempty(s: Seq<u8>, sep: u8)
    ensures
        spec_split(s, sep).len() >= 1,
    decreases s.len(),
{
    if s.len() > 0 {
        lemma_split_nonempty(s.drop_first(), sep);
    }
}

/// The views of a list of byte vectors.
pub open spec fn views_of(ts: Seq<Vec<u8>>) -> Seq<Seq<u8>> {
    ts.map_values(|t: Vec<u8>| t@)
}

/// The pieces already cut, the piece being cut, and the split of the rest,
/// reassembled.
pub open spec fn recombine(ts: Seq<Seq<u8>>, cur: Seq<u8>, tail: Seq<Seq<u8>>) -> Seq<Seq<u8>> {
    ts + seq![cur + tail.first()] + tail.drop_first()
}

/// Splits `s` at every occurrence of `sep`, keeping empty pieces.
pub fn split_bytes(s: &Vec<u8>, sep: u8) -> (r: Vec<Vec<u8>>)
    ensures
        r@.len() == spec_split(s@, sep).len(),
        forall|i: int| 0 <= i < r@.len() ==> #[trigger] r@[i]@ == spec_split(s@, sep)[i],
{
    let ghost full = spec_split(s@, sep);
    let mut ts: Vec<Vec<u8>> = Vec::new();
    let mut cur: Vec<u8> = Vec::new();
    let n = s.len();
    proof {
        lemma_split_nonempty(s@, sep);
        assert(s@.skip(0) =~= s@);
        assert(views_of(ts@) =~= Seq::<Seq<u8>>::empty());
        assert(cur@ + full.first() =~= full.first());
        assert(recombine(views_of(ts@), cur@, full) =~= seq![full.first()] + full.drop_first());
        assert(seq![full.first()] + full.drop_first() =~= full);
    }
    let mut i: usize = 0;
    while i < n
        invariant
            n == s@.len(),
            0 <= i <= n,
            full == spec_split(s@, sep),
            spec_split(s@.skip(i as int), sep).len() >= 1,
            full == recombine(views_of(ts@), cur@, spec_split(s@.skip(i as int), sep)),
        decreases n - i,
    {
        let ghost tail = spec_split(s@.skip(i as int), sep);
        let ghost tail2 = spec_split(s@.skip(i + 1), sep);
        proof {
            lemma_split_nonempty(s@.skip(i + 1), sep);
            assert(s@.skip(i as int).first() == s@[i as int]);
            assert(s@.skip(i as int).drop_first() =~= s@.skip(i + 1));
        }
        if s[i] == sep {
            proof {
                assert(tail =~= seq![Seq::<u8>::empty()] + tail2);
                assert(tail.first() =~= Seq::<u8>::empty());
                assert(cur@ + tail.first() =~= cur@);
                assert(recombine(views_of(ts@), cur@, tail)
                    =~= views_of(ts@.push(cur)) + seq![Seq::<u8>::empty() + tail2.first()]
                        + tail2.drop_first()) by {
                    assert(views_of(ts@.push(cur)) =~= views_of(ts@).push(cur@));
                    assert(tail.drop_first() =~= tail2);
                    assert(tail2 =~= seq![tail2.first()] + tail2.drop_first());
                    assert(Seq::<u8>::empty() + tail2.first() =~= tail2.first());
                }
            }
            ts.push(cur);
            cur = Vec::new();
        } else {
            proof {
                assert(tail =~= seq![seq![s@[i as int]] + tail2.first()] + tail2.drop_first());
                assert(tail.first() =~= seq![s@[i as int]] + tail2.first());
                assert(cur@ + tail.first() =~= cur@.push(s@[i as int]) + tail2.first());
                assert(tail.drop_first() =~= tail2.drop_first());
                assert(recombine(views_of(ts@), cur@, tail)
                    =~= recombine(views_of(ts@), cur@.push(s@[i as int]), tail2));
            }
            let b = s[i];
            cur.push(b);
        }
        i = i + 1;
    }
    proof {
        assert(s@.skip(n as int) =~= Seq::<u8>::empty());
        let tail = spec_split(s@.skip(n as int), sep);
        assert(tail =~= seq![Seq::<u8>::empty()]);
        assert(cur@ + tail.first() =~= cur@);
        assert(full =~= views_of(ts@).push(cur@)) by {
            assert(tail.drop_first() =~= Seq::<Seq<u8>>::empty());
            assert(recombine(views_of(ts@), cur@, tail) =~= views_of(ts@) + seq![cur@]);
        }
        assert(views_of(ts@.push(cur)) =~= views_of(ts@).push(cur@));
    }
    ts.push(cur);
    proof {
        assert(forall|i2: int| 0 <= i2 < ts@.len() ==> #[trigger] ts@[i2]@ == views_of(ts@)[i2]);
    }
    ts
}

/// ASCII whitespace, as `str::trim` strips it from ASCII text.
pub open spec fn spec_is_ws(b: u8) -> bool {
    b == 32 || b == 9 || b == 10 || b == 13
}

/// The sequence with leading whitespace removed.
pub open spec fn spec_trim_front(s: Seq<u8>) -> Seq<u8>
    decreases s.len(),
{
    if s.len() > 0 && spec_is_ws(s.first()) {
        spec_trim_front(s.drop_first())
    } else {
        s
    }
}

/// The sequence with trailing whitespace removed.
pub open spec fn spec_trim_back(s: Seq<u8>) -> Seq<u8>
    decreases s.len(),
{
    if s.len() > 0 && spec_is_ws(s.last()) {
        spec_trim_back(s.drop_last())
    } else {
        s
    }
}

/// The sequence with whitespace removed from both ends.
pub open spec fn spec_trim(s: Seq<u8>) -> Seq<u8> {
    spec_trim_back(spec_trim_front(s))
}

/// Trimming the front keeps a suffix.
proof fn lemma_trim_front_range(s: Seq<u8>, a: int)
    requires
        0 <= a <= s.len(),
        forall|i: int| 0 <= i < a ==> spec_is_ws(#[trigger] s[i]),
        a < s.len() ==> !spec_is_ws(s[a]),
    ensures
        spec_trim_front(s) =~= s.skip(a),
    decreases a,
{
    if a > 0 {
        assert(spec_is_ws(s.first()));
        lemma_trim_front_range(s.drop_first(), a - 1);
        assert(s.drop_first().skip(a - 1) =~= s.skip(a));
    } else {
        if s.len() > 0 {
            assert(!spec_is_ws(s.first()));
        }
        assert(s.skip(0) =~= s);
    }
}

/// Trimming the back keeps a prefix.
proof fn lemma_trim_back_range(s: Seq<u8>, b: int)
    requires
        0 <= b <= s.len(),
        forall|i: int| b <= i < s.len() ==> spec_is_ws(#[trigger] s[i]),
        b > 0 ==> !spec_is_ws(s[b - 1]),
    ensures
        spec_trim_back(s) =~= s.take(b),
    decreases s.len() - b,
{
    if b < s.len() {
        assert(spec_is_ws(s.last()));
        lemma_trim_back_range(s.drop_last(), b);
        assert(s.drop_last().take(b) =~= s.take(b));
    } else {
        if s.len() > 0 && spec_is_ws(s.last()) {
            assert(false);
        }
        assert(s.take(s.len() as int) =~= s);
    }
}

/// Strips ASCII whitespace from both ends.
pub fn trim_bytes(s: &Vec<u8>) -> (r: Vec<u8>)
    ensures
        r@ == spec_trim(s@),
{
    let n = s.len();
    let mut a: usize = 0;
    while a < n && (s[a] == 32 || s[a] == 9 || s[a] == 10 || s[a] == 13)
        invariant
            n == s@.len(),
            0 <= a <= n,
            forall|i: int| 0 <= i < a ==> spec_is_ws(#[trigger] s@[i]),
        decreases n - a,
    {
        a = a + 1;
    }
    proof {
        lemma_trim_front_range(s@, a as int);
    }
    let mut b: usize = n;
    while b > a && (s[b - 1] == 32 || s[b - 1] == 9 || s[b - 1] == 10 || s[b - 1] == 13)
        invariant
            n == s@.len(),
            0 <= a <= b <= n,
            forall|i: int| 0 <= i < a ==> spec_is_ws(#[trigger] s@[i]),
            forall|i: int| b <= i < n ==> spec_is_ws(#[trigger] s@[i]),
        decreases b,
    {
        b = b - 1;
    }
    proof {
        let front = s@.skip(a as int);
        lemma_trim_back_range(front, b - a);
        assert(front.take(b - a) =~= s@.subrange(a as int, b as int));
    }
    let mut r: Vec<u8> = Vec::new();
    let mut i: usize = a;
    while i < b
        invariant
            n == s@.len(),
            0 <= a <= i <= b <= n,
            r@ =~= s@.subrange(a as int, i as int),
        decreases b - i,
    {
        let x = s[i];
        r.push(x);
        proof {
            assert(s@.subrange(a as int, i + 1) =~= s@.subrange(a as int, i as int).push(s@[i as int]));
        }
        i = i + 1;
    }
    proof {
        assert(r@ =~= spec_trim(s@));
    }
    r
}

/// An ASCII decimal digit.
pub open spec fn spec_is_digit(b: u8) -> bool {
    48 <= b <= 57
}

/// A non-empty run of decimal digits.
pub open spec fn spec_all_digits(s: Seq<u8>) -> bool {
    s.len() > 0 && forall|i: int| 0 <= i < s.len() ==> spec_is_digit(#[trigger] s[i])
}

/// The value of a run of decimal digits, most significant first.
pub open spec fn spec_digits_value(s: Seq<u8>) -> nat
    decreases s.len(),
{
    if s.len() == 0 {
        0
    } else {
        spec_digits_value(s.drop_last()) * 10 + (s.last() - 48) as nat
    }
}

/// The digits of a token after an optional leading plus sign, as
/// `str::parse` accepts for unsigned integers.
pub open spec fn spec_numeric_body(s: Seq<u8>) -> Seq<u8> {
    if s.len() > 0 && s[0] == 43 {
        s.drop_first()
    } else {
        s
    }
}

/// Whether a token is a decimal integer that fits in `usize`, and its value.
pub open spec fn spec_parse_usize(s: Seq<u8>) -> Option<usize> {
    if spec_all_digits(spec_numeric_body(s)) && spec_digits_value(spec_numeric_body(s)) <= usize::MAX {
        Some(spec_digits_value(spec_numeric_body(s)) as usize)
    } else {
        None
    }
}

/// A longer digit run never has a smaller value.
proof fn lemma_digits_value_monotonic(s: Seq<u8>, i: int)
    requires
        0 <= i <= s.len(),
    ensures
        spec_digits_value(s.take(i)) <= spec_digits_value(s),
    decreases s.len() - i,
{
    if i < s.len() {
        assert(s.take(i + 1).drop_last() =~= s.take(i));
        assert(spec_digits_value(s.take(i)) <= spec_digits_value(s.take(i + 1)));
        lemma_digits_value_monotonic(s, i + 1);
    } else {
        assert(s.take(i) =~= s);
    }
}

/// Parses a decimal `usize` token: an optional leading plus sign, then one
/// or more digits whose value fits.
pub fn parse_usize_token(s: &Vec<u8>) -> (r: Option<usize>)
    ensures
        r == spec_parse_usize(s@),
{
    let n = s.len();
    let start: usize = if n > 0 && s[0] == 43 { 1 } else { 0 };
    let ghost body = spec_numeric_body(s@);
    proof {
        assert(body =~= s@.skip(start as int));
    }
    if start >= n {
        return None;
    }
    let mut acc: usize = 0;
    let mut i: usize = start;
    while i < n
        invariant
            n == s@.len(),
            body == spec_numeric_body(s@),
            body == s@.skip(start as int),
            start <= i <= n,
            start < n,
            forall|j: int| start <= j < i ==> spec_is_digit(#[trigger] s@[j]),
            acc == spec_digits_value(body.take(i - start)),
        decreases n - i,
    {
        let b = s[i];
        if b < 48 || b > 57 {
            proof {
                assert(body[i - start] == s@[i as int]);
                assert(!spec_is_digit(body[i - start]));
                assert(!spec_all_digits(body));
            }
            return None;
        }
        let d = (b - 48) as usize;
        proof {
            assert(body.take(i - start + 1).drop_last() =~= body.take(i - start));
            assert(body.take(i - start + 1).last() == s@[i as int]);
        }
        if acc > usize::MAX / 10 {
            proof {
                vstd::arithmetic::div_mod::lemma_fundamental_div_mod(usize::MAX as int, 10);
                assert(acc * 10 > usize::MAX);
                assert(spec_digits_value(body.take(i - start + 1)) > usize::MAX);
                lemma_digits_value_monotonic(body, i - start + 1);
                assert(!(spec_digits_value(body) <= usize::MAX));
            }
            return None;
        }
        let acc10 = acc * 10;
        if d > usize::MAX - acc10 {
            proof {
                assert(spec_digits_value(body.take(i - start + 1)) > usize::MAX);
                lemma_digits_value_monotonic(body, i - start + 1);
                assert(!(spec_digits_value(body) <= usize::MAX));
            }
            return None;
        }
        acc = acc10 + d;
        i = i + 1;
    }
    proof {
        assert(body.take(n - start) =~= body);
    }
    Some(acc)
}

/// Whether `s` begins with `prefix`.
pub open spec fn spec_starts_with(s: Seq<u8>, prefix: Seq<u8>) -> bool {
    s.len() >= prefix.len() && s.take(prefix.len() as int) == prefix
}

/// Whether `s` begins with `prefix`.
pub fn starts_with_bytes(s: &Vec<u8>, prefix: &Vec<u8>) -> (r: bool)
    ensures
        r == spec_starts_with(s@, prefix@),
{
    if s.len() < prefix.len() {
        proof {
            assert(!spec_starts_with(s@, prefix@));
        }
        return false;
    }
    let mut i: usize = 0;
    while i < prefix.len()
        invariant
            s@.len() >= prefix@.len(),
            0 <= i <= prefix@.len(),
            forall|j: int| 0 <= j < i ==> s@[j] == prefix@[j],
        decreases prefix@.len() - i,
    {
        if s[i] != prefix[i] {
            proof {
                assert(s@.take(prefix@.len() as int)[i as int] != prefix@[i as int]);
            }
            return false;
        }
        i = i + 1;
    }
    proof {
        assert(s@.take(prefix@.len() as int) =~= prefix@);
    }
    true
}

} // verus!

verus! {

/// The decimal digits of `n` as bytes, most significant first.
pub open spec fn spec_decimal_bytes(n: nat) -> Seq<u8>
    decreases n,
{
    if n < 10 {
        seq![(48 + n) as u8]
    } else {
        spec_decimal_bytes(n / 10).push((48 + n % 10) as u8)
    }
}

/// Renders `n` in decimal as bytes.
pub fn usize_to_bytes(n: usize) -> (r: Vec<u8>)
    ensures
        r@ == spec_decimal_bytes(n as nat),
    decreases n,
{
    if n < 10 {
        let mut r: Vec<u8> = Vec::new();
        r.push(48 + (n as u8));
        proof {
            assert(r@ =~= spec_decimal_bytes(n as nat));
        }
        r
    } else {
        let mut r = usize_to_bytes(n / 10);
        r.push(48 + ((n % 10) as u8));
        proof {
            assert(r@ =~= spec_decimal_bytes((n / 10) as nat).push((48 + (n as nat) % 10) as u8));
        }
        r
    }
}

/// Appends every byte of `src` to `dst`.
pub fn push_all(dst: &mut Vec<u8>, src: &Vec<u8>)
    ensures
        final(dst)@ == old(dst)@ + src@,
{
    let mut i: usize = 0;
    while i < src.len()
        invariant
            0 <= i <= src@.len(),
            dst@ =~= old(dst)@ + src@.take(i as int),
        decreases src@.len() - i,
    {
        let b = src[i];
        dst.push(b);
        proof {
            assert(old(dst)@ + src@.take(i + 1) =~= (old(dst)@ + src@.take(i as int)).push(src@[i as int]));
        }
        i = i + 1;
    }
    proof {
        assert(src@.take(src@.len() as int) =~= src@);
    }
}

} // verus!

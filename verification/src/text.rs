//! Character-level helpers: decimal rendering, trimming, splitting and the
//! case folding used to compare usernames.

use vstd::prelude::*;
use vstd::string::*;

verus! {

/// The character of the decimal digit `d`.
pub open spec fn digit_char(d: nat) -> char {
    ('0' as int + d) as char
}

/// The decimal rendering of `n`, most significant digit first, without
/// leading zeros (so `0` renders as `"0"`).
pub open spec fn decimal(n: nat) -> Seq<char>
    decreases n,
{
    if n < 10 {
        seq![digit_char(n)]
    } else {
        decimal(n / 10).push(digit_char(n % 10))
    }
}

/// The number that a string of decimal digits denotes, most significant
/// digit first.
pub open spec fn digits_value(s: Seq<char>) -> int
    decreases s.len(),
{
    if s.len() == 0 {
        0
    } else {
        digits_value(s.drop_last()) * 10 + (s.last() as int - '0' as int)
    }
}

/// The decimal rendering of `n` reads back as `n`: it is not empty, consists
/// of the digits `0` to `9`, starts with `0` only when it is `"0"`, and its
/// digits denote `n`. So distinct numbers render differently, and no digit
/// is ever dropped or added.
pub proof fn law_decimal_reads_back(n: nat)
    ensures
        decimal(n).len() > 0,
        forall|i: int| 0 <= i < decimal(n).len() ==> '0' <= #[trigger] decimal(n)[i] <= '9',
        decimal(n)[0] == '0' ==> n == 0 && decimal(n).len() == 1,
        digits_value(decimal(n)) == n,
    decreases n,
{
    if n >= 10 {
        law_decimal_reads_back(n / 10);
        let prefix = decimal(n / 10);
        let s = decimal(n);
        assert(s == prefix.push(digit_char(n % 10)));
        assert(s.drop_last() =~= prefix);
        assert forall|i: int| 0 <= i < s.len() implies '0' <= #[trigger] s[i] <= '9' by {
            if i < prefix.len() {
                assert(s[i] == prefix[i]);
            }
        }
        assert(s[0] == prefix[0]);
        assert((n / 10) * 10 + n % 10 == n);
        assert(s.last() as int == '0' as int + n % 10);
        assert(digits_value(s) == digits_value(prefix) * 10 + (s.last() as int - '0' as int));
    } else {
        assert(decimal(n).drop_last() =~= Seq::<char>::empty());
        assert(decimal(n).last() as int == '0' as int + n);
        assert(digits_value(decimal(n).drop_last()) == 0);
    }
}

/// Two numbers render alike only when they are equal.
pub proof fn law_decimal_injective(m: nat, n: nat)
    requires
        decimal(m) == decimal(n),
    ensures
        m == n,
{
    law_decimal_reads_back(m);
    law_decimal_reads_back(n);
}

fn digit_str(d: u64) -> (s: &'static str)
    requires
        d < 10,
    ensures
        s@ == seq![digit_char(d as nat)],
{
    proof {
        reveal_strlit("0");
        reveal_strlit("1");
        reveal_strlit("2");
        reveal_strlit("3");
        reveal_strlit("4");
        reveal_strlit("5");
        reveal_strlit("6");
        reveal_strlit("7");
        reveal_strlit("8");
        reveal_strlit("9");
    }
    match d {
        0 => "0",
        1 => "1",
        2 => "2",
        3 => "3",
        4 => "4",
        5 => "5",
        6 => "6",
        7 => "7",
        8 => "8",
        _ => "9",
    }
}

/// Render `n` in decimal, as `u64::to_string` does.
pub fn u64_to_decimal(n: u64) -> (s: String)
    ensures
        s@ == decimal(n as nat),
    decreases n,
{
    if n < 10 {
        String::from_str(digit_str(n))
    } else {
        let mut s = u64_to_decimal(n / 10);
        s.append(digit_str(n % 10));
        s
    }
}

/// The characters of `s`, in order.
pub fn chars_of(s: &str) -> (v: Vec<char>)
    ensures
        v@ == s@,
{
    let mut v: Vec<char> = Vec::new();
    for c in it: s.chars()
        invariant
            v@ == it.seq().take(it.index() as int),
    {
        v.push(c);
    }
    v
}


/// Whether `c` has the Unicode `White_Space` property: the controls from tab
/// to carriage return, space, next line, no-break space, ogham space mark,
/// the spaces from en quad to hair space, the line and paragraph
/// separators, narrow no-break space, medium mathematical space and
/// ideographic space.
pub open spec fn is_white_space(c: char) -> bool {
    let n = c as u32;
    ||| 0x9 <= n <= 0xd
    ||| n == 0x20
    ||| n == 0x85
    ||| n == 0xa0
    ||| n == 0x1680
    ||| 0x2000 <= n <= 0x200a
    ||| n == 0x2028
    ||| n == 0x2029
    ||| n == 0x202f
    ||| n == 0x205f
    ||| n == 0x3000
}

/// `char::is_whitespace`: true exactly for the characters with the Unicode
/// `White_Space` property, which the standard library documents it to test
/// and which holds the characters listed at `is_white_space`.
#[verifier::external_body]
fn char_is_whitespace(c: char) -> (r: bool)
    ensures
        r == is_white_space(c),
{
    c.is_whitespace()
}

/// `s` without its leading white space.
pub open spec fn trim_start(s: Seq<char>) -> Seq<char>
    decreases s.len(),
{
    if s.len() > 0 && is_white_space(s[0]) {
        trim_start(s.drop_first())
    } else {
        s
    }
}

/// `s` without its trailing white space.
pub open spec fn trim_end(s: Seq<char>) -> Seq<char>
    decreases s.len(),
{
    if s.len() > 0 && is_white_space(s.last()) {
        trim_end(s.drop_last())
    } else {
        s
    }
}

/// `s` without leading or trailing white space, as `str::trim` gives it.
pub open spec fn trimmed(s: Seq<char>) -> Seq<char> {
    trim_end(trim_start(s))
}

proof fn lemma_trim_start_bound(s: Seq<char>) -> (a: int)
    ensures
        0 <= a <= s.len(),
        trim_start(s) == s.subrange(a, s.len() as int),
        forall|i: int| 0 <= i < a ==> is_white_space(#[trigger] s[i]),
        a < s.len() ==> !is_white_space(s[a]),
    decreases s.len(),
{
    if s.len() > 0 && is_white_space(s[0]) {
        let rest = s.drop_first();
        let a = lemma_trim_start_bound(rest);
        assert(rest.subrange(a, rest.len() as int) =~= s.subrange(a + 1, s.len() as int));
        assert forall|i: int| 0 <= i < a + 1 implies is_white_space(#[trigger] s[i]) by {
            if i > 0 {
                assert(s[i] == rest[i - 1]);
            }
        }
        a + 1
    } else {
        assert(s.subrange(0, s.len() as int) =~= s);
        0
    }
}

proof fn lemma_trim_end_bound(s: Seq<char>) -> (b: int)
    ensures
        0 <= b <= s.len(),
        trim_end(s) == s.subrange(0, b),
        forall|i: int| b <= i < s.len() ==> is_white_space(#[trigger] s[i]),
        b > 0 ==> !is_white_space(s[b - 1]),
    decreases s.len(),
{
    if s.len() > 0 && is_white_space(s.last()) {
        let rest = s.drop_last();
        let b = lemma_trim_end_bound(rest);
        assert(rest.subrange(0, b) =~= s.subrange(0, b));
        assert forall|i: int| b <= i < s.len() implies is_white_space(#[trigger] s[i]) by {
            if i < s.len() - 1 {
                assert(s[i] == rest[i]);
            }
        }
        b
    } else {
        assert(s.subrange(0, s.len() as int) =~= s);
        s.len() as int
    }
}

/// Trimming removes white space from the two ends and nothing else: the
/// result is a contiguous part of the text, everything cut off before or
/// after it is white space, and a non-empty result neither starts nor ends
/// with white space.
pub proof fn law_trim_cuts_only_white_space(s: Seq<char>)
    ensures
        exists|a: int, b: int|
            {
                &&& 0 <= a <= b <= s.len()
                &&& trimmed(s) == s.subrange(a, b)
                &&& forall|i: int| 0 <= i < a ==> is_white_space(#[trigger] s[i])
                &&& forall|i: int| b <= i < s.len() ==> is_white_space(#[trigger] s[i])
            },
        trimmed(s).len() > 0 ==> !is_white_space(trimmed(s)[0]) && !is_white_space(
            trimmed(s).last(),
        ),
{
    let a = lemma_trim_start_bound(s);
    let t = trim_start(s);
    let b = lemma_trim_end_bound(t);
    assert(t.subrange(0, b) =~= s.subrange(a, a + b));
    assert forall|i: int| a + b <= i < s.len() implies is_white_space(#[trigger] s[i]) by {
        assert(s[i] == t[i - a]);
    }
    if trimmed(s).len() > 0 {
        assert(trimmed(s)[0] == s[a]);
    }
    assert(exists|x: int, y: int|
        {
            &&& 0 <= x <= y <= s.len()
            &&& trimmed(s) == s.subrange(x, y)
            &&& forall|i: int| 0 <= i < x ==> is_white_space(#[trigger] s[i])
            &&& forall|i: int| y <= i < s.len() ==> is_white_space(#[trigger] s[i])
        }) by {
        assert(0 <= a <= a + b <= s.len());
    }
}

/// The bounds, within `lo..hi`, of the characters of `v[lo..hi]` that remain
/// once leading and trailing white space is removed.
pub fn trim_range(v: &Vec<char>, lo: usize, hi: usize) -> (r: (usize, usize))
    requires
        lo <= hi <= v.len(),
    ensures
        lo <= r.0 <= r.1 <= hi,
        v@.subrange(r.0 as int, r.1 as int) == trimmed(v@.subrange(lo as int, hi as int)),
{
    let mut a = lo;
    while a < hi && char_is_whitespace(v[a])
        invariant
            lo <= a <= hi <= v.len(),
            trim_start(v@.subrange(lo as int, hi as int)) == trim_start(
                v@.subrange(a as int, hi as int),
            ),
        decreases hi - a,
    {
        assert(v@.subrange(a as int, hi as int).drop_first() =~= v@.subrange(
            a + 1,
            hi as int,
        ));
        a = a + 1;
    }
    assert(trim_start(v@.subrange(lo as int, hi as int)) == v@.subrange(a as int, hi as int));
    let mut b = hi;
    while b > a && char_is_whitespace(v[b - 1])
        invariant
            lo <= a <= b <= hi <= v.len(),
            trim_start(v@.subrange(lo as int, hi as int)) == v@.subrange(a as int, hi as int),
            trim_end(v@.subrange(a as int, hi as int)) == trim_end(v@.subrange(a as int, b as int)),
        decreases b - a,
    {
        assert(v@.subrange(a as int, b as int).drop_last() =~= v@.subrange(
            a as int,
            b - 1,
        ));
        b = b - 1;
    }
    (a, b)
}

/// The pieces of `s` between occurrences of `sep`, as `str::split` yields
/// them: `n` separators give `n + 1` pieces, some possibly empty.
pub open spec fn split_on(s: Seq<char>, sep: char) -> Seq<Seq<char>>
    decreases s.len(),
{
    if s.len() == 0 {
        seq![Seq::empty()]
    } else {
        let before = split_on(s.drop_last(), sep);
        if s.last() == sep {
            before.push(Seq::empty())
        } else {
            before.update(before.len() - 1, before.last().push(s.last()))
        }
    }
}

/// The pieces joined back together, `sep` between each two.
pub open spec fn joined(pieces: Seq<Seq<char>>, sep: char) -> Seq<char>
    decreases pieces.len(),
{
    if pieces.len() <= 1 {
        if pieces.len() == 1 {
            pieces[0]
        } else {
            Seq::empty()
        }
    } else {
        joined(pieces.drop_last(), sep) + seq![sep] + pieces.last()
    }
}

/// Splitting loses nothing and keeps no separator: no piece holds `sep`,
/// and joining the pieces with `sep` gives the text back.
pub proof fn law_split_rejoins(s: Seq<char>, sep: char)
    ensures
        split_on(s, sep).len() >= 1,
        forall|i: int, j: int|
            0 <= i < split_on(s, sep).len() && 0 <= j < split_on(s, sep)[i].len() ==> #[trigger] split_on(
                s,
                sep,
            )[i][j] != sep,
        joined(split_on(s, sep), sep) == s,
    decreases s.len(),
{
    if s.len() == 0 {
        assert(joined(split_on(s, sep), sep) =~= s);
    } else {
        let prefix = s.drop_last();
        let c = s.last();
        law_split_rejoins(prefix, sep);
        let p = split_on(prefix, sep);
        let q = split_on(s, sep);
        if c == sep {
            assert(q == p.push(Seq::empty()));
            assert(q.drop_last() =~= p);
            assert(joined(q, sep) =~= prefix + seq![sep] + Seq::<char>::empty());
            assert(s =~= prefix + seq![sep]);
            assert forall|i: int, j: int| 0 <= i < q.len() && 0 <= j < q[i].len() implies #[trigger] q[i][j]
                != sep by {
                assert(i < p.len());
                assert(q[i] == p[i]);
            }
        } else {
            let last = p.last().push(c);
            assert(q == p.update(p.len() - 1, last));
            assert forall|i: int, j: int| 0 <= i < q.len() && 0 <= j < q[i].len() implies #[trigger] q[i][j]
                != sep by {
                if i < p.len() - 1 {
                    assert(q[i] == p[i]);
                } else {
                    assert(q[i] == last);
                    if j < p.last().len() {
                        assert(q[i][j] == p[i][j]);
                    }
                }
            }
            if p.len() == 1 {
                assert(joined(q, sep) == q[0]);
                assert(joined(p, sep) == p[0]);
                assert(q[0] =~= prefix.push(c));
            } else {
                assert(q.drop_last() =~= p.drop_last());
                assert(joined(q, sep) == joined(p.drop_last(), sep) + seq![sep] + last);
                assert(joined(p, sep) == joined(p.drop_last(), sep) + seq![sep] + p.last());
            }
            assert(s =~= prefix.push(c));
            assert(joined(q, sep) =~= s);
        }
    }
}

/// The text that each range picks out of `v`.
pub open spec fn ranges_text(v: Seq<char>, ranges: Seq<(usize, usize)>) -> Seq<Seq<char>> {
    ranges.map_values(|r: (usize, usize)| v.subrange(r.0 as int, r.1 as int))
}

proof fn lemma_split_on_nonempty(s: Seq<char>, sep: char)
    ensures
        split_on(s, sep).len() >= 1,
    decreases s.len(),
{
    if s.len() > 0 {
        lemma_split_on_nonempty(s.drop_last(), sep);
    }
}

/// Joining two texts with the separator joins their pieces.
pub proof fn lemma_split_on_join(a: Seq<char>, b: Seq<char>, sep: char)
    ensures
        split_on(a + seq![sep] + b, sep) == split_on(a, sep) + split_on(b, sep),
    decreases b.len(),
{
    let joined = a + seq![sep] + b;
    if b.len() == 0 {
        assert(joined.drop_last() =~= a);
        assert(joined.last() == sep);
        assert(split_on(b, sep) =~= seq![Seq::<char>::empty()]);
        assert(split_on(joined, sep) =~= split_on(a, sep) + split_on(b, sep));
    } else {
        let shorter = b.drop_last();
        let c = b.last();
        lemma_split_on_join(a, shorter, sep);
        lemma_split_on_nonempty(shorter, sep);
        lemma_split_on_nonempty(a, sep);
        assert(joined.drop_last() =~= a + seq![sep] + shorter);
        assert(joined.last() == c);
        let x = split_on(a, sep);
        let y = split_on(shorter, sep);
        if c == sep {
            assert(split_on(joined, sep) =~= (x + y).push(Seq::empty()));
            assert((x + y).push(Seq::empty()) =~= x + y.push(Seq::empty()));
        } else {
            let xy = x + y;
            assert(split_on(joined, sep) == xy.update(xy.len() - 1, xy.last().push(c)));
            assert(xy.update(xy.len() - 1, xy.last().push(c)) =~= x + y.update(
                y.len() - 1,
                y.last().push(c),
            ));
        }
    }
}

/// The ranges of the pieces of `v` between occurrences of `sep`.
pub fn split_ranges(v: &Vec<char>, sep: char) -> (r: Vec<(usize, usize)>)
    ensures
        ranges_text(v@, r@) == split_on(v@, sep),
        forall|k: int| #![trigger r@[k]] 0 <= k < r.len() ==> r@[k].0 <= r@[k].1 <= v.len(),
{
    let mut ranges: Vec<(usize, usize)> = Vec::new();
    let mut start: usize = 0;
    let mut i: usize = 0;
    assert(ranges_text(v@, ranges@) =~= Seq::<Seq<char>>::empty());
    assert(v@.take(0) =~= Seq::<char>::empty());
    assert(v@.subrange(0, 0) =~= Seq::<char>::empty());
    while i < v.len()
        invariant
            start <= i <= v.len(),
            forall|k: int| #![trigger ranges@[k]] 0 <= k < ranges.len() ==> ranges@[k].0 <= ranges@[k].1 <= v.len(),
            split_on(v@.take(i as int), sep) == ranges_text(v@, ranges@).push(
                v@.subrange(start as int, i as int),
            ),
        decreases v.len() - i,
    {
        let c = v[i];
        let ghost prefix = v@.take(i + 1);
        assert(prefix.drop_last() =~= v@.take(i as int));
        assert(prefix.last() == c);
        if c == sep {
            let ghost before = ranges@;
            ranges.push((start, i));
            assert(ranges_text(v@, ranges@) =~= ranges_text(v@, before).push(
                v@.subrange(start as int, i as int),
            ));
            assert(split_on(prefix, sep) == split_on(v@.take(i as int), sep).push(Seq::empty()));
            assert(v@.subrange(i + 1, i + 1) =~= Seq::<char>::empty());
            start = i + 1;
        } else {
            proof {
                lemma_split_on_nonempty(v@.take(i as int), sep);
                assert(v@.subrange(start as int, i + 1) =~= v@.subrange(start as int, i as int).push(c));
                let before = split_on(v@.take(i as int), sep);
                assert(split_on(prefix, sep) == before.update(before.len() - 1, before.last().push(c)));
                assert(split_on(prefix, sep) =~= ranges_text(v@, ranges@).push(
                    v@.subrange(start as int, i + 1),
                ));
            }
        }
        i = i + 1;
    }
    assert(v@.take(v.len() as int) =~= v@);
    ranges.push((start, v.len()));
    ranges
}


/// The lowercase form of `s`, as `str::to_lowercase` computes it under the
/// Unicode case mapping.
pub uninterp spec fn lowercase(s: Seq<char>) -> Seq<char>;

/// `str::to_lowercase`. Its result depends on `s` alone and is named here;
/// the Unicode case mapping it applies is left to the standard library.
#[verifier::external_body]
pub(crate) fn to_lowercase(s: &str) -> (r: String)
    ensures
        r@ == lowercase(s@),
{
    s.to_lowercase()
}

} // verus!

//! Validation of IP address literals.
//!
//! A connect request carries the address as text. The manager accepts it
//! only when the text is a well-formed IPv4 or IPv6 literal, and it hands
//! the caller the parsed numeric form, so the operating-system connect can
//! be built from plain numbers and no unchecked parse remains anywhere.
//!
//! The grammar is stated by spec functions over the character sequence:
//! an IPv4 literal is four decimal octets (no leading zeros, each at most
//! 255) joined by dots; an IPv6 literal is eight 16-bit hexadecimal groups
//! joined by colons, with one optional `::` standing for a run of zero
//! groups, and an optional trailing IPv4 literal standing for the last two
//! groups.

use vstd::prelude::*;
use vstd::string::StrSliceExecFns;

verus! {

/// A parsed IP literal: four octets, or eight 16-bit groups.
#[derive(Debug, Clone, Copy, PartialEq, Eq)]
pub enum IpAddress {
    V4(u8, u8, u8, u8),
    V6(u16, u16, u16, u16, u16, u16, u16, u16),
}

/// `c` is a decimal digit.
pub open spec fn is_dec_digit(c: char) -> bool {
    48 <= c as u32 && c as u32 <= 57
}

/// Numeric value of the decimal digit `c`.
pub open spec fn dec_digit_value(c: char) -> int {
    c as u32 - 48
}

/// Every character of `s` is a decimal digit.
pub open spec fn all_dec_digits(s: Seq<char>) -> bool {
    forall|i: int| 0 <= i < s.len() ==> is_dec_digit(#[trigger] s[i])
}

/// Value of `s` read as a decimal numeral.
pub open spec fn dec_seq_value(s: Seq<char>) -> int
    decreases s.len(),
{
    if s.len() == 0 {
        0
    } else {
        dec_seq_value(s.drop_last()) * 10 + dec_digit_value(s.last())
    }
}

/// `s` is one octet of a dotted IPv4 literal: one to three decimal
/// digits, no leading zero, value at most 255.
pub open spec fn is_octet(s: Seq<char>) -> bool {
    &&& 1 <= s.len() <= 3
    &&& all_dec_digits(s)
    &&& (s.len() == 1 || s[0] != '0')
    &&& dec_seq_value(s) <= 255
}

/// The segments of `s` between occurrences of `sep`; always at least one
/// segment, and empty segments mark leading, trailing or doubled
/// separators.
pub open spec fn split_char(s: Seq<char>, sep: char) -> Seq<Seq<char>>
    decreases s.len(),
{
    if s.len() == 0 {
        seq![Seq::<char>::empty()]
    } else if s[0] == sep {
        seq![Seq::<char>::empty()] + split_char(s.skip(1), sep)
    } else {
        let rest = split_char(s.skip(1), sep);
        seq![seq![s[0]] + rest[0]] + rest.skip(1)
    }
}

/// A split has at least one segment.
pub proof fn lemma_split_nonempty(s: Seq<char>, sep: char)
    ensures
        split_char(s, sep).len() >= 1,
    decreases s.len(),
{
    if s.len() > 0 {
        lemma_split_nonempty(s.skip(1), sep);
    }
}

/// Unfolds one scanning step of `split_char` at position `i`.
pub proof fn lemma_split_step(s: Seq<char>, sep: char, i: int)
    requires
        0 <= i < s.len(),
    ensures
        s[i] == sep ==> split_char(s.skip(i), sep) == seq![Seq::<char>::empty()] + split_char(
            s.skip(i + 1),
            sep,
        ),
        s[i] != sep ==> split_char(s.skip(i), sep) == seq![
            seq![s[i]] + split_char(s.skip(i + 1), sep)[0],
        ] + split_char(s.skip(i + 1), sep).skip(1),
{
    let t = s.skip(i);
    assert(t.len() == s.len() - i);
    assert(t[0] == s[i]);
    assert(t.skip(1) =~= s.skip(i + 1));
}

/// Views of a sequence of character vectors.
pub open spec fn seg_views(parts: Seq<Vec<char>>) -> Seq<Seq<char>> {
    parts.map_values(|p: Vec<char>| p@)
}

/// The characters of `s`, one by one.
pub fn chars_of(s: &str) -> (v: Vec<char>)
    ensures
        v@ == s@,
{
    let n: usize = s.unicode_len();
    let mut v: Vec<char> = Vec::new();
    let mut i: usize = 0;
    while i < n
        invariant
            i <= n,
            n == s@.len(),
            v@ == s@.take(i as int),
        decreases n - i,
    {
        let c = s.get_char(i);
        v.push(c);
        i = i + 1;
        assert(v@ =~= s@.take(i as int));
    }
    assert(s@.take(n as int) =~= s@);
    v
}

/// Splits `v` into the segments between occurrences of `sep`, matching
/// `split_char` on the view.
pub fn split_chars(v: &Vec<char>, sep: char) -> (parts: Vec<Vec<char>>)
    ensures
        seg_views(parts@) == split_char(v@, sep),
{
    let ghost target = split_char(v@, sep);
    let n: usize = v.len();
    let mut parts: Vec<Vec<char>> = Vec::new();
    let mut cur: Vec<char> = Vec::new();
    let mut i: usize = 0;
    proof {
        lemma_split_nonempty(v@, sep);
        assert(v@.skip(0) =~= v@);
        let r = split_char(v@.skip(0), sep);
        assert(seq![r[0]] + r.skip(1) =~= r);
        assert(Seq::<char>::empty() + r[0] =~= r[0]);
        assert(seg_views(parts@) + seq![cur@ + r[0]] + r.skip(1) =~= target);
    }
    while i < n
        invariant
            i <= n,
            n == v@.len(),
            target == split_char(v@, sep),
            ({
                let r = split_char(v@.skip(i as int), sep);
                seg_views(parts@) + seq![cur@ + r[0]] + r.skip(1) == target
            }),
        decreases n - i,
    {
        let ghost r = split_char(v@.skip(i as int), sep);
        let ghost r2 = split_char(v@.skip(i as int + 1), sep);
        proof {
            lemma_split_step(v@, sep, i as int);
            lemma_split_nonempty(v@.skip(i as int + 1), sep);
        }
        let c = v[i];
        if c == sep {
            proof {
                assert(r == seq![Seq::<char>::empty()] + r2);
                assert(r[0] =~= Seq::<char>::empty());
                assert(cur@ + r[0] =~= cur@);
                assert(r.skip(1) =~= r2);
            }
            parts.push(cur);
            cur = Vec::new();
            proof {
                assert(seg_views(parts@) =~= seg_views(parts@.drop_last()) + seq![
                    parts@.last()@,
                ]);
                assert(seq![r2[0]] + r2.skip(1) =~= r2);
                assert(cur@ + r2[0] =~= r2[0]);
                assert(seg_views(parts@) + seq![cur@ + r2[0]] + r2.skip(1) =~= target);
            }
        } else {
            proof {
                assert(r == seq![seq![v@[i as int]] + r2[0]] + r2.skip(1));
                assert(r[0] =~= seq![v@[i as int]] + r2[0]);
                assert(r.skip(1) =~= r2.skip(1));
            }
            let ghost cur0 = cur@;
            cur.push(c);
            proof {
                assert(cur@ =~= cur0.push(c));
                assert(cur@ + r2[0] =~= cur0 + r[0]);
                assert(seq![cur@ + r2[0]] =~= seq![cur0 + r[0]]);
                assert(seg_views(parts@) + seq![cur@ + r2[0]] + r2.skip(1) =~= target);
            }
        }
        i = i + 1;
    }
    proof {
        let r = split_char(v@.skip(n as int), sep);
        assert(v@.skip(n as int) =~= Seq::<char>::empty());
        assert(r == seq![Seq::<char>::empty()] || r.len() >= 1);
        assert(r =~= seq![Seq::<char>::empty()]);
        assert(cur@ + r[0] =~= cur@);
        assert(r.skip(1) =~= Seq::<Seq<char>>::empty());
        assert(seg_views(parts@) + seq![cur@] =~= target);
    }
    parts.push(cur);
    proof {
        assert(seg_views(parts@) =~= seg_views(parts@.drop_last()) + seq![parts@.last()@]);
        assert(seg_views(parts@) =~= target);
    }
    parts
}

/// A string of decimal digits of length at most three is below 1000.
pub proof fn lemma_dec_value_bounds(s: Seq<char>)
    requires
        all_dec_digits(s),
    ensures
        0 <= dec_seq_value(s),
        s.len() <= 1 ==> dec_seq_value(s) <= 9,
        s.len() <= 2 ==> dec_seq_value(s) <= 99,
        s.len() <= 3 ==> dec_seq_value(s) <= 999,
    decreases s.len(),
{
    if s.len() > 0 {
        assert(all_dec_digits(s.drop_last())) by {
            assert(forall|i: int|
                0 <= i < s.len() - 1 ==> #[trigger] s.drop_last()[i] == s[i]);
        }
        lemma_dec_value_bounds(s.drop_last());
    }
}

/// Reads one dotted-quad octet; returns its value exactly when the
/// segment is a well-formed octet.
pub fn parse_octet(seg: &Vec<char>) -> (r: Option<u8>)
    ensures
        r is Some <==> is_octet(seg@),
        r matches Some(x) ==> x == dec_seq_value(seg@),
{
    let n: usize = seg.len();
    if n == 0 || n > 3 {
        return None;
    }
    if n > 1 && seg[0] == '0' {
        return None;
    }
    let mut val: u32 = 0;
    let mut i: usize = 0;
    while i < n
        invariant
            i <= n,
            n == seg@.len(),
            1 <= n <= 3,
            forall|j: int| 0 <= j < i ==> is_dec_digit(#[trigger] seg@[j]),
            val == dec_seq_value(seg@.take(i as int)),
            val <= 999,
        decreases n - i,
    {
        let c = seg[i];
        let d: u32 = c as u32;
        if d < 48 || d > 57 {
            assert(!is_dec_digit(seg@[i as int]));
            return None;
        }
        proof {
            assert(all_dec_digits(seg@.take(i as int))) by {
                assert(forall|j: int|
                    0 <= j < i ==> #[trigger] seg@.take(i as int)[j] == seg@[j]);
            }
            lemma_dec_value_bounds(seg@.take(i as int));
            assert(seg@.take(i as int + 1).drop_last() =~= seg@.take(i as int));
            assert(seg@.take(i as int + 1).last() == seg@[i as int]);
        }
        val = val * 10 + (d - 48);
        i = i + 1;
    }
    assert(seg@.take(n as int) =~= seg@);
    if val > 255 {
        return None;
    }
    Some(val as u8)
}

/// The value of `s` read as an IPv4 literal: four octets joined by dots.
pub open spec fn spec_parse_ipv4(s: Seq<char>) -> Option<(u8, u8, u8, u8)> {
    let ps = split_char(s, '.');
    if ps.len() == 4 && is_octet(ps[0]) && is_octet(ps[1]) && is_octet(ps[2]) && is_octet(
        ps[3],
    ) {
        Some(
            (
                dec_seq_value(ps[0]) as u8,
                dec_seq_value(ps[1]) as u8,
                dec_seq_value(ps[2]) as u8,
                dec_seq_value(ps[3]) as u8,
            ),
        )
    } else {
        None
    }
}

/// Reads a dotted-quad IPv4 literal.
pub fn parse_ipv4_chars(v: &Vec<char>) -> (r: Option<(u8, u8, u8, u8)>)
    ensures
        r == spec_parse_ipv4(v@),
{
    let parts = split_chars(v, '.');
    if parts.len() != 4 {
        return None;
    }
    assert(forall|k: int| 0 <= k < 4 ==> #[trigger] parts@[k]@ == split_char(v@, '.')[k]);
    let a = match parse_octet(&parts[0]) {
        Some(x) => x,
        None => {
            return None;
        },
    };
    let b = match parse_octet(&parts[1]) {
        Some(x) => x,
        None => {
            return None;
        },
    };
    let c = match parse_octet(&parts[2]) {
        Some(x) => x,
        None => {
            return None;
        },
    };
    let d = match parse_octet(&parts[3]) {
        Some(x) => x,
        None => {
            return None;
        },
    };
    Some((a, b, c, d))
}

/// `c` is a hexadecimal digit.
pub open spec fn is_hex_digit(c: char) -> bool {
    ||| 48 <= c as u32 && c as u32 <= 57
    ||| 97 <= c as u32 && c as u32 <= 102
    ||| 65 <= c as u32 && c as u32 <= 70
}

/// Numeric value of the hexadecimal digit `c`.
pub open spec fn hex_digit_value(c: char) -> int {
    if 48 <= c as u32 && c as u32 <= 57 {
        c as u32 - 48
    } else if 97 <= c as u32 && c as u32 <= 102 {
        c as u32 - 87
    } else {
        c as u32 - 55
    }
}

/// Every character of `s` is a hexadecimal digit.
pub open spec fn all_hex_digits(s: Seq<char>) -> bool {
    forall|i: int| 0 <= i < s.len() ==> is_hex_digit(#[trigger] s[i])
}

/// Value of `s` read as a hexadecimal numeral.
pub open spec fn hex_seq_value(s: Seq<char>) -> int
    decreases s.len(),
{
    if s.len() == 0 {
        0
    } else {
        hex_seq_value(s.drop_last()) * 16 + hex_digit_value(s.last())
    }
}

/// `s` is one group of an IPv6 literal: one to four hexadecimal digits.
pub open spec fn is_h16(s: Seq<char>) -> bool {
    &&& 1 <= s.len() <= 4
    &&& all_hex_digits(s)
}

/// A string of hexadecimal digits of length at most four is below 2^16.
pub proof fn lemma_hex_value_bounds(s: Seq<char>)
    requires
        all_hex_digits(s),
    ensures
        0 <= hex_seq_value(s),
        s.len() <= 1 ==> hex_seq_value(s) <= 15,
        s.len() <= 2 ==> hex_seq_value(s) <= 255,
        s.len() <= 3 ==> hex_seq_value(s) <= 4095,
        s.len() <= 4 ==> hex_seq_value(s) <= 65535,
    decreases s.len(),
{
    if s.len() > 0 {
        assert(all_hex_digits(s.drop_last())) by {
            assert(forall|i: int|
                0 <= i < s.len() - 1 ==> #[trigger] s.drop_last()[i] == s[i]);
        }
        lemma_hex_value_bounds(s.drop_last());
    }
}

/// Reads one 16-bit group; returns its value exactly when the segment is
/// a well-formed group.
pub fn parse_h16(seg: &Vec<char>) -> (r: Option<u16>)
    ensures
        r is Some <==> is_h16(seg@),
        r matches Some(x) ==> x == hex_seq_value(seg@),
{
    let n: usize = seg.len();
    if n == 0 || n > 4 {
        return None;
    }
    let mut val: u32 = 0;
    let mut i: usize = 0;
    while i < n
        invariant
            i <= n,
            n == seg@.len(),
            1 <= n <= 4,
            forall|j: int| 0 <= j < i ==> is_hex_digit(#[trigger] seg@[j]),
            val == hex_seq_value(seg@.take(i as int)),
            val <= 65535,
        decreases n - i,
    {
        let c = seg[i];
        let d: u32 = c as u32;
        let h: u32;
        if 48 <= d && d <= 57 {
            h = d - 48;
        } else if 97 <= d && d <= 102 {
            h = d - 87;
        } else if 65 <= d && d <= 70 {
            h = d - 55;
        } else {
            assert(!is_hex_digit(seg@[i as int]));
            return None;
        }
        proof {
            assert(all_hex_digits(seg@.take(i as int))) by {
                assert(forall|j: int|
                    0 <= j < i ==> #[trigger] seg@.take(i as int)[j] == seg@[j]);
            }
            lemma_hex_value_bounds(seg@.take(i as int));
            assert(seg@.take(i as int + 1).drop_last() =~= seg@.take(i as int));
            assert(seg@.take(i as int + 1).last() == seg@[i as int]);
        }
        val = val * 16 + h;
        i = i + 1;
    }
    assert(seg@.take(n as int) =~= seg@);
    Some(val as u16)
}

/// Index of the first `::` in `s`, if any.
pub open spec fn find_double_colon(s: Seq<char>) -> Option<int>
    decreases s.len(),
{
    if s.len() < 2 {
        None
    } else if s[0] == ':' && s[1] == ':' {
        Some(0int)
    } else {
        match find_double_colon(s.skip(1)) {
            Some(i) => Some(i + 1),
            None => None,
        }
    }
}

/// A found `::` lies two characters before the end at the latest, and its
/// two characters are colons.
pub proof fn lemma_find_dc_some(s: Seq<char>)
    ensures
        find_double_colon(s) matches Some(k) ==> 0 <= k && k + 2 <= s.len() && s[k] == ':'
            && s[k + 1] == ':',
    decreases s.len(),
{
    if s.len() >= 2 && !(s[0] == ':' && s[1] == ':') {
        lemma_find_dc_some(s.skip(1));
    }
}

/// Unfolds one scanning step of `find_double_colon` at position `i`.
pub proof fn lemma_find_dc_step(s: Seq<char>, i: int)
    requires
        0 <= i,
        i + 2 <= s.len(),
    ensures
        (s[i] == ':' && s[i + 1] == ':') ==> find_double_colon(s.skip(i)) == Some(0int),
        !(s[i] == ':' && s[i + 1] == ':') ==> find_double_colon(s.skip(i)) == (
        match find_double_colon(s.skip(i + 1)) {
            Some(k) => Some(k + 1),
            None => None::<int>,
        }),
{
    let t = s.skip(i);
    assert(t.len() == s.len() - i);
    assert(t[0] == s[i]);
    assert(t[1] == s[i + 1]);
    assert(t.skip(1) =~= s.skip(i + 1));
}

/// Finds the first `::` in `v`, matching `find_double_colon` on the view.
pub fn find_dc(v: &Vec<char>) -> (r: Option<usize>)
    ensures
        match r {
            Some(i) => find_double_colon(v@) == Some(i as int),
            None => find_double_colon(v@) is None,
        },
{
    let n: usize = v.len();
    if n < 2 {
        return None;
    }
    let mut i: usize = 0;
    proof {
        assert(v@.skip(0) =~= v@);
    }
    while i + 1 < n
        invariant
            n == v@.len(),
            2 <= n,
            i + 1 <= n,
            find_double_colon(v@) == (match find_double_colon(v@.skip(i as int)) {
                Some(k) => Some(k + i as int),
                None => None::<int>,
            }),
        decreases n - i,
    {
        proof {
            lemma_find_dc_step(v@, i as int);
        }
        if v[i] == ':' && v[i + 1] == ':' {
            return Some(i);
        }
        i = i + 1;
    }
    proof {
        assert(v@.skip(i as int).len() < 2);
    }
    None
}

/// Views of segments that are all well-formed 16-bit groups.
pub open spec fn all_h16(parts: Seq<Seq<char>>) -> bool {
    forall|k: int| 0 <= k < parts.len() ==> is_h16(#[trigger] parts[k])
}

/// The group values of segments known to be 16-bit groups.
pub open spec fn h16_vals(parts: Seq<Seq<char>>) -> Seq<u16> {
    parts.map_values(|p: Seq<char>| hex_seq_value(p) as u16)
}

/// Group values of a colon-separated run that may end in an embedded
/// IPv4 literal standing for the last two groups.
pub open spec fn spec_tail_groups(parts: Seq<Seq<char>>) -> Option<Seq<u16>> {
    if all_h16(parts) {
        Some(h16_vals(parts))
    } else if parts.len() >= 1 && all_h16(parts.drop_last()) {
        match spec_parse_ipv4(parts.last()) {
            Some(q) => Some(
                h16_vals(parts.drop_last()) + seq![
                    ((q.0 as int) * 256 + (q.1 as int)) as u16,
                    ((q.2 as int) * 256 + (q.3 as int)) as u16,
                ],
            ),
            None => None,
        }
    } else {
        None
    }
}

/// Group values before the `::`: every segment must be a 16-bit group.
pub open spec fn spec_head_groups(s: Seq<char>) -> Option<Seq<u16>> {
    if s.len() == 0 {
        Some(Seq::<u16>::empty())
    } else if all_h16(split_char(s, ':')) {
        Some(h16_vals(split_char(s, ':')))
    } else {
        None
    }
}

/// Group values after the `::`, possibly ending in an embedded IPv4
/// literal.
pub open spec fn spec_tail_side(s: Seq<char>) -> Option<Seq<u16>> {
    if s.len() == 0 {
        Some(Seq::<u16>::empty())
    } else {
        spec_tail_groups(split_char(s, ':'))
    }
}

/// The eight group values of `s` read as an IPv6 literal.
pub open spec fn spec_parse_ipv6(s: Seq<char>) -> Option<Seq<u16>> {
    match find_double_colon(s) {
        None => match spec_tail_groups(split_char(s, ':')) {
            Some(g) => if g.len() == 8 {
                Some(g)
            } else {
                None
            },
            None => None,
        },
        Some(i) => match (spec_head_groups(s.take(i)), spec_tail_side(s.skip(i + 2))) {
            (Some(l), Some(t)) => if l.len() + t.len() <= 7 {
                Some(l + Seq::new((8 - l.len() - t.len()) as nat, |k: int| 0u16) + t)
            } else {
                None
            },
            _ => None,
        },
    }
}

/// An IPv6 literal always has exactly eight groups.
pub proof fn lemma_ipv6_groups_len(s: Seq<char>)
    ensures
        spec_parse_ipv6(s) matches Some(g) ==> g.len() == 8,
{
}

/// Reads a run of colon-separated 16-bit groups, all of which must be
/// well formed.
pub fn parse_h16_groups(parts: &Vec<Vec<char>>) -> (r: Option<Vec<u16>>)
    ensures
        r is Some <==> all_h16(seg_views(parts@)),
        r matches Some(g) ==> g@ == h16_vals(seg_views(parts@)),
{
    let ghost pv = seg_views(parts@);
    let n: usize = parts.len();
    let mut g: Vec<u16> = Vec::new();
    let mut k: usize = 0;
    proof {
        assert(g@ =~= h16_vals(pv.take(0)));
    }
    while k < n
        invariant
            k <= n,
            n == parts@.len(),
            pv == seg_views(parts@),
            pv.len() == n,
            forall|j: int| 0 <= j < k ==> is_h16(#[trigger] pv[j]),
            g@ == h16_vals(pv.take(k as int)),
        decreases n - k,
    {
        assert(pv[k as int] == parts@[k as int]@);
        match parse_h16(&parts[k]) {
            Some(x) => {
                g.push(x);
                proof {
                    assert(pv.take(k as int + 1).drop_last() =~= pv.take(k as int));
                    assert(pv.take(k as int + 1).last() == pv[k as int]);
                    assert(h16_vals(pv.take(k as int + 1)) =~= h16_vals(pv.take(k as int)).push(
                        hex_seq_value(pv[k as int]) as u16,
                    ));
                }
                k = k + 1;
            },
            None => {
                assert(!is_h16(pv[k as int]));
                return None;
            },
        }
    }
    proof {
        assert(pv.take(n as int) =~= pv);
    }
    Some(g)
}

/// Reads a colon-separated run that may end in an embedded IPv4 literal,
/// matching `spec_tail_groups` on the views.
pub fn parse_tail_groups(parts: &Vec<Vec<char>>) -> (r: Option<Vec<u16>>)
    ensures
        r is Some <==> spec_tail_groups(seg_views(parts@)) is Some,
        r matches Some(g) ==> spec_tail_groups(seg_views(parts@)) == Some(g@),
{
    let ghost pv = seg_views(parts@);
    let n: usize = parts.len();
    let mut g: Vec<u16> = Vec::new();
    let mut k: usize = 0;
    proof {
        assert(g@ =~= h16_vals(pv.take(0)));
    }
    while k < n
        invariant
            k <= n,
            n == parts@.len(),
            pv == seg_views(parts@),
            pv.len() == n,
            forall|j: int| 0 <= j < k ==> is_h16(#[trigger] pv[j]),
            g@ == h16_vals(pv.take(k as int)),
        decreases n - k,
    {
        assert(pv[k as int] == parts@[k as int]@);
        match parse_h16(&parts[k]) {
            Some(x) => {
                g.push(x);
                proof {
                    assert(pv.take(k as int + 1).drop_last() =~= pv.take(k as int));
                    assert(pv.take(k as int + 1).last() == pv[k as int]);
                    assert(h16_vals(pv.take(k as int + 1)) =~= h16_vals(pv.take(k as int)).push(
                        hex_seq_value(pv[k as int]) as u16,
                    ));
                }
                k = k + 1;
            },
            None => {
                assert(!is_h16(pv[k as int]));
                assert(!all_h16(pv));
                if k + 1 == n {
                    proof {
                        assert(pv.drop_last() =~= pv.take(k as int));
                        assert(pv.last() == pv[k as int]);
                    }
                    match parse_ipv4_chars(&parts[k]) {
                        Some(q) => {
                            let hi: u16 = (q.0 as u16) * 256 + (q.1 as u16);
                            let lo: u16 = (q.2 as u16) * 256 + (q.3 as u16);
                            g.push(hi);
                            g.push(lo);
                            proof {
                                assert(g@ =~= h16_vals(pv.drop_last()) + seq![hi, lo]);
                            }
                            return Some(g);
                        },
                        None => {
                            return None;
                        },
                    }
                } else {
                    proof {
                        assert(pv.drop_last()[k as int] == pv[k as int]);
                        assert(!all_h16(pv.drop_last()));
                    }
                    return None;
                }
            },
        }
    }
    proof {
        assert(pv.take(n as int) =~= pv);
    }
    Some(g)
}

/// Copies the characters of `v` between positions `a` and `b`.
pub fn subrange_vec(v: &Vec<char>, a: usize, b: usize) -> (w: Vec<char>)
    requires
        a <= b,
        b <= v@.len(),
    ensures
        w@ == v@.subrange(a as int, b as int),
{
    let mut w: Vec<char> = Vec::new();
    let mut i: usize = a;
    proof {
        assert(w@ =~= v@.subrange(a as int, a as int));
    }
    while i < b
        invariant
            a <= i <= b,
            b <= v@.len(),
            w@ == v@.subrange(a as int, i as int),
        decreases b - i,
    {
        w.push(v[i]);
        i = i + 1;
        assert(w@ =~= v@.subrange(a as int, i as int));
    }
    w
}

/// Reads an IPv6 literal, matching `spec_parse_ipv6` on the view.
pub fn parse_ipv6_chars(v: &Vec<char>) -> (r: Option<Vec<u16>>)
    ensures
        r is Some <==> spec_parse_ipv6(v@) is Some,
        r matches Some(g) ==> spec_parse_ipv6(v@) == Some(g@),
{
    let n: usize = v.len();
    match find_dc(v) {
        Some(i) => {
            proof {
                lemma_find_dc_some(v@);
            }
            let left = subrange_vec(v, 0, i);
            let right = subrange_vec(v, i + 2, n);
            proof {
                assert(left@ =~= v@.take(i as int));
                assert(right@ =~= v@.skip(i as int + 2));
            }
            let lg: Vec<u16>;
            if left.len() == 0 {
                lg = Vec::new();
                assert(lg@ =~= Seq::<u16>::empty());
            } else {
                let lparts = split_chars(&left, ':');
                match parse_h16_groups(&lparts) {
                    Some(x) => {
                        lg = x;
                    },
                    None => {
                        return None;
                    },
                }
            }
            let tg: Vec<u16>;
            if right.len() == 0 {
                tg = Vec::new();
                assert(tg@ =~= Seq::<u16>::empty());
            } else {
                let rparts = split_chars(&right, ':');
                match parse_tail_groups(&rparts) {
                    Some(x) => {
                        tg = x;
                    },
                    None => {
                        return None;
                    },
                }
            }
            if lg.len() > 7 {
                return None;
            }
            if tg.len() > 7 - lg.len() {
                return None;
            }
            let ghost lval = lg@;
            let ghost tval = tg@;
            let zeros: usize = 8 - lg.len() - tg.len();
            let mut g = lg;
            let mut z: usize = 0;
            while z < zeros
                invariant
                    z <= zeros,
                    g@ == lval + Seq::new(z as nat, |q: int| 0u16),
                decreases zeros - z,
            {
                g.push(0u16);
                z = z + 1;
                assert(g@ =~= lval + Seq::new(z as nat, |q: int| 0u16));
            }
            let mut tgm = tg;
            g.append(&mut tgm);
            proof {
                assert(g@ =~= lval + Seq::new((8 - lval.len() - tval.len()) as nat, |q: int| 0u16)
                    + tval);
            }
            Some(g)
        },
        None => {
            let parts = split_chars(v, ':');
            match parse_tail_groups(&parts) {
                Some(gg) => {
                    if gg.len() == 8 {
                        Some(gg)
                    } else {
                        None
                    }
                },
                None => None,
            }
        },
    }
}

/// The value of `s` read as an IP literal, IPv4 or IPv6.
pub open spec fn spec_parse_ip(s: Seq<char>) -> Option<IpAddress> {
    match spec_parse_ipv4(s) {
        Some(q) => Some(IpAddress::V4(q.0, q.1, q.2, q.3)),
        None => match spec_parse_ipv6(s) {
            Some(g) => Some(
                IpAddress::V6(g[0], g[1], g[2], g[3], g[4], g[5], g[6], g[7]),
            ),
            None => None,
        },
    }
}

/// `s` is a well-formed IPv4 or IPv6 literal.
pub open spec fn is_valid_ip_literal(s: Seq<char>) -> bool {
    spec_parse_ip(s) is Some
}

/// Reads an IP literal from text; returns the parsed address exactly
/// when the text is a well-formed IPv4 or IPv6 literal.
pub fn parse_ip(s: &str) -> (r: Option<IpAddress>)
    ensures
        r == spec_parse_ip(s@),
        r is Some <==> is_valid_ip_literal(s@),
{
    let v = chars_of(s);
    match parse_ipv4_chars(&v) {
        Some(q) => {
            return Some(IpAddress::V4(q.0, q.1, q.2, q.3));
        },
        None => {},
    }
    match parse_ipv6_chars(&v) {
        Some(g) => {
            proof {
                lemma_ipv6_groups_len(v@);
            }
            Some(IpAddress::V6(g[0], g[1], g[2], g[3], g[4], g[5], g[6], g[7]))
        },
        None => None,
    }
}

} // verus!

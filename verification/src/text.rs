//! Character-sequence utilities shared by the configuration parser and the
//! access classifier: whitespace trimming, comma splitting, prefix tests and
//! decimal parsing, each specified over `Seq<char>`.

use vstd::prelude::*;

verus! {

use vstd::string::StrSliceExecFns;

/// ASCII whitespace, the class this crate trims around configuration fields.
pub open spec fn is_space(c: char) -> bool {
    c == ' ' || c == '\t' || c == '\n' || c == '\r' || c == '\u{c}'
}

/// `s` with its leading whitespace removed.
pub open spec fn trim_front(s: Seq<char>) -> Seq<char>
    decreases s.len(),
{
    if s.len() > 0 && is_space(s.first()) {
        trim_front(s.drop_first())
    } else {
        s
    }
}

/// `s` with its trailing whitespace removed.
pub open spec fn trim_back(s: Seq<char>) -> Seq<char>
    decreases s.len(),
{
    if s.len() > 0 && is_space(s.last()) {
        trim_back(s.drop_last())
    } else {
        s
    }
}

/// `s` with both leading and trailing whitespace removed.
pub open spec fn spec_trim(s: Seq<char>) -> Seq<char> {
    trim_back(trim_front(s))
}

/// Index of the first comma in `s`, or `s.len()` if there is none.
pub open spec fn find_comma(s: Seq<char>) -> int
    decreases s.len(),
{
    if s.len() == 0 {
        0
    } else if s.first() == ',' {
        0
    } else {
        1 + find_comma(s.drop_first())
    }
}

/// `find_comma` stays within the bounds of its argument.
pub proof fn lemma_find_comma_bounds(s: Seq<char>)
    ensures
        0 <= find_comma(s) <= s.len(),
    decreases s.len(),
{
    if s.len() == 0 {
    } else if s.first() == ',' {
    } else {
        lemma_find_comma_bounds(s.drop_first());
    }
}

/// The comma-separated fields of `s`, each trimmed, empty fields dropped.
pub open spec fn csv_fields(s: Seq<char>) -> Seq<Seq<char>>
    decreases s.len(),
    via csv_fields_decreases
{
    let i = find_comma(s);
    let field = spec_trim(s.take(i));
    let rest = if i < s.len() {
        csv_fields(s.skip(i + 1))
    } else {
        Seq::<Seq<char>>::empty()
    };
    if field.len() > 0 {
        seq![field] + rest
    } else {
        rest
    }
}

#[via_fn]
proof fn csv_fields_decreases(s: Seq<char>) {
    lemma_find_comma_bounds(s);
}

/// `p` is a prefix of `s`.
pub open spec fn spec_starts_with(s: Seq<char>, p: Seq<char>) -> bool {
    p.len() <= s.len() && s.take(p.len() as int) == p
}

/// `find_comma` is the unique index with no comma before it and a comma (or
/// the end of the sequence) at it.
pub proof fn lemma_find_comma_at(s: Seq<char>, m: int)
    requires
        0 <= m <= s.len(),
        forall|k: int| 0 <= k < m ==> s[k] != ',',
        m < s.len() ==> s[m] == ',',
    ensures
        find_comma(s) == m,
    decreases s.len(),
{
    if s.len() == 0 {
    } else if s.first() == ',' {
    } else {
        lemma_find_comma_at(s.drop_first(), m - 1);
    }
}

/// `trim_front` removes exactly the leading run of whitespace.
pub proof fn lemma_trim_front_skip(s: Seq<char>, a: int)
    requires
        0 <= a <= s.len(),
        forall|k: int| 0 <= k < a ==> is_space(s[k]),
        a < s.len() ==> !is_space(s[a]),
    ensures
        trim_front(s) == s.skip(a),
    decreases a,
{
    if a == 0 {
        assert(s.skip(0) =~= s);
    } else {
        lemma_trim_front_skip(s.drop_first(), a - 1);
        assert(s.drop_first().skip(a - 1) =~= s.skip(a));
    }
}

/// `trim_back` removes exactly the trailing run of whitespace.
pub proof fn lemma_trim_back_take(s: Seq<char>, b: int)
    requires
        0 <= b <= s.len(),
        forall|k: int| b <= k < s.len() ==> is_space(s[k]),
        b > 0 ==> !is_space(s[b - 1]),
    ensures
        trim_back(s) == s.take(b),
    decreases s.len(),
{
    if b == s.len() {
        if s.len() > 0 && is_space(s.last()) {
            assert(!is_space(s[b - 1]));
            assert(false);
        }
        assert(s.take(b) =~= s);
    } else {
        assert(is_space(s.last()));
        lemma_trim_back_take(s.drop_last(), b);
        assert(s.drop_last().take(b) =~= s.take(b));
    }
}

/// A trimmed subrange of `s`, described by its bounds: whitespace on both
/// sides, non-whitespace just inside.
pub proof fn lemma_trim_bounds(s: Seq<char>, a: int, b: int)
    requires
        0 <= a < b <= s.len(),
        forall|k: int| 0 <= k < a ==> is_space(s[k]),
        forall|k: int| b <= k < s.len() ==> is_space(s[k]),
        !is_space(s[a]),
        !is_space(s[b - 1]),
    ensures
        spec_trim(s) == s.subrange(a, b),
{
    lemma_trim_front_skip(s, a);
    lemma_trim_back_take(s.skip(a), b - a);
    assert(s.skip(a).take(b - a) =~= s.subrange(a, b));
}

/// A sequence of nothing but whitespace trims to the empty sequence.
pub proof fn lemma_trim_all_space(s: Seq<char>)
    requires
        forall|k: int| 0 <= k < s.len() ==> is_space(s[k]),
    ensures
        spec_trim(s).len() == 0,
{
    lemma_trim_front_skip(s, s.len() as int);
    assert(s.skip(s.len() as int) =~= Seq::<char>::empty());
}

/// Whether `c` is in the whitespace class this crate trims.
pub fn is_space_char(c: char) -> (r: bool)
    ensures
        r == is_space(c),
{
    c == ' ' || c == '\t' || c == '\n' || c == '\r' || c == '\u{c}'
}

/// Splits `s` at commas into its trimmed, nonempty fields.
pub fn split_csv(s: &str) -> (fields: Vec<String>)
    ensures
        fields.deep_view() == csv_fields(s@),
{
    let n: usize = s.unicode_len();
    let mut fields: Vec<String> = Vec::new();
    let mut i: usize = 0;
    proof {
        assert(s@.skip(0) =~= s@);
        assert(Seq::<Seq<char>>::empty() + csv_fields(s@) =~= csv_fields(s@));
    }
    loop
        invariant_except_break
            i <= n,
            n == s@.len(),
            csv_fields(s@) == fields.deep_view() + csv_fields(s@.skip(i as int)),
        ensures
            fields.deep_view() == csv_fields(s@),
        decreases n - i,
    {
        // scan to the next comma or the end
        let mut j: usize = i;
        while j < n && s.get_char(j) != ','
            invariant
                i <= j <= n,
                n == s@.len(),
                forall|k: int| i <= k < j ==> s@[k] != ',',
            decreases n - j,
        {
            j = j + 1;
        }
        // strip whitespace on both sides of the segment
        let mut a: usize = i;
        while a < j && is_space_char(s.get_char(a))
            invariant
                i <= a <= j <= n,
                n == s@.len(),
                forall|k: int| i <= k < a ==> is_space(s@[k]),
            decreases j - a,
        {
            a = a + 1;
        }
        proof {
            let t = s@.skip(i as int);
            assert forall|k: int| 0 <= k < j - i implies t[k] != ',' by {
                assert(t[k] == s@[k + i]);
            }
            lemma_find_comma_at(t, j - i);
            assert(t.take(j - i) =~= s@.subrange(i as int, j as int));
            if j < n {
                assert(t.skip(j - i + 1) =~= s@.skip(j as int + 1));
            }
        }
        if a == j {
            proof {
                let seg = s@.subrange(i as int, j as int);
                assert forall|k: int| 0 <= k < seg.len() implies is_space(seg[k]) by {
                    assert(seg[k] == s@[k + i]);
                }
                lemma_trim_all_space(seg);
            }
        } else {
            let mut b: usize = j;
            while b > a && is_space_char(s.get_char(b - 1))
                invariant
                    i <= a < b <= j <= n,
                    n == s@.len(),
                    !is_space(s@[a as int]),
                    forall|k: int| b <= k < j ==> is_space(s@[k]),
                decreases b,
            {
                b = b - 1;
            }
            let piece: &str = s.substring_char(a, b);
            let ghost old_dv = fields.deep_view();
            fields.push(piece.to_owned());
            proof {
                let seg = s@.subrange(i as int, j as int);
                assert forall|k: int| 0 <= k < a - i implies is_space(seg[k]) by {
                    assert(seg[k] == s@[k + i]);
                }
                assert forall|k: int| b - i <= k < seg.len() implies is_space(seg[k]) by {
                    assert(seg[k] == s@[k + i]);
                }
                assert(seg[a - i] == s@[a as int]);
                assert(seg[b - i - 1] == s@[b as int - 1]);
                lemma_trim_bounds(seg, a - i, b - i);
                assert(seg.subrange(a - i, b - i) =~= s@.subrange(a as int, b as int));
                assert(piece@ == s@.subrange(a as int, b as int));
                assert(fields.deep_view() =~= old_dv.push(piece@));
                assert(fields.deep_view() =~= old_dv + seq![piece@]);
            }
        }
        if j == n {
            proof {
                assert(fields.deep_view() + Seq::<Seq<char>>::empty() =~= fields.deep_view());
                assert(csv_fields(s@) =~= fields.deep_view());
            }
            break;
        }
        proof {
            let rest = csv_fields(s@.skip(j as int + 1));
            assert(csv_fields(s@) =~= fields.deep_view() + rest);
        }
        i = j + 1;
    }
    fields
}

/// Whether `p` is a prefix of `s`, decided character by character.
pub fn str_starts_with(s: &str, p: &str) -> (r: bool)
    ensures
        r == spec_starts_with(s@, p@),
{
    let sn: usize = s.unicode_len();
    let pn: usize = p.unicode_len();
    if pn > sn {
        return false;
    }
    let mut k: usize = 0;
    while k < pn
        invariant
            k <= pn <= sn,
            sn == s@.len(),
            pn == p@.len(),
            forall|m: int| 0 <= m < k ==> s@[m] == p@[m],
        decreases pn - k,
    {
        if s.get_char(k) != p.get_char(k) {
            proof {
                assert(s@.take(pn as int)[k as int] == s@[k as int]);
            }
            return false;
        }
        k = k + 1;
    }
    proof {
        assert(s@.take(pn as int) =~= p@);
    }
    true
}

/// Whether two string slices hold the same characters.
pub fn str_eq(a: &str, b: &str) -> (r: bool)
    ensures
        r == (a@ == b@),
{
    let an: usize = a.unicode_len();
    let bn: usize = b.unicode_len();
    if an != bn {
        proof {
            assert(a@ != b@) by {
                if a@ == b@ {
                    assert(a@.len() == b@.len());
                }
            }
        }
        return false;
    }
    let r = str_starts_with(a, b);
    proof {
        if r {
            assert(a@.take(bn as int) =~= a@);
        } else {
            assert(a@ != b@) by {
                if a@ == b@ {
                    assert(a@.take(bn as int) =~= b@);
                }
            }
        }
    }
    r
}

/// An ASCII decimal digit.
pub open spec fn is_digit(c: char) -> bool {
    '0' <= c && c <= '9'
}

/// `s` is nonempty and consists of decimal digits only.
pub open spec fn all_digits(s: Seq<char>) -> bool {
    s.len() > 0 && forall|k: int| 0 <= k < s.len() ==> is_digit(#[trigger] s[k])
}

/// The number denoted by the digit characters of `s`, most significant first.
pub open spec fn digits_val(s: Seq<char>) -> int
    decreases s.len(),
{
    if s.len() == 0 {
        0
    } else {
        digits_val(s.drop_last()) * 10 + (s.last() as int - '0' as int)
    }
}

/// A digit string denotes a nonnegative number.
pub proof fn lemma_digits_val_nonneg(s: Seq<char>)
    requires
        forall|k: int| 0 <= k < s.len() ==> is_digit(#[trigger] s[k]),
    ensures
        digits_val(s) >= 0,
    decreases s.len(),
{
    if s.len() > 0 {
        lemma_digits_val_nonneg(s.drop_last());
    }
}

/// Extending a digit string to the right can only increase its value.
pub proof fn lemma_digits_val_extend(s: Seq<char>, m: int)
    requires
        0 <= m <= s.len(),
        digits_val(s.take(m)) >= 0,
        forall|k: int| m <= k < s.len() ==> is_digit(#[trigger] s[k]),
    ensures
        digits_val(s) >= digits_val(s.take(m)),
    decreases s.len(),
{
    if s.len() > m {
        assert(s.drop_last().take(m) =~= s.take(m));
        lemma_digits_val_extend(s.drop_last(), m);
    } else {
        assert(s.take(m) =~= s);
    }
}

/// Parses `s` as an unsigned decimal number: digits only, no sign, value
/// within `u32`.
pub fn parse_u32(s: &str) -> (r: Option<u32>)
    ensures
        match r {
            Some(v) => all_digits(s@) && v as int == digits_val(s@),
            None => !(all_digits(s@) && digits_val(s@) <= u32::MAX as int),
        },
{
    let n: usize = s.unicode_len();
    if n == 0 {
        return None;
    }
    let mut acc: u32 = 0;
    let mut k: usize = 0;
    while k < n
        invariant
            0 <= k <= n,
            n == s@.len(),
            n > 0,
            forall|m: int| 0 <= m < k ==> is_digit(#[trigger] s@[m]),
            acc as int == digits_val(s@.take(k as int)),
        decreases n - k,
    {
        let c = s.get_char(k);
        let cv = c as u32;
        if cv < 48 || cv > 57 {
            assert(!is_digit(s@[k as int]));
            return None;
        }
        let digit: u32 = cv - 48;
        let next: u64 = acc as u64 * 10 + digit as u64;
        proof {
            assert(s@.take(k as int + 1).drop_last() =~= s@.take(k as int));
            assert(s@.take(k as int + 1).last() == s@[k as int]);
        }
        if next > u32::MAX as u64 {
            proof {
                if all_digits(s@) {
                    lemma_digits_val_nonneg(s@.take(k as int + 1));
                    lemma_digits_val_extend(s@, k as int + 1);
                }
            }
            return None;
        }
        acc = next as u32;
        k = k + 1;
    }
    proof {
        assert(s@.take(n as int) =~= s@);
    }
    Some(acc)
}

/// The decimal digit characters of `n`, as ASCII bytes, most significant
/// first.
pub open spec fn dec_of(n: nat) -> Seq<u8>
    decreases n,
{
    if n < 10 {
        seq![(n + 48) as u8]
    } else {
        dec_of(n / 10).push((n % 10 + 48) as u8)
    }
}

/// Formats `n` in decimal as ASCII bytes.
pub fn decimal_bytes(n: u128) -> (out: Vec<u8>)
    ensures
        out@ == dec_of(n as nat),
{
    let mut rev: Vec<u8> = Vec::new();
    let mut m: u128 = n;
    if n == 0 {
        let mut out: Vec<u8> = Vec::new();
        out.push(48u8);
        proof {
            assert(out@ =~= dec_of(0));
        }
        return out;
    }
    loop
        invariant_except_break
            m > 0,
            dec_of(n as nat) == dec_of(m as nat) + rev@.reverse(),
        ensures
            dec_of(n as nat) == rev@.reverse(),
        decreases m,
    {
        let d: u8 = (m % 10) as u8 + 48;
        let m2: u128 = m / 10;
        let ghost old_rev = rev@;
        rev.push(d);
        proof {
            assert(rev@.reverse() =~= seq![d] + old_rev.reverse());
            if m >= 10 {
                assert(dec_of(m as nat) == dec_of(m2 as nat).push(d));
                assert(dec_of(m2 as nat).push(d) + old_rev.reverse() =~= dec_of(m2 as nat)
                    + rev@.reverse());
            } else {
                assert(dec_of(m as nat) =~= seq![d]);
                assert(seq![d] + old_rev.reverse() =~= rev@.reverse());
            }
        }
        if m2 == 0 {
            break;
        }
        m = m2;
    }
    let rn: usize = rev.len();
    let mut out: Vec<u8> = Vec::new();
    let mut k: usize = rn;
    while k > 0
        invariant
            0 <= k <= rn,
            rn == rev@.len(),
            out@.len() == rn - k,
            forall|idx: int| 0 <= idx < out@.len() ==> out@[idx] == rev@[rn - 1 - idx],
        decreases k,
    {
        k = k - 1;
        out.push(rev[k]);
    }
    proof {
        assert(out@ =~= rev@.reverse());
    }
    out
}

/// Whether some entry of `v` equals `s`.
pub fn contains_string(v: &Vec<String>, s: &String) -> (r: bool)
    ensures
        r == v.deep_view().contains(s@),
{
    let n: usize = v.len();
    let mut i: usize = 0;
    while i < n
        invariant
            n == v.len(),
            0 <= i <= n,
            forall|k: int| 0 <= k < i ==> v.deep_view()[k] != s@,
        decreases n - i,
    {
        if v[i] == *s {
            assert(v.deep_view()[i as int] == s@);
            return true;
        }
        i = i + 1;
    }
    false
}

} // verus!

//! Verified string utilities the protocol client, the path allocator and the
//! classifier build on: prefix tests, separator splitting, query stripping,
//! space decoding and decimal rendering.
use vstd::prelude::*;
use vstd::string::*;

verus! {

/// Whether `s` begins with the prefix `p`.
pub fn str_starts_with(s: &str, p: &str) -> (r: bool)
    ensures
        r == crate::starts_with_spec(s@, p@),
{
    let n = p.unicode_len();
    if s.unicode_len() < n {
        return false;
    }
    let mut i: usize = 0;
    while i < n
        invariant
            i <= n,
            n == p@.len(),
            s@.len() >= n,
            forall|j: int| 0 <= j < i ==> s@[j] == p@[j],
        decreases n - i,
    {
        if s.get_char(i) != p.get_char(i) {
            return false;
        }
        i += 1;
    }
    proof {
        assert(s@.subrange(0, n as int) =~= p@);
    }
    true
}

/// Whether two string slices hold the same characters.
pub fn str_eq(a: &str, b: &str) -> (r: bool)
    ensures
        r == (a@ == b@),
{
    let n = a.unicode_len();
    if b.unicode_len() != n {
        return false;
    }
    let mut i: usize = 0;
    while i < n
        invariant
            i <= n,
            n == a@.len(),
            n == b@.len(),
            forall|j: int| 0 <= j < i ==> a@[j] == b@[j],
        decreases n - i,
    {
        if a.get_char(i) != b.get_char(i) {
            return false;
        }
        i += 1;
    }
    proof {
        assert(a@ =~= b@);
    }
    true
}

/// Index of the first occurrence of `c` in `s`, or `s.len()` when `c` does
/// not occur.
pub open spec fn first_index_of(s: Seq<char>, c: char) -> int
    decreases s.len(),
{
    if s.len() == 0 {
        0
    } else if s[0] == c {
        0
    } else {
        1 + first_index_of(s.drop_first(), c)
    }
}

/// `first_index_of` is in bounds, points at `c` when `c` occurs, and nothing
/// before it is `c`.
pub proof fn lemma_first_index_of(s: Seq<char>, c: char)
    ensures
        0 <= first_index_of(s, c) <= s.len(),
        forall|j: int| 0 <= j < first_index_of(s, c) ==> s[j] != c,
        first_index_of(s, c) < s.len() ==> s[first_index_of(s, c)] == c,
    decreases s.len(),
{
    if s.len() > 0 && s[0] != c {
        lemma_first_index_of(s.drop_first(), c);
        let i = first_index_of(s.drop_first(), c);
        assert forall|j: int| 0 <= j < 1 + i implies s[j] != c by {
            if j > 0 {
                assert(s.drop_first()[j - 1] == s[j]);
            }
        }
        if 1 + i < s.len() {
            assert(s[1 + i] == s.drop_first()[i]);
        }
    }
}

/// A position that is preceded only by non-`c` characters and either sits on
/// a `c` or at the end is exactly `first_index_of`.
pub proof fn lemma_first_index_of_from_scan(s: Seq<char>, c: char, i: int)
    requires
        0 <= i <= s.len(),
        forall|j: int| 0 <= j < i ==> s[j] != c,
        i < s.len() ==> s[i] == c,
    ensures
        first_index_of(s, c) == i,
{
    lemma_first_index_of(s, c);
}

/// The characters of `s` strictly before the first occurrence of `c`
/// (all of `s` when `c` does not occur).
pub open spec fn before_char(s: Seq<char>, c: char) -> Seq<char> {
    s.subrange(0, first_index_of(s, c))
}

/// The prefix of `s` up to, and not including, the first occurrence of `c`.
pub fn strip_after<'a>(s: &'a str, c: char) -> (r: &'a str)
    ensures
        r@ == before_char(s@, c),
{
    let n = s.unicode_len();
    let mut i: usize = 0;
    while i < n
        invariant
            i <= n,
            n == s@.len(),
            forall|j: int| 0 <= j < i ==> s@[j] != c,
        decreases n - i,
    {
        if s.get_char(i) == c {
            proof {
                lemma_first_index_of_from_scan(s@, c, i as int);
            }
            return s.substring_char(0, i);
        }
        i += 1;
    }
    proof {
        lemma_first_index_of_from_scan(s@, c, n as int);
    }
    s.substring_char(0, n)
}

/// `s` split at every occurrence of `sep`; separators are not kept, and
/// leading, trailing and doubled separators yield empty segments, as
/// `str::split` does.
pub open spec fn split_spec(s: Seq<char>, sep: char) -> Seq<Seq<char>>
    decreases s.len(),
{
    let i = first_index_of(s, sep);
    if !(0 <= i < s.len()) {
        seq![s]
    } else {
        seq![s.subrange(0, i)] + split_spec(s.subrange(i + 1, s.len() as int), sep)
    }
}

/// Splits `s` at every occurrence of `sep`, as `str::split` does.
pub fn split_char(s: &str, sep: char) -> (r: Vec<String>)
    ensures
        r.deep_view() == split_spec(s@, sep),
    decreases s@.len(),
{
    let n = s.unicode_len();
    let mut i: usize = 0;
    while i < n
        invariant
            i <= n,
            n == s@.len(),
            forall|j: int| 0 <= j < i ==> s@[j] != sep,
        decreases n - i,
    {
        if s.get_char(i) == sep {
            proof {
                lemma_first_index_of_from_scan(s@, sep, i as int);
            }
            let head = s.substring_char(0, i);
            let tail = s.substring_char(i + 1, n);
            let mut r = split_char(tail, sep);
            r.insert(0, String::from_str(head));
            proof {
                assert(r.deep_view() =~= seq![head@] + split_spec(tail@, sep));
            }
            return r;
        }
        i += 1;
    }
    proof {
        lemma_first_index_of_from_scan(s@, sep, n as int);
    }
    let mut r: Vec<String> = Vec::new();
    r.push(String::from_str(s));
    proof {
        assert(r.deep_view() =~= seq![s@]);
    }
    r
}

/// Relies on std's `String::push`: appends exactly the one character `c` to
/// the end of `s`.
#[verifier::external_body]
pub(crate) fn push_char(s: &mut String, c: char)
    ensures
        final(s)@ == old(s)@.push(c),
{
    s.push(c);
}

/// The characters of `s` strictly after the last occurrence of `c`
/// (all of `s` when `c` does not occur); what `str::split(c).last()` yields.
pub open spec fn after_last_char(s: Seq<char>, c: char) -> Seq<char>
    decreases s.len(),
{
    if s.len() == 0 {
        s
    } else if s.last() == c {
        Seq::empty()
    } else {
        after_last_char(s.drop_last(), c).push(s.last())
    }
}

/// A suffix of `s` whose start is just past a `c` (or at the very start when
/// `c` does not occur) and that holds no `c` is `after_last_char`.
pub proof fn lemma_after_last_char_from_scan(s: Seq<char>, c: char, i: int)
    requires
        0 <= i <= s.len(),
        forall|j: int| i <= j < s.len() ==> s[j] != c,
        i > 0 ==> s[i - 1] == c,
    ensures
        after_last_char(s, c) == s.subrange(i, s.len() as int),
    decreases s.len(),
{
    if i == s.len() {
        if i > 0 {
            assert(s.last() == c);
            assert(after_last_char(s, c) =~= s.subrange(i, s.len() as int));
        } else {
            assert(after_last_char(s, c) =~= s.subrange(0, 0));
        }
    } else {
        assert(s.last() != c);
        lemma_after_last_char_from_scan(s.drop_last(), c, i);
        assert(after_last_char(s, c) =~= s.subrange(i, s.len() as int));
    }
}

/// The suffix of `s` strictly after the last occurrence of `c`.
pub fn suffix_after_last<'a>(s: &'a str, c: char) -> (r: &'a str)
    ensures
        r@ == after_last_char(s@, c),
{
    let n = s.unicode_len();
    let mut i: usize = n;
    while i > 0
        invariant
            i <= n,
            n == s@.len(),
            forall|j: int| i <= j < n ==> s@[j] != c,
        decreases i,
    {
        if s.get_char(i - 1) == c {
            proof {
                lemma_after_last_char_from_scan(s@, c, i as int);
            }
            return s.substring_char(i, n);
        }
        i -= 1;
    }
    proof {
        lemma_after_last_char_from_scan(s@, c, 0);
    }
    s.substring_char(0, n)
}

/// `s` with every `%20` replaced by a space, non-overlapping and left to
/// right, as `str::replace("%20", " ")` does.
pub open spec fn decode_spaces(s: Seq<char>) -> Seq<char>
    decreases s.len(),
{
    if s.len() >= 3 && s[0] == '%' && s[1] == '2' && s[2] == '0' {
        seq![' '] + decode_spaces(s.skip(3))
    } else if s.len() == 0 {
        s
    } else {
        seq![s[0]] + decode_spaces(s.skip(1))
    }
}

/// Replaces every `%20` in `s` by a space.
pub fn decode_space_encoding(s: &str) -> (r: String)
    ensures
        r@ == decode_spaces(s@),
{
    let n = s.unicode_len();
    let mut out = String::new();
    let mut i: usize = 0;
    proof {
        assert(s@.skip(0) =~= s@);
        assert(out@ + decode_spaces(s@) =~= decode_spaces(s@));
    }
    while i < n
        invariant
            i <= n,
            n == s@.len(),
            out@ + decode_spaces(s@.skip(i as int)) == decode_spaces(s@),
        decreases n - i,
    {
        let ghost pre = out@;
        let ghost rest = s@.skip(i as int);
        if n - i >= 3 && s.get_char(i) == '%' && s.get_char(i + 1) == '2' && s.get_char(i + 2)
            == '0' {
            push_char(&mut out, ' ');
            proof {
                assert(rest.skip(3) =~= s@.skip(i + 3));
                assert(decode_spaces(rest) == seq![' '] + decode_spaces(s@.skip(i + 3)));
                assert(out@ + decode_spaces(s@.skip(i + 3)) =~= pre + decode_spaces(rest));
            }
            i += 3;
        } else {
            let ch = s.get_char(i);
            push_char(&mut out, ch);
            proof {
                assert(rest.skip(1) =~= s@.skip(i + 1));
                assert(!(rest.len() >= 3 && rest[0] == '%' && rest[1] == '2' && rest[2] == '0'));
                assert(decode_spaces(rest) == seq![ch] + decode_spaces(s@.skip(i + 1)));
                assert(out@ + decode_spaces(s@.skip(i + 1)) =~= pre + decode_spaces(rest));
            }
            i += 1;
        }
    }
    proof {
        assert(s@.skip(n as int) =~= Seq::<char>::empty());
        assert(out@ =~= out@ + decode_spaces(s@.skip(n as int)));
    }
    out
}

/// The character for the decimal digit `d`.
pub open spec fn digit_char(d: int) -> char {
    ((48 + d) as u8) as char
}

/// The decimal rendering of `n`, most significant digit first, without
/// leading zeros (`0` renders as `"0"`).
pub open spec fn dec_spec(n: nat) -> Seq<char>
    decreases n,
{
    if n < 10 {
        seq![digit_char(n as int)]
    } else {
        dec_spec(n / 10) + seq![digit_char((n % 10) as int)]
    }
}

/// Every character of a decimal rendering is a digit, and the rendering is
/// never empty.
pub proof fn lemma_dec_spec_digits(n: nat)
    ensures
        dec_spec(n).len() >= 1,
        forall|k: int|
            0 <= k < dec_spec(n).len() ==> 48 <= (#[trigger] dec_spec(n)[k]) as int <= 57,
    decreases n,
{
    if n >= 10 {
        lemma_dec_spec_digits(n / 10);
    }
}

/// The numeric value a digit string denotes.
pub open spec fn dec_val(s: Seq<char>) -> int
    decreases s.len(),
{
    if s.len() == 0 {
        0
    } else {
        dec_val(s.drop_last()) * 10 + (s.last() as int - 48)
    }
}

/// Rendering and evaluating are inverse.
pub proof fn lemma_dec_spec_val(n: nat)
    ensures
        dec_val(dec_spec(n)) == n,
    decreases n,
{
    if n < 10 {
        assert(dec_spec(n) == seq![digit_char(n as int)]);
        assert(dec_spec(n).drop_last() =~= Seq::<char>::empty());
        assert(dec_spec(n).last() == digit_char(n as int));
        assert(dec_val(Seq::<char>::empty()) == 0);
        assert(dec_val(dec_spec(n)) == dec_val(dec_spec(n).drop_last()) * 10 + (dec_spec(
            n,
        ).last() as int - 48));
        assert(digit_char(n as int) as int == 48 + n);
    } else {
        lemma_dec_spec_val(n / 10);
        assert(dec_spec(n).drop_last() =~= dec_spec(n / 10));
        assert(dec_spec(n).last() == digit_char((n % 10) as int));
        assert(digit_char((n % 10) as int) as int == 48 + (n % 10));
        assert(dec_val(dec_spec(n)) == dec_val(dec_spec(n).drop_last()) * 10 + (dec_spec(
            n,
        ).last() as int - 48));
        vstd::arithmetic::div_mod::lemma_fundamental_div_mod(n as int, 10);
    }
}

/// Distinct numbers have distinct decimal renderings.
pub proof fn lemma_dec_spec_injective(a: nat, b: nat)
    requires
        dec_spec(a) == dec_spec(b),
    ensures
        a == b,
{
    lemma_dec_spec_val(a);
    lemma_dec_spec_val(b);
}

/// The decimal rendering of `n`.
pub fn u64_to_string(n: u64) -> (r: String)
    ensures
        r@ == dec_spec(n as nat),
    decreases n,
{
    if n < 10 {
        let c = ((48 + n) as u8) as char;
        let mut r = String::new();
        push_char(&mut r, c);
        proof {
            assert(r@ =~= dec_spec(n as nat));
        }
        r
    } else {
        let mut r = u64_to_string(n / 10);
        let c = ((48 + n % 10) as u8) as char;
        push_char(&mut r, c);
        proof {
            assert(r@ =~= dec_spec(n as nat));
        }
        r
    }
}

} // verus!

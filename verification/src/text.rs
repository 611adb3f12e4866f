//! Character-level helpers shared by the validators: whitespace, searching,
//! comparison and building strings from characters.
use vstd::prelude::*;

verus! {

broadcast use vstd::string::group_string_axioms;

/// The characters of `s`, one by one.
pub fn chars_of(s: &str) -> (out: Vec<char>)
    ensures
        out@ == s@,
{
    let mut out: Vec<char> = Vec::new();
    for c in it: s.chars()
        invariant
            out@ == it.seq().take(it.index() as int),
            it.seq() == s@,
    {
        out.push(c);
    }
    out
}

/// Appends one character to a `String` (std's `String::push`).
#[verifier::external_body]
pub(crate) fn push_char(s: &mut String, c: char)
    ensures
        final(s)@ == old(s)@.push(c),
{
    s.push(c);
}

/// A `String` holding `chars[from..to]`.
pub fn string_of(chars: &[char], from: usize, to: usize) -> (out: String)
    requires
        from <= to <= chars@.len(),
    ensures
        out@ == chars@.subrange(from as int, to as int),
{
    let mut out = String::new();
    let mut i = from;
    while i < to
        invariant
            from <= i <= to <= chars@.len(),
            out@ == chars@.subrange(from as int, i as int),
        decreases to - i,
    {
        push_char(&mut out, chars[i]);
        assert(chars@.subrange(from as int, i + 1) == chars@.subrange(from as int, i as int).push(chars@[i as int]));
        i += 1;
    }
    out
}

/// A `String` with the characters of `s`.
pub fn string_from(s: &str) -> (out: String)
    ensures
        out@ == s@,
{
    String::from_str(s)
}

/// `prefix` followed by `rest`, as a new `String`.
pub fn concat2(prefix: &str, rest: &str) -> (out: String)
    ensures
        out@ == prefix@ + rest@,
{
    let mut out = String::from_str(prefix);
    out.append(rest);
    out
}

/// `a`, `b` and `c` one after the other, as a new `String`.
pub fn concat3(a: &str, b: &str, c: &str) -> (out: String)
    ensures
        out@ == a@ + b@ + c@,
{
    let mut out = String::from_str(a);
    out.append(b);
    out.append(c);
    out
}

/// Unicode `White_Space`, the set that `char::is_whitespace` and `str::trim` use.
pub open spec fn is_white_space(c: char) -> bool {
    ||| ('\u{9}' <= c && c <= '\u{d}')
    ||| c == ' '
    ||| c == '\u{85}'
    ||| c == '\u{a0}'
    ||| c == '\u{1680}'
    ||| ('\u{2000}' <= c && c <= '\u{200a}')
    ||| c == '\u{2028}'
    ||| c == '\u{2029}'
    ||| c == '\u{202f}'
    ||| c == '\u{205f}'
    ||| c == '\u{3000}'
}

/// Every character of `s` is white space; `str::trim` leaves nothing of such a string.
pub open spec fn is_blank_seq(s: Seq<char>) -> bool {
    forall|i: int| 0 <= i < s.len() ==> is_white_space(#[trigger] s[i])
}

pub fn is_white_space_char(c: char) -> (b: bool)
    ensures
        b == is_white_space(c),
{
    ('\u{9}' <= c && c <= '\u{d}') || c == ' ' || c == '\u{85}' || c == '\u{a0}' || c == '\u{1680}'
        || ('\u{2000}' <= c && c <= '\u{200a}') || c == '\u{2028}' || c == '\u{2029}'
        || c == '\u{202f}' || c == '\u{205f}' || c == '\u{3000}'
}

/// Whether `s.trim()` is empty.
pub fn is_blank(s: &str) -> (b: bool)
    ensures
        b == is_blank_seq(s@),
{
    let chars = chars_of(s);
    let mut i: usize = 0;
    while i < chars.len()
        invariant
            chars@ == s@,
            i <= chars@.len(),
            forall|k: int| 0 <= k < i ==> is_white_space(#[trigger] chars@[k]),
        decreases chars.len() - i,
    {
        if !is_white_space_char(chars[i]) {
            return false;
        }
        i += 1;
    }
    true
}

/// `a` and `b` hold the same characters.
pub fn chars_eq(a: &[char], b: &[char]) -> (r: bool)
    ensures
        r == (a@ == b@),
{
    if a.len() != b.len() {
        return false;
    }
    let mut i: usize = 0;
    while i < a.len()
        invariant
            a@.len() == b@.len(),
            i <= a@.len(),
            forall|k: int| 0 <= k < i ==> a@[k] == b@[k],
        decreases a.len() - i,
    {
        if a[i] != b[i] {
            return false;
        }
        i += 1;
    }
    assert(a@ =~= b@);
    true
}

/// `a` and `b` hold the same characters.
pub fn str_eq(a: &str, b: &str) -> (r: bool)
    ensures
        r == (a@ == b@),
{
    let ac = chars_of(a);
    let bc = chars_of(b);
    chars_eq(ac.as_slice(), bc.as_slice())
}

/// `chars[from..to]` equals `b`.
pub fn range_eq(chars: &[char], from: usize, to: usize, b: &[char]) -> (r: bool)
    requires
        from <= to <= chars@.len(),
    ensures
        r == (chars@.subrange(from as int, to as int) == b@),
{
    if to - from != b.len() {
        return false;
    }
    let mut i: usize = 0;
    while i < b.len()
        invariant
            from <= to <= chars@.len(),
            to - from == b@.len(),
            i <= b@.len(),
            forall|k: int| 0 <= k < i ==> chars@[from + k] == b@[k],
        decreases b.len() - i,
    {
        if chars[from + i] != b[i] {
            return false;
        }
        i += 1;
    }
    assert(chars@.subrange(from as int, to as int) =~= b@);
    true
}

/// `s` begins with `prefix`.
pub open spec fn starts_with(s: Seq<char>, prefix: Seq<char>) -> bool {
    prefix.len() <= s.len() && s.take(prefix.len() as int) == prefix
}

/// `chars[from..]` begins with `prefix`.
pub fn range_starts_with(chars: &[char], from: usize, prefix: &[char]) -> (r: bool)
    requires
        from <= chars@.len(),
    ensures
        r == starts_with(chars@.skip(from as int), prefix@),
{
    if chars.len() - from < prefix.len() {
        return false;
    }
    let r = range_eq(chars, from, from + prefix.len(), prefix);
    assert(chars@.skip(from as int).take(prefix@.len() as int) =~= chars@.subrange(from as int, from + prefix@.len()));
    r
}

/// `pattern` occurs somewhere in `s` (the empty pattern occurs in every text).
pub open spec fn contains_seq(s: Seq<char>, pattern: Seq<char>) -> bool {
    exists|i: int| 0 <= i && i + pattern.len() <= s.len() && #[trigger] s.subrange(i, i + pattern.len()) == pattern
}

/// Whether `pattern` occurs in `s`.
pub fn contains_text(s: &str, pattern: &str) -> (r: bool)
    ensures
        r == contains_seq(s@, pattern@),
{
    let sc = chars_of(s);
    let pc = chars_of(pattern);
    let n = sc.len();
    let m = pc.len();
    if m > n {
        return false;
    }
    let mut i: usize = 0;
    while i <= n - m
        invariant
            sc@ == s@,
            pc@ == pattern@,
            n == sc@.len(),
            m == pc@.len(),
            m <= n,
            i <= n - m + 1,
            forall|k: int| 0 <= k < i ==> #[trigger] s@.subrange(k, k + m) != pattern@,
        decreases n - m + 1 - i,
    {
        if range_eq(sc.as_slice(), i, i + m, pc.as_slice()) {
            return true;
        }
        if i == n - m {
            assert forall|k: int| 0 <= k && k + pattern@.len() <= s@.len() implies #[trigger] s@.subrange(k, k + pattern@.len()) != pattern@ by {
                assert(k <= i);
            }
            return false;
        }
        i += 1;
    }
    false
}

/// The first position at or after `from` where `a` is directly followed by `b`.
pub open spec fn find_pair_from(s: Seq<char>, from: int, a: char, b: char) -> Option<int>
    decreases s.len() - from,
{
    if from < 0 || from + 1 >= s.len() {
        None
    } else if s[from] == a && s[from + 1] == b {
        Some(from)
    } else {
        find_pair_from(s, from + 1, a, b)
    }
}

/// Facts about the result of `find_pair_from`.
pub proof fn lemma_find_pair_from(s: Seq<char>, from: int, a: char, b: char)
    requires
        0 <= from,
    ensures
        match find_pair_from(s, from, a, b) {
            Some(i) => from <= i && i + 1 < s.len() && s[i] == a && s[i + 1] == b
                && forall|k: int| from <= k < i ==> !(#[trigger] s[k] == a && s[k + 1] == b),
            None => forall|k: int| from <= k && k + 1 < s.len() ==> !(#[trigger] s[k] == a && s[k + 1] == b),
        },
    decreases s.len() - from,
{
    if from + 1 >= s.len() {
    } else if s[from] == a && s[from + 1] == b {
    } else {
        lemma_find_pair_from(s, from + 1, a, b);
    }
}

/// The first position at or after `from` holding `c`.
pub open spec fn find_char_from(s: Seq<char>, from: int, c: char) -> Option<int>
    decreases s.len() - from,
{
    if from < 0 || from >= s.len() {
        None
    } else if s[from] == c {
        Some(from)
    } else {
        find_char_from(s, from + 1, c)
    }
}

/// Facts about the result of `find_char_from`.
pub proof fn lemma_find_char_from(s: Seq<char>, from: int, c: char)
    requires
        0 <= from,
    ensures
        match find_char_from(s, from, c) {
            Some(i) => from <= i < s.len() && s[i] == c && forall|k: int| from <= k < i ==> s[k] != c,
            None => forall|k: int| from <= k < s.len() ==> s[k] != c,
        },
    decreases s.len() - from,
{
    if from >= s.len() {
    } else if s[from] == c {
    } else {
        lemma_find_char_from(s, from + 1, c);
    }
}

pub fn find_pair(chars: &[char], from: usize, a: char, b: char) -> (r: Option<usize>)
    requires
        from <= chars@.len(),
    ensures
        match r {
            Some(i) => find_pair_from(chars@, from as int, a, b) == Some(i as int),
            None => find_pair_from(chars@, from as int, a, b) is None,
        },
{
    let mut i = from;
    while i < chars.len() && chars.len() - i > 1
        invariant
            from <= i <= chars@.len(),
            find_pair_from(chars@, from as int, a, b) == find_pair_from(chars@, i as int, a, b),
        decreases chars.len() - i,
    {
        if chars[i] == a && chars[i + 1] == b {
            return Some(i);
        }
        i += 1;
    }
    None
}

pub fn find_char(chars: &[char], from: usize, c: char) -> (r: Option<usize>)
    requires
        from <= chars@.len(),
    ensures
        match r {
            Some(i) => find_char_from(chars@, from as int, c) == Some(i as int),
            None => find_char_from(chars@, from as int, c) is None,
        },
{
    let mut i = from;
    while i < chars.len()
        invariant
            from <= i <= chars@.len(),
            find_char_from(chars@, from as int, c) == find_char_from(chars@, i as int, c),
        decreases chars.len() - i,
    {
        if chars[i] == c {
            return Some(i);
        }
        i += 1;
    }
    None
}

} // verus!

verus! {

// ---------------------------------------------------------------------------
// Ordering of strings. `String`'s `Ord` compares UTF-8 bytes, and UTF-8 keeps
// the order of code points, so comparing characters gives the same order.

/// `a` sorts strictly before `b`.
pub open spec fn lex_lt(a: Seq<char>, b: Seq<char>) -> bool
    decreases a.len(),
{
    if a.len() == 0 {
        b.len() > 0
    } else if b.len() == 0 {
        false
    } else if a[0] != b[0] {
        a[0] < b[0]
    } else {
        lex_lt(a.drop_first(), b.drop_first())
    }
}

pub proof fn lemma_lex_irreflexive(a: Seq<char>)
    ensures
        !lex_lt(a, a),
    decreases a.len(),
{
    if a.len() > 0 {
        lemma_lex_irreflexive(a.drop_first());
    }
}

pub proof fn lemma_lex_total(a: Seq<char>, b: Seq<char>)
    ensures
        lex_lt(a, b) || lex_lt(b, a) || a == b,
    decreases a.len(),
{
    if a.len() > 0 && b.len() > 0 {
        if a[0] == b[0] {
            lemma_lex_total(a.drop_first(), b.drop_first());
            if a.drop_first() == b.drop_first() {
                assert(a =~= seq![a[0]] + a.drop_first());
                assert(b =~= seq![b[0]] + b.drop_first());
            }
        }
    } else if a.len() == 0 && b.len() == 0 {
        assert(a =~= b);
    }
}

pub proof fn lemma_lex_asymmetric(a: Seq<char>, b: Seq<char>)
    ensures
        !(lex_lt(a, b) && lex_lt(b, a)),
    decreases a.len(),
{
    if a.len() > 0 && b.len() > 0 && a[0] == b[0] {
        lemma_lex_asymmetric(a.drop_first(), b.drop_first());
    }
}

pub proof fn lemma_lex_transitive(a: Seq<char>, b: Seq<char>, c: Seq<char>)
    requires
        lex_lt(a, b),
        lex_lt(b, c),
    ensures
        lex_lt(a, c),
    decreases a.len(),
{
    if a.len() > 0 && b.len() > 0 && c.len() > 0 {
        if a[0] == b[0] && b[0] == c[0] {
            lemma_lex_transitive(a.drop_first(), b.drop_first(), c.drop_first());
        }
    }
}

/// Whether `a` sorts strictly before `b`.
pub fn str_lt(a: &str, b: &str) -> (r: bool)
    ensures
        r == lex_lt(a@, b@),
{
    let ac = chars_of(a);
    let bc = chars_of(b);
    let mut i: usize = 0;
    assert(a@.skip(0) =~= a@);
    assert(b@.skip(0) =~= b@);
    while i < ac.len() && i < bc.len()
        invariant
            ac@ == a@,
            bc@ == b@,
            i <= ac@.len(),
            i <= bc@.len(),
            lex_lt(a@, b@) == lex_lt(a@.skip(i as int), b@.skip(i as int)),
        decreases ac.len() - i,
    {
        assert(a@.skip(i as int).drop_first() =~= a@.skip(i + 1));
        assert(b@.skip(i as int).drop_first() =~= b@.skip(i + 1));
        if ac[i] != bc[i] {
            return ac[i] < bc[i];
        }
        i += 1;
    }
    i == ac.len() && i < bc.len()
}

/// `s` is in non-decreasing order.
pub open spec fn sorted_strings(s: Seq<Seq<char>>) -> bool {
    forall|i: int, j: int| 0 <= i < j < s.len() ==> !lex_lt(#[trigger] s[j], #[trigger] s[i])
}

/// The strings in `v`, in non-decreasing order: a permutation of `v` that is sorted.
pub fn sort_strings(v: Vec<String>) -> (out: Vec<String>)
    ensures
        sorted_strings(out@.map_values(|s: String| s@)),
        out@.map_values(|s: String| s@).to_multiset() == v@.map_values(|s: String| s@).to_multiset(),
{
    let mut out: Vec<String> = Vec::new();
    let ghost input = v@.map_values(|s: String| s@);
    let mut rest = v;
    proof {
        broadcast use vstd::multiset::group_multiset_axioms, vstd::seq_lib::group_to_multiset_ensures;
        assert(out@.map_values(|s: String| s@) =~= Seq::<Seq<char>>::empty());
        assert(out@.map_values(|s: String| s@).to_multiset() =~= vstd::multiset::Multiset::<Seq<char>>::empty());
        assert(out@.map_values(|s: String| s@).to_multiset().add(rest@.map_values(|s: String| s@).to_multiset()) =~= input.to_multiset());
    }
    while rest.len() > 0
        invariant
            sorted_strings(out@.map_values(|s: String| s@)),
            out@.map_values(|s: String| s@).to_multiset().add(rest@.map_values(|s: String| s@).to_multiset()) == input.to_multiset(),
        decreases rest.len(),
    {
        let ghost before_rest = rest@;
        let x = rest.pop().unwrap();
        proof {
            assert(before_rest == rest@.push(x));
            assert(before_rest.map_values(|s: String| s@) =~= rest@.map_values(|s: String| s@).push(x@));
            vstd::seq_lib::to_multiset_build(rest@.map_values(|s: String| s@), x@);
        }
        let ghost old_out = out@.map_values(|s: String| s@);
        // position: first element that x sorts strictly before
        let mut p: usize = 0;
        while p < out.len() && !str_lt(x.as_str(), out[p].as_str())
            invariant
                p <= out@.len(),
                old_out == out@.map_values(|s: String| s@),
                forall|k: int| 0 <= k < p ==> !lex_lt(x@, #[trigger] out@[k]@),
            decreases out.len() - p,
        {
            p += 1;
        }
        let ghost before_insert = out@;
        out.insert(p, x);
        proof {
            let m = out@.map_values(|s: String| s@);
            assert(m =~= old_out.insert(p as int, x@));
            assert forall|i: int, j: int| 0 <= i < j < m.len() implies !lex_lt(#[trigger] m[j], #[trigger] m[i]) by {
                if i < p && j == p {
                    assert(!lex_lt(x@, old_out[i]));
                } else if i == p && j > p {
                    if lex_lt(old_out[j - 1], x@) {
                        lemma_lex_transitive(old_out[j - 1], x@, old_out[p as int]);
                        if j - 1 == p {
                            lemma_lex_irreflexive(old_out[p as int]);
                        } else {
                            assert(!lex_lt(old_out[j - 1], old_out[p as int]));
                        }
                    }
                } else if i < p && j > p {
                    assert(!lex_lt(old_out[j - 1], old_out[i]));
                } else if i > p {
                    assert(!lex_lt(old_out[j - 1], old_out[i - 1]));
                } else {
                    assert(!lex_lt(old_out[j], old_out[i]));
                }
            }
            vstd::seq_lib::to_multiset_insert(old_out, p as int, x@);
            broadcast use vstd::multiset::group_multiset_axioms, vstd::seq_lib::group_to_multiset_ensures;
            assert(m.to_multiset().add(rest@.map_values(|s: String| s@).to_multiset()) =~= input.to_multiset());
        }
    }
    proof {
        broadcast use vstd::multiset::group_multiset_axioms, vstd::seq_lib::group_to_multiset_ensures;
        assert(rest@.map_values(|s: String| s@) =~= Seq::<Seq<char>>::empty());
        assert(rest@.map_values(|s: String| s@).to_multiset() =~= vstd::multiset::Multiset::<Seq<char>>::empty());
        assert(out@.map_values(|s: String| s@).to_multiset() =~= input.to_multiset());
    }
    out
}

} // verus!

verus! {

/// The character of a decimal digit.
pub open spec fn digit_char(d: int) -> char {
    (('0' as u32) + d) as char
}

/// `n` written in decimal, without leading zeros.
pub open spec fn decimal(n: nat) -> Seq<char>
    decreases n,
{
    if n < 10 {
        seq![digit_char(n as int)]
    } else {
        decimal(n / 10).push(digit_char((n % 10) as int))
    }
}

fn digit_exec(d: u64) -> (c: char)
    requires
        d < 10,
    ensures
        c == digit_char(d as int),
{
    let c: char = match d {
        0 => '0',
        1 => '1',
        2 => '2',
        3 => '3',
        4 => '4',
        5 => '5',
        6 => '6',
        7 => '7',
        8 => '8',
        _ => '9',
    };
    c
}

/// `n` in decimal.
pub fn decimal_text(n: u64) -> (s: String)
    ensures
        s@ == decimal(n as nat),
    decreases n,
{
    if n < 10 {
        let mut s = String::new();
        push_char(&mut s, digit_exec(n));
        s
    } else {
        let mut s = decimal_text(n / 10);
        push_char(&mut s, digit_exec(n % 10));
        s
    }
}

/// `n` in decimal, with a leading `-` when negative.
pub open spec fn signed_decimal(n: int) -> Seq<char> {
    if n < 0 { seq!['-'] + decimal((-n) as nat) } else { decimal(n as nat) }
}

pub fn signed_decimal_text(n: i64) -> (s: String)
    ensures
        s@ == signed_decimal(n as int),
{
    if n < 0 {
        let magnitude: u64 = if n == i64::MIN { 9_223_372_036_854_775_808u64 } else { (-n) as u64 };
        let digits = decimal_text(magnitude);
        let mut s = String::new();
        push_char(&mut s, '-');
        s.append(digits.as_str());
        s
    } else {
        decimal_text(n as u64)
    }
}

} // verus!

verus! {

/// The number of bytes of a character's UTF-8 encoding.
pub open spec fn char_width(c: char) -> int {
    if (c as u32) <= 0x7F {
        1
    } else if (c as u32) <= 0x7FF {
        2
    } else if (c as u32) <= 0xFFFF {
        3
    } else {
        4
    }
}

pub proof fn lemma_encode_utf8_concat(a: Seq<char>, b: Seq<char>)
    ensures
        vstd::utf8::encode_utf8(a + b) == vstd::utf8::encode_utf8(a) + vstd::utf8::encode_utf8(b),
    decreases a.len(),
{
    if a.len() == 0 {
        assert(a + b =~= b);
        assert(vstd::utf8::encode_utf8(a) =~= Seq::<u8>::empty());
        assert(vstd::utf8::encode_utf8(a) + vstd::utf8::encode_utf8(b) =~= vstd::utf8::encode_utf8(b));
    } else {
        assert((a + b).drop_first() =~= a.drop_first() + b);
        assert((a + b)[0] == a[0]);
        lemma_encode_utf8_concat(a.drop_first(), b);
        let head = vstd::utf8::encode_scalar(a[0] as u32);
        assert(head + (vstd::utf8::encode_utf8(a.drop_first()) + vstd::utf8::encode_utf8(b))
            =~= (head + vstd::utf8::encode_utf8(a.drop_first())) + vstd::utf8::encode_utf8(b));
    }
}

pub proof fn lemma_encode_char_width(c: char)
    ensures
        vstd::utf8::encode_utf8(seq![c]).len() == char_width(c),
{
    broadcast use vstd::utf8::char_is_scalar;
    let one = seq![c];
    assert(one.drop_first() =~= Seq::<char>::empty());
    assert(one[0] == c);
    assert(vstd::utf8::is_scalar(c as u32));
    assert(vstd::utf8::encode_utf8(one.drop_first()) =~= Seq::<u8>::empty());
    assert(vstd::utf8::encode_utf8(one) == vstd::utf8::encode_scalar(c as u32) + vstd::utf8::encode_utf8(one.drop_first()));
    assert(vstd::utf8::encode_utf8(one).len() == vstd::utf8::encode_scalar(c as u32).len());
    assert(vstd::utf8::encode_scalar(c as u32).len() == char_width(c));
}

/// Whether the UTF-8 encoding of `s` (what `str::len` counts) has at most `limit` bytes.
pub fn utf8_len_at_most(s: &str, limit: usize) -> (b: bool)
    ensures
        b == (vstd::utf8::encode_utf8(s@).len() <= limit),
{
    let chars = chars_of(s);
    let mut total: usize = 0;
    let mut i: usize = 0;
    assert(s@.take(0) =~= Seq::<char>::empty());
    assert(vstd::utf8::encode_utf8(Seq::<char>::empty()) =~= Seq::<u8>::empty());
    while i < chars.len()
        invariant
            chars@ == s@,
            i <= chars@.len(),
            total <= limit,
            total == vstd::utf8::encode_utf8(s@.take(i as int)).len(),
        decreases chars.len() - i,
    {
        let c = chars[i];
        let u = c as u32;
        let w: usize = if u <= 0x7F { 1 } else if u <= 0x7FF { 2 } else if u <= 0xFFFF { 3 } else { 4 };
        proof {
            lemma_encode_char_width(c);
            assert(s@.take(i + 1) =~= s@.take(i as int) + seq![c]);
            lemma_encode_utf8_concat(s@.take(i as int), seq![c]);
        }
        if w > limit - total {
            proof {
                assert(s@ =~= s@.take(i + 1) + s@.skip(i + 1));
                lemma_encode_utf8_concat(s@.take(i + 1), s@.skip(i + 1));
            }
            return false;
        }
        total = total + w;
        i += 1;
    }
    assert(s@.take(i as int) =~= s@);
    true
}

} // verus!

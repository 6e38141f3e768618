use vstd::prelude::*;

verus! {

/// Calls `str::chars` and collects them: the characters of the slice, in
/// order, as std documents `chars`.
#[verifier::external_body]
pub(crate) fn chars_of(s: &str) -> (r: Vec<char>)
    ensures
        r@ == s@,
{
    s.chars().collect()
}

/// Collects characters into a `String` (`FromIterator<&char>`): the string
/// made of them, in order, as std documents it.
#[verifier::external_body]
pub(crate) fn string_of(cs: &[char]) -> (r: String)
    ensures
        r@ == cs@,
{
    cs.iter().collect()
}

/// `a` followed by `b`.
pub fn concat(a: &str, b: &str) -> (r: String)
    ensures
        r@ == a@ + b@,
{
    let mut r = String::from_str(a);
    r.append(b);
    r
}

/// Whether `pat` occurs in `s` starting at index `i`.
pub open spec fn occurs_at(s: Seq<char>, pat: Seq<char>, i: int) -> bool {
    0 <= i && i + pat.len() <= s.len() && s.subrange(i, i + pat.len()) == pat
}

/// Whether `pat` occurs anywhere in `s`.
pub open spec fn has_infix(s: Seq<char>, pat: Seq<char>) -> bool {
    exists|i: int| occurs_at(s, pat, i)
}

/// Whether `s` begins with `p`.
pub open spec fn has_prefix(s: Seq<char>, p: Seq<char>) -> bool {
    p.len() <= s.len() && s.take(p.len() as int) == p
}

/// Whether `pat` occurs in `s` at index `i`.
pub fn matches_at(s: &Vec<char>, pat: &Vec<char>, i: usize) -> (r: bool)
    ensures
        r == occurs_at(s@, pat@, i as int),
{
    if i > s.len() || pat.len() > s.len() - i {
        return false;
    }
    let n = s.len();
    let mut k: usize = 0;
    while k < pat.len()
        invariant
            n == s@.len(),
            i + pat@.len() <= n,
            k <= pat@.len(),
            forall|j: int| 0 <= j < k ==> s@[i + j] == pat@[j],
        decreases pat@.len() - k,
    {
        if s[i + k] != pat[k] {
            assert(s@.subrange(i as int, i + pat@.len())[k as int] != pat@[k as int]);
            return false;
        }
        k = k + 1;
    }
    assert(s@.subrange(i as int, i + pat@.len()) =~= pat@);
    true
}

/// Whether `pat` occurs anywhere in `s`.
pub fn contains_seq(s: &Vec<char>, pat: &Vec<char>) -> (r: bool)
    ensures
        r == has_infix(s@, pat@),
{
    if pat.len() > s.len() {
        return false;
    }
    let last = s.len() - pat.len();
    let mut i: usize = 0;
    while i < last
        invariant
            i <= last,
            last == s@.len() - pat@.len(),
            forall|j: int| 0 <= j < i ==> !occurs_at(s@, pat@, j),
        decreases last - i,
    {
        if matches_at(s, pat, i) {
            return true;
        }
        i = i + 1;
    }
    matches_at(s, pat, last)
}

/// Whether the text `s` holds the text `pat`.
pub fn contains_str(s: &str, pat: &str) -> (r: bool)
    ensures
        r == has_infix(s@, pat@),
{
    let sv = chars_of(s);
    let pv = chars_of(pat);
    contains_seq(&sv, &pv)
}

/// Whether `s` begins with `p`.
pub fn starts_with_seq(s: &Vec<char>, p: &Vec<char>) -> (r: bool)
    ensures
        r == has_prefix(s@, p@),
{
    let r = matches_at(s, p, 0);
    assert(s@.subrange(0, p@.len() as int) =~= s@.take(p@.len() as int));
    r
}

/// Whether the two character sequences are equal.
pub fn same_chars(a: &Vec<char>, b: &Vec<char>) -> (r: bool)
    ensures
        r == (a@ == b@),
{
    if a.len() != b.len() {
        return false;
    }
    let r = matches_at(a, b, 0);
    assert(a@.subrange(0, b@.len() as int) =~= a@);
    r
}

/// Whether two texts are the same.
pub fn str_eq(a: &str, b: &str) -> (r: bool)
    ensures
        r == (a@ == b@),
{
    let av = chars_of(a);
    let bv = chars_of(b);
    same_chars(&av, &bv)
}

/// Whether no `c` stands in `s` before index `i`.
pub open spec fn none_before(s: Seq<char>, c: char, i: int) -> bool {
    forall|j: int| 0 <= j < i ==> s[j] != c
}

/// Whether `i` is the index of the first `c` in `s`.
pub open spec fn is_first_index(s: Seq<char>, c: char, i: int) -> bool {
    0 <= i < s.len() && s[i] == c && none_before(s, c, i)
}

/// The index of the first `c` in `s`, if there is one.
pub open spec fn first_index(s: Seq<char>, c: char) -> Option<int> {
    if exists|i: int| is_first_index(s, c, i) {
        Some(choose|i: int| is_first_index(s, c, i))
    } else {
        None
    }
}

/// An index that holds the first `c` is what `first_index` gives.
pub proof fn lemma_first_index(s: Seq<char>, c: char, i: int)
    requires
        is_first_index(s, c, i),
    ensures
        first_index(s, c) == Some(i),
{
    let k = choose|k: int| is_first_index(s, c, k);
    assert(is_first_index(s, c, k));
    if k < i {
        assert(s[k] != c);
    } else if k > i {
        assert(s[i] != c);
    }
}

/// Without a `c`, `first_index` gives nothing.
pub proof fn lemma_no_index(s: Seq<char>, c: char)
    requires
        forall|j: int| 0 <= j < s.len() ==> s[j] != c,
    ensures
        first_index(s, c) == None::<int>,
{
}

/// The position of the first `c` at or after `start`.
pub fn find_char_from(s: &Vec<char>, c: char, start: usize) -> (r: Option<usize>)
    requires
        start <= s@.len(),
    ensures
        match r {
            Some(i) => start <= i < s@.len() && s@[i as int] == c && forall|j: int|
                start <= j < i ==> s@[j] != c,
            None => forall|j: int| start <= j < s@.len() ==> s@[j] != c,
        },
{
    let mut i = start;
    while i < s.len()
        invariant
            start <= i <= s@.len(),
            forall|j: int| start <= j < i ==> s@[j] != c,
        decreases s@.len() - i,
    {
        if s[i] == c {
            return Some(i);
        }
        i = i + 1;
    }
    None
}

/// `s` split at its first `c`: what stands before it and what stands after it.
pub open spec fn split_once(s: Seq<char>, c: char) -> Option<(Seq<char>, Seq<char>)> {
    match first_index(s, c) {
        Some(i) => Some((s.take(i), s.skip(i + 1))),
        None => None,
    }
}

/// The pieces of `s` between the occurrences of `c`, as `str::split` gives them.
pub open spec fn split_all(s: Seq<char>, c: char) -> Seq<Seq<char>>
    decreases s.len(),
{
    if exists|i: int| is_first_index(s, c, i) {
        let i = choose|i: int| is_first_index(s, c, i);
        seq![s.take(i)] + split_all(s.skip(i + 1), c)
    } else {
        seq![s]
    }
}

/// The pieces of `s` between the occurrences of `c`, each given by its
/// start and end index in `s`.
pub fn split_ranges(s: &Vec<char>, c: char) -> (r: Vec<(usize, usize)>)
    ensures
        r@.len() == split_all(s@, c).len(),
        forall|k: int|
            0 <= k < r@.len() ==> (#[trigger] r@[k]).0 <= r@[k].1 <= s@.len() && split_all(s@, c)[k]
                == s@.subrange(r@[k].0 as int, r@[k].1 as int),
{
    let mut r: Vec<(usize, usize)> = Vec::new();
    let mut start: usize = 0;
    let n = s.len();
    assert(s@.skip(0) =~= s@);
    assert(Seq::new(0 as nat, |k: int| s@.subrange(r@[k].0 as int, r@[k].1 as int)) + split_all(s@, c) =~= split_all(s@, c));
    loop
        invariant
            n == s@.len(),
            start <= s@.len(),
            split_all(s@, c) == Seq::new(r@.len() as nat, |k: int| s@.subrange(r@[k].0 as int, r@[k].1 as int))
                + split_all(s@.skip(start as int), c),
            forall|k: int| 0 <= k < r@.len() ==> (#[trigger] r@[k]).0 <= r@[k].1 <= s@.len(),
        decreases s@.len() - start,
    {
        let ghost rest = s@.skip(start as int);
        let ghost before = Seq::new(r@.len() as nat, |k: int| s@.subrange(r@[k].0 as int, r@[k].1 as int));
        match find_char_from(s, c, start) {
            Some(i) => {
                proof {
                    let d = i - start;
                    assert(is_first_index(rest, c, d));
                    let w = choose|w: int| is_first_index(rest, c, w);
                    lemma_first_index(rest, c, d);
                    lemma_first_index(rest, c, w);
                }
                assert(rest.take(i - start) =~= s@.subrange(start as int, i as int));
                assert(rest.skip(i - start + 1) =~= s@.skip(i + 1));
                r.push((start, i));
                let ghost after = Seq::new(r@.len() as nat, |k: int| s@.subrange(r@[k].0 as int, r@[k].1 as int));
                assert(after =~= before + seq![s@.subrange(start as int, i as int)]);
                assert(split_all(s@, c) =~= after + split_all(s@.skip(i + 1), c));
                start = i + 1;
            },
            None => {
                assert(!exists|i: int| is_first_index(rest, c, i));
                assert(rest =~= s@.subrange(start as int, s@.len() as int));
                r.push((start, s.len()));
                let ghost after = Seq::new(r@.len() as nat, |k: int| s@.subrange(r@[k].0 as int, r@[k].1 as int));
                assert(after =~= before + seq![rest]);
                assert(split_all(s@, c) =~= after);
                return r;
            },
        }
    }
}


/// `s` without the run of `c` at its start.
pub open spec fn strip_start(s: Seq<char>, c: char) -> Seq<char>
    decreases s.len(),
{
    if s.len() > 0 && s[0] == c {
        strip_start(s.drop_first(), c)
    } else {
        s
    }
}

/// `s` without the run of `c` at its end.
pub open spec fn strip_end(s: Seq<char>, c: char) -> Seq<char>
    decreases s.len(),
{
    if s.len() > 0 && s.last() == c {
        strip_end(s.drop_last(), c)
    } else {
        s
    }
}

proof fn lemma_strip_start(s: Seq<char>, c: char, i: int)
    requires
        0 <= i <= s.len(),
        forall|j: int| 0 <= j < i ==> s[j] == c,
        i == s.len() || s[i] != c,
    ensures
        strip_start(s, c) == s.skip(i),
    decreases i,
{
    if i > 0 {
        assert(s.drop_first().skip(i - 1) =~= s.skip(i));
        lemma_strip_start(s.drop_first(), c, i - 1);
    } else {
        assert(s.skip(0) =~= s);
    }
}

proof fn lemma_strip_end(s: Seq<char>, c: char, e: int)
    requires
        0 <= e <= s.len(),
        forall|j: int| e <= j < s.len() ==> s[j] == c,
        e == 0 || s[e - 1] != c,
    ensures
        strip_end(s, c) == s.take(e),
    decreases s.len() - e,
{
    if e < s.len() {
        assert(s.drop_last().take(e) =~= s.take(e));
        lemma_strip_end(s.drop_last(), c, e);
    } else {
        assert(s.take(e) =~= s);
    }
}

/// `s` without the run of `c` at its end, as `str::trim_end_matches` gives it.
pub fn trim_end_char(s: &Vec<char>, c: char) -> (r: Vec<char>)
    ensures
        r@ == strip_end(s@, c),
{
    let mut e = s.len();
    while e > 0 && s[e - 1] == c
        invariant
            e <= s@.len(),
            forall|j: int| e <= j < s@.len() ==> s@[j] == c,
        decreases e,
    {
        e = e - 1;
    }
    proof {
        lemma_strip_end(s@, c, e as int);
    }
    let r = take_chars(s, e);
    r
}

/// The first `n` characters of `s`.
pub fn take_chars(s: &Vec<char>, n: usize) -> (r: Vec<char>)
    requires
        n <= s@.len(),
    ensures
        r@ == s@.take(n as int),
{
    slice_chars(s, 0, n)
}

/// The characters of `s` from index `a` up to index `b`.
pub fn slice_chars(s: &Vec<char>, a: usize, b: usize) -> (r: Vec<char>)
    requires
        a <= b <= s@.len(),
    ensures
        r@ == s@.subrange(a as int, b as int),
{
    let mut r: Vec<char> = Vec::new();
    let mut i = a;
    while i < b
        invariant
            a <= i <= b <= s@.len(),
            r@ == s@.subrange(a as int, i as int),
        decreases b - i,
    {
        r.push(s[i]);
        i = i + 1;
        assert(r@ =~= s@.subrange(a as int, i as int));
    }
    r
}

/// `s` without the runs of `c` at its start and its end, as
/// `str::trim_matches` gives it.
pub open spec fn trim_char(s: Seq<char>, c: char) -> Seq<char> {
    strip_end(strip_start(s, c), c)
}

/// `s` without the `c` at its start and at its end.
pub fn trim_char_both(s: &Vec<char>, c: char) -> (r: Vec<char>)
    ensures
        r@ == trim_char(s@, c),
{
    let mut a: usize = 0;
    while a < s.len() && s[a] == c
        invariant
            a <= s@.len(),
            forall|j: int| 0 <= j < a ==> s@[j] == c,
        decreases s@.len() - a,
    {
        a = a + 1;
    }
    proof {
        lemma_strip_start(s@, c, a as int);
    }
    let rest = slice_chars(s, a, s.len());
    assert(rest@ =~= s@.skip(a as int));
    trim_end_char(&rest, c)
}

/// `s` with every occurrence of `pat` replaced by `rep`, matches taken
/// from the left without overlap, as `str::replace` does for a non-empty
/// pattern.
pub open spec fn replace_all(s: Seq<char>, pat: Seq<char>, rep: Seq<char>) -> Seq<char>
    decreases s.len(),
{
    if pat.len() == 0 || s.len() < pat.len() {
        s
    } else if s.take(pat.len() as int) == pat {
        rep + replace_all(s.skip(pat.len() as int), pat, rep)
    } else {
        seq![s[0]] + replace_all(s.drop_first(), pat, rep)
    }
}

/// `s` with every occurrence of `pat` replaced by `rep`, left to right.
pub fn replace_seq(s: &Vec<char>, pat: &Vec<char>, rep: &Vec<char>) -> (r: Vec<char>)
    requires
        pat@.len() > 0,
    ensures
        r@ == replace_all(s@, pat@, rep@),
{
    let mut out: Vec<char> = Vec::new();
    let mut i: usize = 0;
    let n = s.len();
    assert(s@.skip(0) =~= s@);
    while i < n
        invariant
            n == s@.len(),
            i <= n,
            pat@.len() > 0,
            replace_all(s@, pat@, rep@) == out@ + replace_all(s@.skip(i as int), pat@, rep@),
        decreases n - i,
    {
        let ghost rest = s@.skip(i as int);
        if matches_at(s, pat, i) {
            assert(rest.take(pat@.len() as int) =~= s@.subrange(i as int, i + pat@.len()));
            assert(rest.skip(pat@.len() as int) =~= s@.skip(i + pat@.len()));
            let mut k: usize = 0;
            let ghost out0 = out@;
            while k < rep.len()
                invariant
                    k <= rep@.len(),
                    out@ == out0 + rep@.take(k as int),
                decreases rep@.len() - k,
            {
                out.push(rep[k]);
                k = k + 1;
                assert(out@ =~= out0 + rep@.take(k as int));
            }
            assert(rep@.take(rep@.len() as int) =~= rep@);
            assert(out@ + replace_all(s@.skip(i + pat@.len()), pat@, rep@) =~= out0 + (rep@
                + replace_all(s@.skip(i + pat@.len()), pat@, rep@)));
            i = i + pat.len();
        } else {
            proof {
                if rest.len() >= pat@.len() {
                    assert(rest.take(pat@.len() as int) =~= s@.subrange(i as int, i + pat@.len()));
                }
            }
            assert(rest.drop_first() =~= s@.skip(i + 1));
            let ghost out0 = out@;
            out.push(s[i]);
            assert(out@ + replace_all(s@.skip(i + 1), pat@, rep@) =~= out0 + (seq![rest[0]]
                + replace_all(rest.drop_first(), pat@, rep@)));
            i = i + 1;
        }
    }
    assert(s@.skip(n as int) =~= Seq::<char>::empty());
    assert(out@ + Seq::<char>::empty() =~= out@);
    out
}

/// The decimal digit for `d`, which is below ten.
pub open spec fn digit_char(d: nat) -> char {
    if d == 0 { '0' }
    else if d == 1 { '1' }
    else if d == 2 { '2' }
    else if d == 3 { '3' }
    else if d == 4 { '4' }
    else if d == 5 { '5' }
    else if d == 6 { '6' }
    else if d == 7 { '7' }
    else if d == 8 { '8' }
    else { '9' }
}

/// The decimal writing of `n`, as `u64::to_string` gives it.
pub open spec fn decimal(n: nat) -> Seq<char>
    decreases n,
{
    if n < 10 {
        seq![digit_char(n)]
    } else {
        decimal(n / 10).push(digit_char(n % 10))
    }
}

fn digit_of(d: u64) -> (c: char)
    requires
        d < 10,
    ensures
        c == digit_char(d as nat),
{
    if d == 0 { '0' }
    else if d == 1 { '1' }
    else if d == 2 { '2' }
    else if d == 3 { '3' }
    else if d == 4 { '4' }
    else if d == 5 { '5' }
    else if d == 6 { '6' }
    else if d == 7 { '7' }
    else if d == 8 { '8' }
    else { '9' }
}

/// The decimal writing of `n`.
pub fn decimal_chars(n: u64) -> (r: Vec<char>)
    ensures
        r@ == decimal(n as nat),
{
    let mut digits: Vec<char> = Vec::new();
    digits.push(digit_of(n % 10));
    let mut m = n / 10;
    assert(digits@ =~= seq![digit_char((n % 10) as nat)]);
    while m > 0
        invariant
            decimal(n as nat) == (if m > 0 { decimal(m as nat) } else { Seq::<char>::empty() }) + digits@,
        decreases m,
    {
        let ghost old_digits = digits@;
        digits.insert(0, digit_of(m % 10));
        assert(digits@ =~= seq![digit_char((m % 10) as nat)] + old_digits);
        let ghost m0 = m;
        m = m / 10;
        if m > 0 {
            assert(decimal(m0 as nat) =~= decimal(m as nat) + seq![digit_char((m0 % 10) as nat)]);
        } else {
            assert(decimal(m0 as nat) =~= seq![digit_char((m0 % 10) as nat)]);
        }
    }
    assert(Seq::<char>::empty() + digits@ =~= digits@);
    digits
}

/// The lowercase hexadecimal digit for `d`, which is below sixteen.
pub open spec fn hex_digit(d: u8) -> char {
    if d < 10 {
        digit_char(d as nat)
    } else if d == 10 {
        'a'
    } else if d == 11 {
        'b'
    } else if d == 12 {
        'c'
    } else if d == 13 {
        'd'
    } else if d == 14 {
        'e'
    } else {
        'f'
    }
}

/// Two lowercase hexadecimal digits per byte, high half first, as
/// `format!("{:02x}")` writes a byte.
pub open spec fn hex_of(bytes: Seq<u8>) -> Seq<char> {
    Seq::new(
        2 * bytes.len(),
        |k: int|
            if k % 2 == 0 {
                hex_digit(bytes[k / 2] / 16)
            } else {
                hex_digit(bytes[k / 2] % 16)
            },
    )
}

fn hex_digit_of(d: u8) -> (c: char)
    requires
        d < 16,
    ensures
        c == hex_digit(d),
{
    if d < 10 {
        digit_of(d as u64)
    } else if d == 10 {
        'a'
    } else if d == 11 {
        'b'
    } else if d == 12 {
        'c'
    } else if d == 13 {
        'd'
    } else if d == 14 {
        'e'
    } else {
        'f'
    }
}

/// The lowercase hexadecimal writing of the bytes.
pub fn hex_chars(bytes: &[u8]) -> (r: Vec<char>)
    ensures
        r@ == hex_of(bytes@),
{
    let mut out: Vec<char> = Vec::new();
    let mut i: usize = 0;
    while i < bytes.len()
        invariant
            i <= bytes@.len(),
            out@ == hex_of(bytes@.take(i as int)),
        decreases bytes@.len() - i,
    {
        let b = bytes[i];
        let ghost out0 = out@;
        out.push(hex_digit_of(b / 16));
        out.push(hex_digit_of(b % 16));
        i = i + 1;
        assert(out@ =~= hex_of(bytes@.take(i as int))) by {
            assert forall|k: int| 0 <= k < out@.len() implies out@[k] == hex_of(bytes@.take(i as int))[k] by {
                if k < out0.len() {
                    assert(bytes@.take(i as int)[k / 2] == bytes@.take(i - 1)[k / 2]);
                }
            }
        }
    }
    assert(bytes@.take(bytes@.len() as int) =~= bytes@);
    out
}

/// Whether `c` is an ASCII decimal digit.
pub open spec fn is_digit(c: char) -> bool {
    '0' <= c <= '9'
}

/// Whether `c` is an ASCII letter or digit.
pub open spec fn is_alnum(c: char) -> bool {
    ('0' <= c <= '9') || ('a' <= c <= 'z') || ('A' <= c <= 'Z')
}

/// The lowercase form of `s`, as `str::to_lowercase` gives it.
pub uninterp spec fn lowercase(s: Seq<char>) -> Seq<char>;

/// Calls `str::to_lowercase`; its result is named `lowercase` of the
/// argument's characters. Nothing more is claimed of it.
#[verifier::external_body]
pub(crate) fn to_lowercase(s: &str) -> (r: String)
    ensures
        r@ == lowercase(s@),
{
    s.to_lowercase()
}


/// The text that `{:?}` writes for a string: quoted, with escapes.
pub uninterp spec fn debug_text(s: Seq<char>) -> Seq<char>;

/// Calls `format!("{:?}")` on a string slice, which quotes and escapes it
/// as `Debug for str` does; its result is named `debug_text` of the
/// argument's characters. Nothing more is claimed of it.
#[verifier::external_body]
pub(crate) fn debug_str(s: &str) -> (r: String)
    ensures
        r@ == debug_text(s@),
{
    format!("{:?}", s)
}


/// Whether `a` comes before `b` in the order of `str`: character by
/// character, a proper prefix first.
pub open spec fn text_lt(a: Seq<char>, b: Seq<char>) -> bool
    decreases a.len(),
{
    if a.len() == 0 {
        b.len() > 0
    } else if b.len() == 0 {
        false
    } else if a[0] != b[0] {
        a[0] < b[0]
    } else {
        text_lt(a.drop_first(), b.drop_first())
    }
}

/// Whether `a` comes before `b` or is `b`.
pub open spec fn text_le(a: Seq<char>, b: Seq<char>) -> bool {
    a == b || text_lt(a, b)
}

/// Whether the text `a` sorts before the text `b`.
pub fn str_lt(a: &str, b: &str) -> (r: bool)
    ensures
        r == text_lt(a@, b@),
{
    let av = chars_of(a);
    let bv = chars_of(b);
    let mut i: usize = 0;
    assert(a@.skip(0) =~= a@);
    assert(b@.skip(0) =~= b@);
    while i < av.len() && i < bv.len() && av[i] == bv[i]
        invariant
            av@ == a@,
            bv@ == b@,
            i <= a@.len(),
            i <= b@.len(),
            text_lt(a@, b@) == text_lt(a@.skip(i as int), b@.skip(i as int)),
        decreases a@.len() - i,
    {
        assert(a@.skip(i as int).drop_first() =~= a@.skip(i + 1));
        assert(b@.skip(i as int).drop_first() =~= b@.skip(i + 1));
        i = i + 1;
    }
    if i == av.len() {
        i < bv.len()
    } else if i == bv.len() {
        false
    } else {
        av[i] < bv[i]
    }
}

/// Whether the text `a` sorts before the text `b` or is it.
pub fn str_le(a: &str, b: &str) -> (r: bool)
    ensures
        r == text_le(a@, b@),
{
    str_eq(a, b) || str_lt(a, b)
}


/// The order of texts is transitive.
pub proof fn lemma_text_lt_transitive(a: Seq<char>, b: Seq<char>, c: Seq<char>)
    requires
        text_lt(a, b),
        text_lt(b, c),
    ensures
        text_lt(a, c),
    decreases a.len(),
{
    if a.len() > 0 && b.len() > 0 && c.len() > 0 && a[0] == b[0] && b[0] == c[0] {
        lemma_text_lt_transitive(a.drop_first(), b.drop_first(), c.drop_first());
    }
}

/// Of two different texts, one comes before the other.
pub proof fn lemma_text_lt_total(a: Seq<char>, b: Seq<char>)
    requires
        a != b,
    ensures
        text_lt(a, b) || text_lt(b, a),
    decreases a.len(),
{
    if a.len() > 0 && b.len() > 0 && a[0] == b[0] {
        if a.drop_first() == b.drop_first() {
            assert(a =~= seq![a[0]] + a.drop_first());
            assert(b =~= seq![b[0]] + b.drop_first());
        }
        lemma_text_lt_total(a.drop_first(), b.drop_first());
    } else if a.len() == 0 && b.len() == 0 {
        assert(a =~= b);
    }
}

} // verus!

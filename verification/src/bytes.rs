use vstd::prelude::*;

verus! {

// Text in this crate is handled as raw bytes: source files arrive as byte
// vectors and output pages leave as byte vectors.  The spec functions here
// describe splitting, trimming, searching and decimal conversion over
// `Seq<u8>`, and the executable functions are proved to match them.

/// Index of the first occurrence of `b` in `s`; `s.len()` when `b` is absent.
pub open spec fn first_at(s: Seq<u8>, b: u8) -> nat
    decreases s.len(),
{
    if s.len() == 0 {
        0
    } else if s[0] == b {
        0
    } else {
        1 + first_at(s.drop_first(), b)
    }
}

pub proof fn lemma_first_at(s: Seq<u8>, b: u8)
    ensures
        first_at(s, b) <= s.len(),
        forall|j: int| 0 <= j < first_at(s, b) ==> s[j] != b,
        first_at(s, b) < s.len() ==> s[first_at(s, b) as int] == b,
    decreases s.len(),
{
    if s.len() == 0 {
    } else if s[0] == b {
    } else {
        lemma_first_at(s.drop_first(), b);
        assert forall|j: int| 0 <= j < first_at(s, b) implies s[j] != b by {
            if j > 0 {
                assert(s.drop_first()[j - 1] != b);
            }
        }
    }
}

/// Any index with the three defining properties is the first occurrence.
pub proof fn lemma_first_at_unique(s: Seq<u8>, b: u8, i: nat)
    requires
        i <= s.len(),
        forall|j: int| 0 <= j < i ==> s[j] != b,
        i < s.len() ==> s[i as int] == b,
    ensures
        i == first_at(s, b),
    decreases s.len(),
{
    if s.len() == 0 {
    } else if s[0] == b {
    } else {
        assert(i >= 1);
        lemma_first_at_unique(s.drop_first(), b, (i - 1) as nat);
    }
}

/// First index `>= from` where `v` holds `b`; `v.len()` when there is none.
pub fn find_from(v: &Vec<u8>, from: usize, b: u8) -> (r: usize)
    requires
        from <= v@.len(),
    ensures
        r == from + first_at(v@.skip(from as int), b),
        from <= r <= v@.len(),
        forall|j: int| from <= j < r ==> v@[j] != b,
        r < v@.len() ==> v@[r as int] == b,
{
    let mut i: usize = from;
    while i < v.len()
        invariant
            from <= i <= v@.len(),
            forall|j: int| from <= j < i ==> v@[j] != b,
        decreases v@.len() - i,
    {
        if v[i] == b {
            proof {
                assert forall|j: int| 0 <= j < i - from implies v@.skip(from as int)[j] != b by {
                    assert(v@[from + j] != b);
                }
                lemma_first_at_unique(v@.skip(from as int), b, (i - from) as nat);
            }
            return i;
        }
        i += 1;
    }
    proof {
        assert forall|j: int| 0 <= j < i - from implies v@.skip(from as int)[j] != b by {
            assert(v@[from + j] != b);
        }
        lemma_first_at_unique(v@.skip(from as int), b, (i - from) as nat);
    }
    i
}

/// Copy of `v[a..b]`.
pub fn subvec(v: &Vec<u8>, a: usize, b: usize) -> (r: Vec<u8>)
    requires
        a <= b <= v@.len(),
    ensures
        r@ == v@.subrange(a as int, b as int),
{
    let mut out: Vec<u8> = Vec::new();
    let mut i: usize = a;
    while i < b
        invariant
            a <= i <= b <= v@.len(),
            out@ == v@.subrange(a as int, i as int),
        decreases b - i,
    {
        out.push(v[i]);
        i += 1;
        proof {
            assert(out@ =~= v@.subrange(a as int, i as int));
        }
    }
    out
}

/// A fresh copy of `v`.
pub fn copy_vec(v: &Vec<u8>) -> (r: Vec<u8>)
    ensures
        r@ == v@,
{
    let r = subvec(v, 0, v.len());
    proof {
        assert(v@.subrange(0, v@.len() as int) =~= v@);
    }
    r
}

/// A fresh copy of a list of byte vectors.
pub fn copy_vec_list(v: &Vec<Vec<u8>>) -> (r: Vec<Vec<u8>>)
    ensures
        r.deep_view() == v.deep_view(),
{
    let mut out: Vec<Vec<u8>> = Vec::new();
    let mut i: usize = 0;
    while i < v.len()
        invariant
            0 <= i <= v@.len(),
            out.deep_view() == v.deep_view().take(i as int),
        decreases v@.len() - i,
    {
        let c = copy_vec(&v[i]);
        let ghost out0 = out.deep_view();
        out.push(c);
        proof {
            assert(out@[out@.len() - 1].deep_view() =~= v@[i as int]@);
            assert(v@[i as int].deep_view() =~= v@[i as int]@);
            assert(out.deep_view() =~= out0.push(v.deep_view()[i as int]));
            assert(out.deep_view() =~= v.deep_view().take(i + 1));
        }
        i += 1;
    }
    proof {
        assert(v.deep_view().take(i as int) =~= v.deep_view());
    }
    out
}

/// A fresh copy of an optional byte vector.
pub fn copy_opt_vec(v: &Option<Vec<u8>>) -> (r: Option<Vec<u8>>)
    ensures
        match *v {
            Some(ref inner) => r is Some && r->0@ == inner@,
            None => r is None,
        },
{
    match v {
        Some(inner) => Some(copy_vec(inner)),
        None => None,
    }
}

/// Compares two byte vectors for equality of their contents.
pub fn bytes_eq(a: &Vec<u8>, b: &Vec<u8>) -> (r: bool)
    ensures
        r == (a@ == b@),
{
    if a.len() != b.len() {
        return false;
    }
    let mut i: usize = 0;
    while i < a.len()
        invariant
            0 <= i <= a.len(),
            a.len() == b.len(),
            forall|j: int| 0 <= j < i ==> a@[j] == b@[j],
        decreases a.len() - i,
    {
        if a[i] != b[i] {
            return false;
        }
        i += 1;
    }
    proof {
        assert(a@ =~= b@);
    }
    true
}

/// Appends the contents of `src` to `out`.
pub fn append_bytes(out: &mut Vec<u8>, src: &Vec<u8>)
    ensures
        final(out)@ == old(out)@ + src@,
{
    let mut i: usize = 0;
    while i < src.len()
        invariant
            0 <= i <= src@.len(),
            out@ == old(out)@ + src@.take(i as int),
        decreases src@.len() - i,
    {
        out.push(src[i]);
        i += 1;
        proof {
            assert(old(out)@ + src@.take(i as int) =~= (old(out)@ + src@.take(i - 1)).push(src@[i - 1]));
        }
    }
    proof {
        assert(src@.take(src@.len() as int) =~= src@);
    }
}

// --- splitting on a separator byte ---

/// The pieces of `s` between occurrences of `sep`, in order.  Splitting the
/// empty sequence yields one empty piece, matching the behaviour of
/// splitting a string on a separator character.
pub open spec fn split_bytes(s: Seq<u8>, sep: u8) -> Seq<Seq<u8>>
    decreases s.len(),
{
    let e = first_at(s, sep);
    if e >= s.len() {
        seq![s]
    } else {
        seq![s.take(e as int)] + split_bytes(s.skip(e as int + 1), sep)
    }
}

pub proof fn lemma_split_len(s: Seq<u8>, sep: u8)
    ensures
        split_bytes(s, sep).len() >= 1,
    decreases s.len(),
{
    let e = first_at(s, sep);
    lemma_first_at(s, sep);
    if e < s.len() {
        lemma_split_len(s.skip(e as int + 1), sep);
    }
}

/// Unfolding step when the head byte is the separator.
pub proof fn lemma_split_sep_head(s: Seq<u8>, sep: u8)
    requires
        s.len() > 0,
        s[0] == sep,
    ensures
        split_bytes(s, sep) == seq![Seq::<u8>::empty()] + split_bytes(s.drop_first(), sep),
{
    assert(first_at(s, sep) == 0);
    assert(s.take(0) =~= Seq::<u8>::empty());
    assert(s.skip(1) =~= s.drop_first());
}

/// Unfolding step when the head byte is ordinary: it joins the first piece.
pub proof fn lemma_split_other_head(s: Seq<u8>, sep: u8)
    requires
        s.len() > 0,
        s[0] != sep,
    ensures
        split_bytes(s, sep).len() == split_bytes(s.drop_first(), sep).len(),
        split_bytes(s, sep)[0] == seq![s[0]] + split_bytes(s.drop_first(), sep)[0],
        split_bytes(s, sep).drop_first() == split_bytes(s.drop_first(), sep).drop_first(),
    decreases s.len(),
{
    let t = s.drop_first();
    let e = first_at(s, sep);
    lemma_first_at(s, sep);
    lemma_first_at(t, sep);
    lemma_split_len(t, sep);
    assert(e == 1 + first_at(t, sep));
    if e >= s.len() {
        assert(split_bytes(s, sep) =~= seq![s]);
        assert(split_bytes(t, sep) =~= seq![t]);
        assert(s =~= seq![s[0]] + t);
    } else {
        assert(s.take(e as int) =~= seq![s[0]] + t.take(e as int - 1));
        assert(s.skip(e as int + 1) =~= t.skip(e as int));
        assert(split_bytes(s, sep).drop_first() =~= split_bytes(t, sep).drop_first());
    }
}

/// A separator-free sequence splits into itself alone.
pub proof fn lemma_split_nosep(c: Seq<u8>, sep: u8)
    requires
        forall|j: int| 0 <= j < c.len() ==> c[j] != sep,
    ensures
        split_bytes(c, sep) == seq![c],
{
    lemma_first_at_unique(c, sep, c.len());
}

/// Splitting peels off a separator-free prefix before the first separator.
pub proof fn lemma_split_append(a: Seq<u8>, rest: Seq<u8>, sep: u8)
    requires
        forall|j: int| 0 <= j < a.len() ==> a[j] != sep,
    ensures
        split_bytes(a + seq![sep] + rest, sep) == seq![a] + split_bytes(rest, sep),
{
    let s = a + seq![sep] + rest;
    assert forall|j: int| 0 <= j < a.len() implies s[j] != sep by {
        assert(s[j] == a[j]);
    }
    assert(s[a.len() as int] == sep);
    lemma_first_at_unique(s, sep, a.len());
    assert(s.take(a.len() as int) =~= a);
    assert(s.skip(a.len() as int + 1) =~= rest);
}

/// Splits `v` on `sep`, as splitting a string on a separator does.
pub fn split_vec(v: &Vec<u8>, sep: u8) -> (r: Vec<Vec<u8>>)
    ensures
        r.deep_view() == split_bytes(v@, sep),
{
    let mut out: Vec<Vec<u8>> = Vec::new();
    let mut cur: Vec<u8> = Vec::new();
    let mut i: usize = 0;
    proof {
        lemma_split_len(v@, sep);
        assert(v@.skip(0) =~= v@);
        assert(out.deep_view() =~= Seq::<Seq<u8>>::empty());
        assert(Seq::<Seq<u8>>::empty() + prepend_first(cur@, split_bytes(v@, sep)) =~~= split_bytes(v@, sep));
    }
    while i < v.len()
        invariant
            0 <= i <= v@.len(),
            split_bytes(v@, sep) == out.deep_view() + prepend_first(cur@, split_bytes(v@.skip(i as int), sep)),
        decreases v@.len() - i,
    {
        let ghost rest = v@.skip(i as int);
        let ghost restn = v@.skip(i + 1);
        let ghost out0 = out.deep_view();
        let ghost cur0 = cur@;
        proof {
            assert(rest.len() > 0);
            assert(rest[0] == v@[i as int]);
            assert(rest.drop_first() =~= restn);
            lemma_split_len(restn, sep);
        }
        if v[i] == sep {
            proof {
                lemma_split_sep_head(rest, sep);
                assert(prepend_first(cur0, split_bytes(rest, sep)) =~~= seq![cur0] + split_bytes(restn, sep));
            }
            out.push(cur);
            cur = Vec::new();
            proof {
                assert(out@[out@.len() - 1].deep_view() =~= cur0);
                assert(out.deep_view() =~= out0.push(cur0));
                assert(out0 + (seq![cur0] + split_bytes(restn, sep)) =~~= out0.push(cur0) + prepend_first(cur@, split_bytes(restn, sep)));
            }
        } else {
            proof {
                lemma_split_other_head(rest, sep);
                assert(prepend_first(cur0, split_bytes(rest, sep)) =~~= prepend_first(cur0.push(v@[i as int]), split_bytes(restn, sep)));
            }
            cur.push(v[i]);
        }
        i += 1;
    }
    let ghost out0 = out.deep_view();
    let ghost cur0 = cur@;
    proof {
        assert(v@.skip(i as int) =~= Seq::<u8>::empty());
        assert(prepend_first(cur0, split_bytes(Seq::<u8>::empty(), sep)) =~~= seq![cur0]);
    }
    out.push(cur);
    proof {
        assert(out@[out@.len() - 1].deep_view() =~= cur0);
        assert(out.deep_view() =~= out0.push(cur0));
        assert(out0 + seq![cur0] =~= out0.push(cur0));
    }
    out
}

/// `pieces` with `c` joined onto the front of its first piece.
pub open spec fn prepend_first(c: Seq<u8>, pieces: Seq<Seq<u8>>) -> Seq<Seq<u8>>
    recommends
        pieces.len() >= 1,
{
    seq![c + pieces[0]] + pieces.drop_first()
}

// --- trimming whitespace ---

/// The bytes `str::trim` removes: ASCII whitespace.
pub open spec fn is_ws(b: u8) -> bool {
    b == 9 || b == 10 || b == 11 || b == 12 || b == 13 || b == 32
}

pub open spec fn trim_start(s: Seq<u8>) -> Seq<u8>
    decreases s.len(),
{
    if s.len() > 0 && is_ws(s[0]) {
        trim_start(s.drop_first())
    } else {
        s
    }
}

pub open spec fn trim_end(s: Seq<u8>) -> Seq<u8>
    decreases s.len(),
{
    if s.len() > 0 && is_ws(s.last()) {
        trim_end(s.drop_last())
    } else {
        s
    }
}

/// `s` without leading and trailing ASCII whitespace.
pub open spec fn trim(s: Seq<u8>) -> Seq<u8> {
    trim_end(trim_start(s))
}

proof fn lemma_trim_start_skip(s: Seq<u8>, k: nat)
    requires
        k <= s.len(),
        forall|j: int| 0 <= j < k ==> is_ws(s[j]),
        k < s.len() ==> !is_ws(s[k as int]),
    ensures
        trim_start(s) == s.skip(k as int),
    decreases k,
{
    if k == 0 {
        assert(s.skip(0) =~= s);
    } else {
        assert(is_ws(s[0]));
        let t = s.drop_first();
        assert forall|j: int| 0 <= j < k - 1 implies is_ws(t[j]) by {
            assert(is_ws(s[j + 1]));
        }
        lemma_trim_start_skip(t, (k - 1) as nat);
        assert(t.skip(k - 1) =~= s.skip(k as int));
    }
}

proof fn lemma_trim_end_take(s: Seq<u8>, m: nat)
    requires
        m <= s.len(),
        forall|j: int| m <= j < s.len() ==> is_ws(s[j]),
        m > 0 ==> !is_ws(s[m - 1]),
    ensures
        trim_end(s) == s.take(m as int),
    decreases s.len(),
{
    if m == s.len() {
        if s.len() > 0 && is_ws(s.last()) {
            let t = s.drop_last();
            lemma_trim_end_take(t, (m - 1) as nat);
            assert(t.take(m - 1) =~= s.take(m - 1));
            assert(is_ws(s[m - 1]));
            assert(false);
        } else {
            assert(s.take(m as int) =~= s);
        }
    } else {
        assert(is_ws(s.last()));
        let t = s.drop_last();
        lemma_trim_end_take(t, m);
        assert(t.take(m as int) =~= s.take(m as int));
    }
}

/// Copy of `v` without leading and trailing ASCII whitespace.
pub fn trim_vec(v: &Vec<u8>) -> (r: Vec<u8>)
    ensures
        r@ == trim(v@),
{
    let mut a: usize = 0;
    while a < v.len() && is_ws_byte(v[a])
        invariant
            0 <= a <= v@.len(),
            forall|j: int| 0 <= j < a ==> is_ws(v@[j]),
        decreases v@.len() - a,
    {
        a += 1;
    }
    proof {
        lemma_trim_start_skip(v@, a as nat);
    }
    let mut b: usize = v.len();
    while b > a && is_ws_byte(v[b - 1])
        invariant
            a <= b <= v@.len(),
            forall|j: int| b <= j < v@.len() ==> is_ws(v@[j]),
        decreases b,
    {
        b -= 1;
    }
    let ghost t = v@.skip(a as int);
    proof {
        assert forall|j: int| b - a <= j < t.len() implies is_ws(t[j]) by {
            assert(is_ws(v@[j + a]));
        }
        if b > a {
            assert(t[b - a - 1] == v@[b - 1]);
        }
        lemma_trim_end_take(t, (b - a) as nat);
        assert(t.take(b - a) =~= v@.subrange(a as int, b as int));
    }
    subvec(v, a, b)
}

fn is_ws_byte(b: u8) -> (r: bool)
    ensures
        r == is_ws(b),
{
    b == 9 || b == 10 || b == 11 || b == 12 || b == 13 || b == 32
}

// --- substring search ---

/// `needle` occurs contiguously in `hay`.
pub open spec fn contains_sub(hay: Seq<u8>, needle: Seq<u8>) -> bool {
    exists|i: int|
        0 <= i <= hay.len() - needle.len() && #[trigger] hay.subrange(i, i + needle.len() as int)
            == needle
}

/// `p` is a prefix of `s`.
pub open spec fn is_prefix(p: Seq<u8>, s: Seq<u8>) -> bool {
    p.len() <= s.len() && s.take(p.len() as int) == p
}

pub proof fn lemma_prefix_contains(p: Seq<u8>, s: Seq<u8>)
    requires
        is_prefix(p, s),
    ensures
        contains_sub(s, p),
{
    assert(s.subrange(0, p.len() as int) =~= s.take(p.len() as int));
    assert(0 <= 0 <= s.len() - p.len() && s.subrange(0, 0 + p.len() as int) == p);
}

/// Whether `p` is a prefix of `v`.
pub fn starts_with(v: &Vec<u8>, p: &Vec<u8>) -> (r: bool)
    ensures
        r == is_prefix(p@, v@),
{
    if p.len() > v.len() {
        return false;
    }
    let head = subvec(v, 0, p.len());
    proof {
        assert(head@ =~= v@.take(p@.len() as int));
    }
    bytes_eq(&head, p)
}

/// Whether `needle` occurs contiguously in `hay`: a straightforward scan.
pub fn contains_vec(hay: &Vec<u8>, needle: &Vec<u8>) -> (r: bool)
    ensures
        r == contains_sub(hay@, needle@),
{
    if needle.len() > hay.len() {
        proof {
            assert(!contains_sub(hay@, needle@));
        }
        return false;
    }
    if needle.len() == 0 {
        proof {
            assert(hay@.subrange(0, 0 + needle@.len() as int) =~= needle@);
        }
        return true;
    }
    let mut i: usize = 0;
    while i <= hay.len() - needle.len()
        invariant
            1 <= needle@.len() <= hay@.len() <= usize::MAX,
            0 <= i <= hay@.len() - needle@.len() + 1,
            forall|k: int| 0 <= k < i ==> #[trigger] hay@.subrange(k, k + needle@.len() as int) != needle@,
        decreases hay@.len() + 1 - i,
    {
        let mut j: usize = 0;
        let mut hit = true;
        while j < needle.len()
            invariant
                needle@.len() <= hay@.len() <= usize::MAX,
                0 <= i <= hay@.len() - needle@.len(),
                0 <= j <= needle@.len(),
                hit ==> forall|k: int| 0 <= k < j ==> hay@[i + k] == needle@[k],
                !hit ==> hay@.subrange(i as int, i + needle@.len() as int) != needle@,
            decreases needle@.len() - j,
        {
            if hay[i + j] != needle[j] {
                proof {
                    assert(hay@.subrange(i as int, i + needle@.len() as int)[j as int] == hay@[i + j]);
                }
                hit = false;
                j = needle.len();
            } else {
                j += 1;
            }
        }
        if hit {
            proof {
                assert(hay@.subrange(i as int, i + needle@.len() as int) =~= needle@);
            }
            return true;
        }
        i += 1;
    }
    proof {
        assert forall|k: int| 0 <= k <= hay@.len() - needle@.len() implies #[trigger] hay@.subrange(k, k + needle@.len() as int) != needle@ by {
            assert(k < i);
        }
    }
    false
}

// --- decimal digits ---

pub open spec fn is_digit(b: u8) -> bool {
    48 <= b <= 57
}

pub open spec fn all_digits(s: Seq<u8>) -> bool {
    forall|i: int| 0 <= i < s.len() ==> is_digit(s[i])
}

/// The integer a digit string denotes.
pub open spec fn digits_val(s: Seq<u8>) -> int
    decreases s.len(),
{
    if s.len() == 0 {
        0
    } else {
        digits_val(s.drop_last()) * 10 + (s.last() - 48)
    }
}

pub proof fn lemma_digits_val_nonneg(s: Seq<u8>)
    requires
        all_digits(s),
    ensures
        digits_val(s) >= 0,
    decreases s.len(),
{
    if s.len() > 0 {
        lemma_digits_val_nonneg(s.drop_last());
    }
}

pub proof fn lemma_digits_val_step(s: Seq<u8>, i: int)
    requires
        0 <= i < s.len(),
    ensures
        digits_val(s.take(i + 1)) == digits_val(s.take(i)) * 10 + (s[i] - 48),
{
    assert(s.take(i + 1).drop_last() =~= s.take(i));
    assert(s.take(i + 1).last() == s[i]);
}

pub proof fn lemma_digits_val_mono(s: Seq<u8>, i: int)
    requires
        all_digits(s),
        0 <= i <= s.len(),
    ensures
        digits_val(s.take(i)) <= digits_val(s),
    decreases s.len() - i,
{
    if i == s.len() {
        assert(s.take(i) =~= s);
    } else {
        lemma_digits_val_step(s, i);
        lemma_digits_val_nonneg(s.take(i));
        lemma_digits_val_mono(s, i + 1);
    }
}

/// The decimal digit string of `n`, most significant digit first.
pub open spec fn dec_rep(n: nat) -> Seq<u8>
    decreases n,
{
    if n < 10 {
        seq![(48 + n) as u8]
    } else {
        dec_rep(n / 10) + seq![(48 + n % 10) as u8]
    }
}

pub proof fn lemma_dec_rep_digits(n: nat)
    ensures
        dec_rep(n).len() >= 1,
        all_digits(dec_rep(n)),
        digits_val(dec_rep(n)) == n,
    decreases n,
{
    if n < 10 {
        let s1 = dec_rep(n);
        assert(s1.last() == (48 + n) as u8);
        assert(s1.drop_last() =~= Seq::<u8>::empty());
        assert(((48 + n) as u8) as nat == 48 + n);
        assert(digits_val(s1) == digits_val(s1.drop_last()) * 10 + (s1.last() - 48));
        assert(digits_val(s1) == n);
    } else {
        lemma_dec_rep_digits(n / 10);
        let d = dec_rep(n / 10);
        let whole = d + seq![(48 + n % 10) as u8];
        assert(whole.drop_last() =~= d);
        assert(whole.last() == (48 + n % 10) as u8);
        assert(digits_val(whole) == digits_val(d) * 10 + n % 10);
        assert(n / 10 * 10 + n % 10 == n) by {
            vstd::arithmetic::div_mod::lemma_fundamental_div_mod(n as int, 10);
        }
        assert forall|i: int| 0 <= i < whole.len() implies is_digit(whole[i]) by {
            if i < d.len() {
                assert(whole[i] == d[i]);
            }
        }
    }
}

/// Appends the decimal digits of `n` to `out`.
pub fn push_dec_u32(out: &mut Vec<u8>, n: u32)
    ensures
        final(out)@ == old(out)@ + dec_rep(n as nat),
    decreases n,
{
    if n < 10 {
        out.push(48 + n as u8);
        proof {
            assert(out@ =~= old(out)@ + dec_rep(n as nat));
        }
    } else {
        push_dec_u32(out, n / 10);
        out.push(48 + (n % 10) as u8);
        proof {
            assert(out@ =~= old(out)@ + dec_rep(n as nat));
        }
    }
}

/// Appends the decimal digits of `n` to `out`.
pub fn push_dec_u64(out: &mut Vec<u8>, n: u64)
    ensures
        final(out)@ == old(out)@ + dec_rep(n as nat),
    decreases n,
{
    if n < 10 {
        out.push(48 + n as u8);
        proof {
            assert(out@ =~= old(out)@ + dec_rep(n as nat));
        }
    } else {
        push_dec_u64(out, n / 10);
        out.push(48 + (n % 10) as u8);
        proof {
            assert(out@ =~= old(out)@ + dec_rep(n as nat));
        }
    }
}

/// The decimal digit string of an integer, with a leading minus sign when
/// `n` is negative.
pub open spec fn dec_rep_int(n: int) -> Seq<u8> {
    if n < 0 {
        seq![45u8] + dec_rep((-n) as nat)
    } else {
        dec_rep(n as nat)
    }
}

/// Appends the decimal form of `n` (possibly signed) to `out`.
pub fn push_dec_i64(out: &mut Vec<u8>, n: i64)
    ensures
        final(out)@ == old(out)@ + dec_rep_int(n as int),
{
    if n < 0 {
        out.push(45);
        let mag: u64 = if n == i64::MIN {
            9223372036854775808u64
        } else {
            (-n) as u64
        };
        assert(mag == -(n as int));
        push_dec_u64(out, mag);
        proof {
            assert(out@ =~= old(out)@ + dec_rep_int(n as int));
        }
    } else {
        push_dec_u64(out, n as u64);
    }
}

// --- parsing decimal integers, as `str::parse` does ---

/// The value `str::parse::<u32>` yields on these bytes: an optional leading
/// `+`, then one or more digits, rejecting overflow.
pub open spec fn spec_parse_u32(s: Seq<u8>) -> Option<u32> {
    let t = if s.len() > 0 && s[0] == 43 {
        s.drop_first()
    } else {
        s
    };
    if t.len() > 0 && all_digits(t) && digits_val(t) <= u32::MAX {
        Some(digits_val(t) as u32)
    } else {
        None
    }
}

/// The value `str::parse::<i32>` yields on these bytes: an optional sign,
/// then one or more digits, rejecting overflow.
pub open spec fn spec_parse_i32(s: Seq<u8>) -> Option<i32> {
    if s.len() > 0 && s[0] == 45 {
        let t = s.drop_first();
        if t.len() > 0 && all_digits(t) && digits_val(t) <= 0x8000_0000 {
            Some((-digits_val(t)) as i32)
        } else {
            None
        }
    } else {
        let t = if s.len() > 0 && s[0] == 43 {
            s.drop_first()
        } else {
            s
        };
        if t.len() > 0 && all_digits(t) && digits_val(t) <= i32::MAX {
            Some(digits_val(t) as i32)
        } else {
            None
        }
    }
}

/// Digit-string value with a cap: `Some` value of the digits in `v[from..]`
/// when they are all digits, nonempty, and the value is at most `cap`.
fn parse_digits(v: &Vec<u8>, from: usize, cap: u64) -> (r: Option<u64>)
    requires
        from <= v@.len(),
        9 <= cap <= 0x1_0000_0000u64,
    ensures
        ({
            let t = v@.skip(from as int);
            match r {
                Some(n) => t.len() > 0 && all_digits(t) && digits_val(t) == n && n <= cap,
                None => !(t.len() > 0 && all_digits(t) && digits_val(t) <= cap),
            }
        }),
{
    let ghost t = v@.skip(from as int);
    if from == v.len() {
        return None;
    }
    let mut acc: u64 = 0;
    let mut i: usize = from;
    while i < v.len()
        invariant
            from <= i <= v@.len(),
            t == v@.skip(from as int),
            from < v@.len(),
            9 <= cap <= 0x1_0000_0000u64,
            acc == digits_val(t.take(i - from)),
            acc <= cap,
            forall|j: int| 0 <= j < i - from ==> is_digit(t[j]),
        decreases v@.len() - i,
    {
        let b = v[i];
        proof {
            assert(t[i - from] == v@[i as int]);
        }
        if !(48 <= b && b <= 57) {
            proof {
                assert(!is_digit(t[i - from]));
                assert(!all_digits(t));
            }
            return None;
        }
        let d: u64 = (b - 48) as u64;
        proof {
            lemma_digits_val_step(t, i - from);
        }
        if acc > (cap - d) / 10 || acc * 10 + d > cap {
            proof {
                lemma_digits_val_nonneg(t.take(i - from));
                if all_digits(t) && digits_val(t) <= cap {
                    lemma_digits_val_mono(t, i - from + 1);
                    assert(digits_val(t.take(i - from + 1)) == acc * 10 + d);
                    assert(acc * 10 + d <= cap);
                    assert(acc <= (cap - d) / 10) by (nonlinear_arith)
                        requires
                            acc * 10 + d <= cap,
                            0 <= d <= 9,
                            acc >= 0,
                    ;
                    assert(false);
                }
            }
            return None;
        }
        acc = acc * 10 + d;
        i += 1;
    }
    proof {
        assert(t.take(i - from) =~= t);
    }
    Some(acc)
}

/// Parses a decimal `u32` as `str::parse::<u32>` does.
pub fn parse_u32(v: &Vec<u8>) -> (r: Option<u32>)
    ensures
        r == spec_parse_u32(v@),
{
    let from: usize = if v.len() > 0 && v[0] == 43 {
        1
    } else {
        0
    };
    proof {
        if from == 0 {
            assert(v@.skip(0) =~= v@);
        } else {
            assert(v@.skip(1) =~= v@.drop_first());
        }
    }
    match parse_digits(v, from, u32::MAX as u64) {
        Some(n) => Some(n as u32),
        None => None,
    }
}

/// Parses a decimal `i32` as `str::parse::<i32>` does.
pub fn parse_i32(v: &Vec<u8>) -> (r: Option<i32>)
    ensures
        r == spec_parse_i32(v@),
{
    if v.len() > 0 && v[0] == 45 {
        proof {
            assert(v@.skip(1) =~= v@.drop_first());
        }
        match parse_digits(v, 1, 0x8000_0000u64) {
            Some(n) => Some((-(n as i64)) as i32),
            None => None,
        }
    } else {
        let from: usize = if v.len() > 0 && v[0] == 43 {
            1
        } else {
            0
        };
        proof {
            if from == 0 {
                assert(v@.skip(0) =~= v@);
            } else {
                assert(v@.skip(1) =~= v@.drop_first());
            }
        }
        match parse_digits(v, from, i32::MAX as u64) {
            Some(n) => Some(n as i32),
            None => None,
        }
    }
}

} // verus!

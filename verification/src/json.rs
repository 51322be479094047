use vstd::prelude::*;

use crate::bytes::append_bytes;

verus! {

// The page composer hands its rendering context to the template
// collaborator as a JSON document.  This module states exactly which bytes
// a context value turns into, and the executable builders are proved to
// emit them.

/// The lower-case hex digit for `n < 16`.
pub open spec fn spec_hex_digit(n: u8) -> u8 {
    if n < 10 {
        (48 + n) as u8
    } else {
        (87 + n) as u8
    }
}

/// How one byte appears inside a JSON string literal.
pub open spec fn esc_byte(b: u8) -> Seq<u8> {
    if b == 34 {
        seq![92u8, 34u8]
    } else if b == 92 {
        seq![92u8, 92u8]
    } else if b == 10 {
        seq![92u8, 110u8]
    } else if b == 13 {
        seq![92u8, 114u8]
    } else if b == 9 {
        seq![92u8, 116u8]
    } else if b < 32 {
        seq![92u8, 117u8, 48u8, 48u8, spec_hex_digit(b / 16), spec_hex_digit(b % 16)]
    } else {
        seq![b]
    }
}

pub open spec fn json_escaped(s: Seq<u8>) -> Seq<u8>
    decreases s.len(),
{
    if s.len() == 0 {
        Seq::empty()
    } else {
        esc_byte(s[0]) + json_escaped(s.drop_first())
    }
}

/// A JSON string literal holding `s`.
pub open spec fn json_string(s: Seq<u8>) -> Seq<u8> {
    seq![34u8] + json_escaped(s) + seq![34u8]
}

pub open spec fn json_null() -> Seq<u8> {
    seq![110u8, 117u8, 108u8, 108u8]
}

pub open spec fn json_bool(b: bool) -> Seq<u8> {
    if b {
        seq![116u8, 114u8, 117u8, 101u8]
    } else {
        seq![102u8, 97u8, 108u8, 115u8, 101u8]
    }
}

/// A string literal, or `null` for an absent value.
pub open spec fn json_opt_string(ov: Option<Seq<u8>>) -> Seq<u8> {
    match ov {
        Some(v) => json_string(v),
        None => json_null(),
    }
}

/// Already-rendered JSON values joined with commas.
pub open spec fn json_items(elems: Seq<Seq<u8>>) -> Seq<u8>
    decreases elems.len(),
{
    if elems.len() == 0 {
        Seq::empty()
    } else if elems.len() == 1 {
        elems[0]
    } else {
        elems[0] + seq![44u8] + json_items(elems.drop_first())
    }
}

/// A JSON array of already-rendered values.
pub open spec fn json_array(elems: Seq<Seq<u8>>) -> Seq<u8> {
    seq![91u8] + json_items(elems) + seq![93u8]
}

/// An object key with its separator: `{` before the first key, `,` before
/// the others, then the quoted key and a colon.
pub open spec fn json_key(key: Seq<u8>, first: bool) -> Seq<u8> {
    (if first {
        seq![123u8]
    } else {
        seq![44u8]
    }) + json_string(key) + seq![58u8]
}

pub proof fn lemma_json_escaped_app(a: Seq<u8>, b: Seq<u8>)
    ensures
        json_escaped(a + b) == json_escaped(a) + json_escaped(b),
    decreases a.len(),
{
    if a.len() == 0 {
        assert(a + b =~= b);
        assert(json_escaped(a) + json_escaped(b) =~= json_escaped(b));
    } else {
        assert((a + b)[0] == a[0]);
        assert((a + b).drop_first() =~= a.drop_first() + b);
        lemma_json_escaped_app(a.drop_first(), b);
        assert(json_escaped(a + b) =~= json_escaped(a) + json_escaped(b));
    }
}

pub proof fn lemma_json_escaped_snoc(s: Seq<u8>, i: int)
    requires
        0 <= i < s.len(),
    ensures
        json_escaped(s.take(i + 1)) == json_escaped(s.take(i)) + esc_byte(s[i]),
{
    assert(s.take(i + 1) =~= s.take(i) + seq![s[i]]);
    lemma_json_escaped_app(s.take(i), seq![s[i]]);
    let single = seq![s[i]];
    assert(single.drop_first() =~= Seq::<u8>::empty());
    assert(json_escaped(Seq::<u8>::empty()) =~= Seq::<u8>::empty());
    assert(json_escaped(single) =~= esc_byte(s[i]));
}

/// Joining one more rendered value appends a comma and the value.
pub proof fn lemma_json_items_snoc(elems: Seq<Seq<u8>>, e: Seq<u8>)
    requires
        elems.len() >= 1,
    ensures
        json_items(elems.push(e)) == json_items(elems) + seq![44u8] + e,
    decreases elems.len(),
{
    if elems.len() == 1 {
        let t = elems.push(e);
        assert(t[0] == elems[0]);
        assert(t.drop_first() =~= seq![e]);
        assert(json_items(seq![e]) == e);
        assert(json_items(t) =~= json_items(elems) + seq![44u8] + e);
    } else {
        let t = elems.push(e);
        assert(t[0] == elems[0]);
        assert(t.drop_first() =~= elems.drop_first().push(e));
        lemma_json_items_snoc(elems.drop_first(), e);
        assert(json_items(t) =~= json_items(elems) + seq![44u8] + e);
    }
}

fn hex_digit(n: u8) -> (r: u8)
    requires
        n < 16,
    ensures
        r == spec_hex_digit(n),
{
    if n < 10 {
        48 + n
    } else {
        87 + n
    }
}

/// Appends the JSON string literal holding `s`.
pub fn push_json_string(out: &mut Vec<u8>, s: &Vec<u8>)
    ensures
        final(out)@ == old(out)@ + json_string(s@),
{
    out.push(34);
    let mut i: usize = 0;
    proof {
        assert(s@.take(0) =~= Seq::<u8>::empty());
        assert(out@ =~= old(out)@ + seq![34u8] + json_escaped(s@.take(0)));
    }
    while i < s.len()
        invariant
            0 <= i <= s@.len(),
            out@ == old(out)@ + seq![34u8] + json_escaped(s@.take(i as int)),
        decreases s@.len() - i,
    {
        let b = s[i];
        proof {
            lemma_json_escaped_snoc(s@, i as int);
        }
        if b == 34 {
            out.push(92);
            out.push(34);
        } else if b == 92 {
            out.push(92);
            out.push(92);
        } else if b == 10 {
            out.push(92);
            out.push(110);
        } else if b == 13 {
            out.push(92);
            out.push(114);
        } else if b == 9 {
            out.push(92);
            out.push(116);
        } else if b < 32 {
            out.push(92);
            out.push(117);
            out.push(48);
            out.push(48);
            out.push(hex_digit(b / 16));
            out.push(hex_digit(b % 16));
        } else {
            out.push(b);
        }
        i += 1;
        proof {
            assert(out@ =~= old(out)@ + seq![34u8] + json_escaped(s@.take(i as int)));
        }
    }
    proof {
        assert(s@.take(s@.len() as int) =~= s@);
    }
    out.push(34);
    proof {
        assert(out@ =~= old(out)@ + json_string(s@));
    }
}

/// Appends `null`.
pub fn push_json_null(out: &mut Vec<u8>)
    ensures
        final(out)@ == old(out)@ + json_null(),
{
    out.push(110);
    out.push(117);
    out.push(108);
    out.push(108);
    proof {
        assert(out@ =~= old(out)@ + json_null());
    }
}

/// Appends `true` or `false`.
pub fn push_json_bool(out: &mut Vec<u8>, b: bool)
    ensures
        final(out)@ == old(out)@ + json_bool(b),
{
    if b {
        out.push(116);
        out.push(114);
        out.push(117);
        out.push(101);
    } else {
        out.push(102);
        out.push(97);
        out.push(108);
        out.push(115);
        out.push(101);
    }
    proof {
        assert(out@ =~= old(out)@ + json_bool(b));
    }
}

/// Appends a string literal or `null`.
pub fn push_json_opt_string(out: &mut Vec<u8>, ov: &Option<Vec<u8>>)
    ensures
        final(out)@ == old(out)@ + json_opt_string(match *ov {
            Some(ref v) => Some(v@),
            None => None,
        }),
{
    match ov {
        Some(v) => push_json_string(out, v),
        None => push_json_null(out),
    }
}

/// Appends an object key: `{` before the first, `,` before the rest, then
/// the quoted key and a colon.
pub fn push_json_key(out: &mut Vec<u8>, key: &Vec<u8>, first: bool)
    ensures
        final(out)@ == old(out)@ + json_key(key@, first),
{
    if first {
        out.push(123);
    } else {
        out.push(44);
    }
    push_json_string(out, key);
    out.push(58);
    proof {
        assert(out@ =~= old(out)@ + json_key(key@, first));
    }
}

/// Appends a JSON array of string literals.
pub fn push_json_str_array(out: &mut Vec<u8>, items: &Vec<Vec<u8>>)
    ensures
        final(out)@ == old(out)@ + json_array(
            items.deep_view().map_values(|v: Seq<u8>| json_string(v)),
        ),
{
    let ghost elems = items.deep_view().map_values(|v: Seq<u8>| json_string(v));
    out.push(91);
    let mut i: usize = 0;
    if items.len() > 0 {
        proof {
            assert(items@[0].deep_view() =~= items@[0]@);
            assert(elems[0] == json_string(items@[0]@));
        }
        push_json_string(out, &items[0]);
        i = 1;
        proof {
            assert(elems.take(1) =~= seq![elems[0]]);
            assert(json_items(elems.take(1)) == elems[0]);
        }
    } else {
        proof {
            assert(elems.take(0) =~= Seq::<Seq<u8>>::empty());
        }
    }
    proof {
        assert(out@ =~= old(out)@ + seq![91u8] + json_items(elems.take(i as int)));
    }
    while i < items.len()
        invariant
            (1 <= i <= items@.len()) || (i == 0 && items@.len() == 0),
            elems == items.deep_view().map_values(|v: Seq<u8>| json_string(v)),
            out@ == old(out)@ + seq![91u8] + json_items(elems.take(i as int)),
        decreases items@.len() - i,
    {
        proof {
            assert(items@[i as int].deep_view() =~= items@[i as int]@);
            assert(elems[i as int] == json_string(items@[i as int]@));
            assert(elems.take(i as int).len() >= 1);
            lemma_json_items_snoc(elems.take(i as int), elems[i as int]);
            assert(elems.take(i as int).push(elems[i as int]) =~= elems.take(i + 1));
        }
        out.push(44);
        push_json_string(out, &items[i]);
        i += 1;
        proof {
            assert(out@ =~= old(out)@ + seq![91u8] + json_items(elems.take(i as int)));
        }
    }
    proof {
        assert(elems.take(i as int) =~= elems);
    }
    out.push(93);
    proof {
        assert(out@ =~= old(out)@ + json_array(elems));
    }
}

} // verus!

use vstd::prelude::*;

use crate::bytes::{
    all_digits, append_bytes, bytes_eq, dec_rep, dec_rep_int, digits_val, find_from, first_at,
    is_digit, is_ws, lemma_dec_rep_digits, lemma_first_at_unique, lemma_split_append,
    lemma_split_nosep, parse_i32, parse_u32, push_dec_u32, spec_parse_i32, spec_parse_u32,
    split_bytes, split_vec, subvec, trim, trim_end, trim_start, trim_vec,
};
use crate::date::{check_valid_date, valid_date, Date};

verus! {

// The front matter of a post is a delimiter-bounded block of `key: value`
// lines.  Parsing walks the lines in order: delimiter lines and blank lines
// are skipped, recognized keys set the matching field (a later line wins),
// unrecognized keys are ignored, and a malformed line or date is a fatal
// error for the whole block.

#[derive(Clone, Copy, PartialEq, Eq, Structural, Debug)]
pub enum FmError {
    /// A non-empty, non-delimiter line without a colon.
    NoColon,
    /// A date value without exactly three `-`-separated parts.
    DateArity,
    /// A date component that does not parse as a decimal number.
    DateNumber,
    /// A numeric triple that is not a calendar date.
    DateRange,
}

/// Per-post metadata, with text fields as raw bytes.
#[derive(Debug, PartialEq, Eq)]
pub struct PostMeta {
    pub date: Option<Date>,
    pub draft: bool,
    pub next: Option<Vec<u8>>,
    pub slug: Vec<u8>,
    pub title: Vec<u8>,
    pub description: Vec<u8>,
    pub title_meta: Option<Vec<u8>>,
}

/// The mathematical value of a `PostMeta`.
pub struct PostMetaView {
    pub date: Option<Date>,
    pub draft: bool,
    pub next: Option<Seq<u8>>,
    pub slug: Seq<u8>,
    pub title: Seq<u8>,
    pub description: Seq<u8>,
    pub title_meta: Option<Seq<u8>>,
}

impl View for PostMeta {
    type V = PostMetaView;

    open spec fn view(&self) -> PostMetaView {
        PostMetaView {
            date: self.date,
            draft: self.draft,
            next: match self.next {
                Some(v) => Some(v@),
                None => None,
            },
            slug: self.slug@,
            title: self.title@,
            description: self.description@,
            title_meta: match self.title_meta {
                Some(v) => Some(v@),
                None => None,
            },
        }
    }
}

/// The record every field of which is absent or empty.
pub open spec fn empty_meta() -> PostMetaView {
    PostMetaView {
        date: None,
        draft: false,
        next: None,
        slug: Seq::empty(),
        title: Seq::empty(),
        description: Seq::empty(),
        title_meta: None,
    }
}

/// A fresh record with every field at its default.
pub fn new_meta() -> (m: PostMeta)
    ensures
        m@ == empty_meta(),
{
    let m = PostMeta {
        date: None,
        draft: false,
        next: None,
        slug: Vec::new(),
        title: Vec::new(),
        description: Vec::new(),
        title_meta: None,
    };
    proof {
        assert(m@.slug =~= empty_meta().slug);
        assert(m@.title =~= empty_meta().title);
        assert(m@.description =~= empty_meta().description);
    }
    m
}

// --- the byte strings the parser recognizes ---

pub open spec fn delim() -> Seq<u8> {
    seq![45u8, 45u8, 45u8]
}

pub open spec fn kw_title() -> Seq<u8> {
    seq![116u8, 105u8, 116u8, 108u8, 101u8]
}

pub open spec fn kw_slug() -> Seq<u8> {
    seq![115u8, 108u8, 117u8, 103u8]
}

pub open spec fn kw_draft() -> Seq<u8> {
    seq![100u8, 114u8, 97u8, 102u8, 116u8]
}

pub open spec fn kw_date() -> Seq<u8> {
    seq![100u8, 97u8, 116u8, 101u8]
}

pub open spec fn kw_title_meta() -> Seq<u8> {
    seq![116u8, 105u8, 116u8, 108u8, 101u8, 95u8, 109u8, 101u8, 116u8, 97u8]
}

pub open spec fn kw_next() -> Seq<u8> {
    seq![110u8, 101u8, 120u8, 116u8]
}

pub open spec fn kw_description() -> Seq<u8> {
    seq![100u8, 101u8, 115u8, 99u8, 114u8, 105u8, 112u8, 116u8, 105u8, 111u8, 110u8]
}

pub open spec fn lit_true() -> Seq<u8> {
    seq![116u8, 114u8, 117u8, 101u8]
}

/// The delimiter line `---` as a vector.
pub fn delim_vec() -> (r: Vec<u8>)
    ensures
        r@ == delim(),
{
    let mut v: Vec<u8> = Vec::new();
    v.push(45);
    v.push(45);
    v.push(45);
    proof {
        assert(v@ =~= delim());
    }
    v
}

pub fn kw_title_vec() -> (r: Vec<u8>)
    ensures
        r@ == kw_title(),
{
    let mut v: Vec<u8> = Vec::new();
    v.push(116);
    v.push(105);
    v.push(116);
    v.push(108);
    v.push(101);
    proof {
        assert(v@ =~= kw_title());
    }
    v
}

pub fn kw_slug_vec() -> (r: Vec<u8>)
    ensures
        r@ == kw_slug(),
{
    let mut v: Vec<u8> = Vec::new();
    v.push(115);
    v.push(108);
    v.push(117);
    v.push(103);
    proof {
        assert(v@ =~= kw_slug());
    }
    v
}

pub fn kw_draft_vec() -> (r: Vec<u8>)
    ensures
        r@ == kw_draft(),
{
    let mut v: Vec<u8> = Vec::new();
    v.push(100);
    v.push(114);
    v.push(97);
    v.push(102);
    v.push(116);
    proof {
        assert(v@ =~= kw_draft());
    }
    v
}

pub fn kw_date_vec() -> (r: Vec<u8>)
    ensures
        r@ == kw_date(),
{
    let mut v: Vec<u8> = Vec::new();
    v.push(100);
    v.push(97);
    v.push(116);
    v.push(101);
    proof {
        assert(v@ =~= kw_date());
    }
    v
}

pub fn kw_title_meta_vec() -> (r: Vec<u8>)
    ensures
        r@ == kw_title_meta(),
{
    let mut v: Vec<u8> = Vec::new();
    v.push(116);
    v.push(105);
    v.push(116);
    v.push(108);
    v.push(101);
    v.push(95);
    v.push(109);
    v.push(101);
    v.push(116);
    v.push(97);
    proof {
        assert(v@ =~= kw_title_meta());
    }
    v
}

pub fn kw_next_vec() -> (r: Vec<u8>)
    ensures
        r@ == kw_next(),
{
    let mut v: Vec<u8> = Vec::new();
    v.push(110);
    v.push(101);
    v.push(120);
    v.push(116);
    proof {
        assert(v@ =~= kw_next());
    }
    v
}

pub fn kw_description_vec() -> (r: Vec<u8>)
    ensures
        r@ == kw_description(),
{
    let mut v: Vec<u8> = Vec::new();
    v.push(100);
    v.push(101);
    v.push(115);
    v.push(99);
    v.push(114);
    v.push(105);
    v.push(112);
    v.push(116);
    v.push(105);
    v.push(111);
    v.push(110);
    proof {
        assert(v@ =~= kw_description());
    }
    v
}

pub fn lit_true_vec() -> (r: Vec<u8>)
    ensures
        r@ == lit_true(),
{
    let mut v: Vec<u8> = Vec::new();
    v.push(116);
    v.push(114);
    v.push(117);
    v.push(101);
    proof {
        assert(v@ =~= lit_true());
    }
    v
}

// --- the specification of parsing ---

/// What a `date:` value denotes: exactly three `-`-separated decimal
/// components, day first, that name a real calendar date.
pub open spec fn spec_parse_date(value: Seq<u8>) -> Result<Date, FmError> {
    let parts = split_bytes(value, 45);
    if parts.len() != 3 {
        Err(FmError::DateArity)
    } else {
        if spec_parse_u32(parts[0]) is Some && spec_parse_u32(parts[1]) is Some
            && spec_parse_i32(parts[2]) is Some {
            let d = Date {
                day: spec_parse_u32(parts[0])->0,
                month: spec_parse_u32(parts[1])->0,
                year: spec_parse_i32(parts[2])->0,
            };
            if valid_date(d) {
                Ok(d)
            } else {
                Err(FmError::DateRange)
            }
        } else {
            Err(FmError::DateNumber)
        }
    }
}

/// The effect of one front-matter line on the record.
pub open spec fn apply_line(m: PostMetaView, line: Seq<u8>) -> Result<PostMetaView, FmError> {
    if line == delim() || line.len() == 0 {
        Ok(m)
    } else if first_at(line, 58) >= line.len() {
        Err(FmError::NoColon)
    } else {
        let key = line.take(first_at(line, 58) as int);
        let value = trim(line.skip(first_at(line, 58) as int + 1));
        if key == kw_title() {
            Ok(PostMetaView { title: value, ..m })
        } else if key == kw_slug() {
            Ok(PostMetaView { slug: value, ..m })
        } else if key == kw_draft() {
            Ok(PostMetaView { draft: value == lit_true(), ..m })
        } else if key == kw_date() {
            match spec_parse_date(value) {
                Ok(d) => Ok(PostMetaView { date: Some(d), ..m }),
                Err(e) => Err(e),
            }
        } else if key == kw_title_meta() {
            Ok(PostMetaView { title_meta: Some(value), ..m })
        } else if key == kw_next() {
            Ok(PostMetaView { next: Some(value), ..m })
        } else if key == kw_description() {
            Ok(PostMetaView { description: value, ..m })
        } else {
            Ok(m)
        }
    }
}

/// Folds `apply_line` over the lines, stopping at the first error.
pub open spec fn fold_lines(m: PostMetaView, lines: Seq<Seq<u8>>) -> Result<PostMetaView, FmError>
    decreases lines.len(),
{
    if lines.len() == 0 {
        Ok(m)
    } else {
        match apply_line(m, lines[0]) {
            Ok(m2) => fold_lines(m2, lines.drop_first()),
            Err(e) => Err(e),
        }
    }
}

/// What parsing a whole front-matter block yields.
pub open spec fn spec_parse_front_matter(s: Seq<u8>) -> Result<PostMetaView, FmError> {
    fold_lines(empty_meta(), split_bytes(s, 10))
}

pub proof fn lemma_fold_step(m: PostMetaView, lines: Seq<Seq<u8>>, i: int)
    requires
        0 <= i < lines.len(),
    ensures
        fold_lines(m, lines.skip(i)) == match apply_line(m, lines[i]) {
            Ok(m2) => fold_lines(m2, lines.skip(i + 1)),
            Err(e) => Err(e),
        },
{
    assert(lines.skip(i)[0] == lines[i]);
    assert(lines.skip(i).drop_first() =~= lines.skip(i + 1));
}

/// One fold step over a bounded slice of the lines.
pub proof fn lemma_fold_step_sub(m: PostMetaView, lines: Seq<Seq<u8>>, t: int, c: int)
    requires
        0 <= t < c <= lines.len(),
    ensures
        fold_lines(m, lines.subrange(t, c)) == match apply_line(m, lines[t]) {
            Ok(m2) => fold_lines(m2, lines.subrange(t + 1, c)),
            Err(e) => Err(e),
        },
{
    assert(lines.subrange(t, c)[0] == lines[t]);
    assert(lines.subrange(t, c).drop_first() =~= lines.subrange(t + 1, c));
}

// --- the executable parser ---

/// Applies one line to the record; `None` means the line was handled,
/// `Some(e)` that it is malformed, with the record left unchanged.
pub(crate) fn apply_line_exec(m: &mut PostMeta, line: &Vec<u8>) -> (r: Option<FmError>)
    ensures
        match r {
            None => apply_line(old(m)@, line@) == Ok::<PostMetaView, FmError>(final(m)@),
            Some(e) => apply_line(old(m)@, line@) == Err::<PostMetaView, FmError>(e),
        },
{
    let d = delim_vec();
    if bytes_eq(line, &d) || line.len() == 0 {
        return None;
    }
    let c = find_from(line, 0, 58);
    proof {
        lemma_first_at_unique(line@, 58, (c - 0) as nat);
        assert(line@.skip(0) =~= line@);
    }
    if c == line.len() {
        return Some(FmError::NoColon);
    }
    let key = subvec(line, 0, c);
    let raw_value = subvec(line, c + 1, line.len());
    let value = trim_vec(&raw_value);
    proof {
        assert(key@ =~= line@.take(first_at(line@, 58) as int));
        assert(raw_value@ =~= line@.skip(first_at(line@, 58) as int + 1));
    }
    if bytes_eq(&key, &kw_title_vec()) {
        m.title = value;
        None
    } else if bytes_eq(&key, &kw_slug_vec()) {
        m.slug = value;
        None
    } else if bytes_eq(&key, &kw_draft_vec()) {
        m.draft = bytes_eq(&value, &lit_true_vec());
        None
    } else if bytes_eq(&key, &kw_date_vec()) {
        let parts = split_vec(&value, 45);
        proof {
            assert(parts.deep_view().len() == parts@.len());
        }
        if parts.len() != 3 {
            return Some(FmError::DateArity);
        }
        proof {
            assert(parts@[0].deep_view() =~= parts@[0]@);
            assert(parts@[1].deep_view() =~= parts@[1]@);
            assert(parts@[2].deep_view() =~= parts@[2]@);
            assert(parts@[0]@ == split_bytes(value@, 45)[0]);
            assert(parts@[1]@ == split_bytes(value@, 45)[1]);
            assert(parts@[2]@ == split_bytes(value@, 45)[2]);
        }
        let day = parse_u32(&parts[0]);
        let month = parse_u32(&parts[1]);
        let year = parse_i32(&parts[2]);
        match (day, month, year) {
            (Some(day), Some(month), Some(year)) => {
                let dt = Date { day, month, year };
                if check_valid_date(&dt) {
                    m.date = Some(dt);
                    None
                } else {
                    Some(FmError::DateRange)
                }
            },
            _ => Some(FmError::DateNumber),
        }
    } else if bytes_eq(&key, &kw_title_meta_vec()) {
        m.title_meta = Some(value);
        None
    } else if bytes_eq(&key, &kw_next_vec()) {
        m.next = Some(value);
        None
    } else if bytes_eq(&key, &kw_description_vec()) {
        m.description = value;
        None
    } else {
        None
    }
}

/// Parses a front-matter block.  The result is exactly what
/// `spec_parse_front_matter` states, field for field, and an error is
/// returned if and only if the block holds a line without a colon or a
/// malformed date.
pub fn parse_front_matter(s: &Vec<u8>) -> (r: Result<PostMeta, FmError>)
    ensures
        match r {
            Ok(m) => spec_parse_front_matter(s@) == Ok::<PostMetaView, FmError>(m@),
            Err(e) => spec_parse_front_matter(s@) == Err::<PostMetaView, FmError>(e),
        },
{
    let lines = split_vec(s, 10);
    let ghost lv = lines.deep_view();
    let mut m = new_meta();
    let mut i: usize = 0;
    proof {
        assert(lv.skip(0) =~= lv);
    }
    while i < lines.len()
        invariant
            0 <= i <= lines@.len(),
            lv == lines.deep_view(),
            lv == split_bytes(s@, 10),
            fold_lines(empty_meta(), lv) == fold_lines(m@, lv.skip(i as int)),
        decreases lines@.len() - i,
    {
        proof {
            lemma_fold_step(m@, lv, i as int);
            assert(lines@[i as int].deep_view() =~= lines@[i as int]@);
            assert(lv[i as int] == lines@[i as int]@);
        }
        let line: &Vec<u8> = &lines[i];
        let step = apply_line_exec(&mut m, line);
        match step {
            None => {},
            Some(e) => {
                return Err(e);
            },
        }
        i += 1;
    }
    proof {
        assert(lv.skip(i as int) =~= Seq::<Seq<u8>>::empty());
    }
    Ok(m)
}

// --- serialization of the recognized fields ---

pub open spec fn lit_false() -> Seq<u8> {
    seq![102u8, 97u8, 108u8, 115u8, 101u8]
}

pub fn lit_false_vec() -> (r: Vec<u8>)
    ensures
        r@ == lit_false(),
{
    let mut v: Vec<u8> = Vec::new();
    v.push(102);
    v.push(97);
    v.push(108);
    v.push(115);
    v.push(101);
    proof {
        assert(v@ =~= lit_false());
    }
    v
}

/// One `key:value` line, without its newline.
pub open spec fn ser_line(key: Seq<u8>, value: Seq<u8>) -> Seq<u8> {
    key + seq![58u8] + value
}

/// The line an optional field serializes to, if any, with its newline.
pub open spec fn opt_field(key: Seq<u8>, ov: Option<Seq<u8>>) -> Seq<u8> {
    match ov {
        Some(v) => ser_line(key, v) + seq![10u8],
        None => Seq::empty(),
    }
}

/// How a date value is written: `day-month-year` in decimal.
pub open spec fn date_rep(d: Date) -> Seq<u8> {
    dec_rep(d.day as nat) + seq![45u8] + dec_rep(d.month as nat) + seq![45u8] + dec_rep_int(
        d.year as int,
    )
}

/// The serialized form of the recognized fields: a delimiter-bounded block
/// of `key:value` lines, absent optional fields omitted.
#[verifier::opaque]
pub open spec fn spec_serialize(m: PostMetaView) -> Seq<u8> {
    delim() + seq![10u8] + (ser_line(kw_title(), m.title) + seq![10u8]) + (ser_line(
        kw_slug(),
        m.slug,
    ) + seq![10u8]) + (ser_line(kw_description(), m.description) + seq![10u8]) + (ser_line(
        kw_draft(),
        if m.draft {
            lit_true()
        } else {
            lit_false()
        },
    ) + seq![10u8]) + (match m.date {
        Some(d) => ser_line(kw_date(), date_rep(d)) + seq![10u8],
        None => Seq::empty(),
    }) + opt_field(kw_next(), m.next) + opt_field(kw_title_meta(), m.title_meta) + delim()
}

/// A value that survives the trip through a line unchanged: free of
/// newlines and of surrounding whitespace.
pub open spec fn plain_value(v: Seq<u8>) -> bool {
    trim(v) == v && forall|j: int| 0 <= j < v.len() ==> v[j] != 10
}

/// A record the serialized form can carry faithfully.
pub open spec fn serializable(m: PostMetaView) -> bool {
    plain_value(m.title) && plain_value(m.slug) && plain_value(m.description) && (match m.next {
        Some(v) => plain_value(v),
        None => true,
    }) && (match m.title_meta {
        Some(v) => plain_value(v),
        None => true,
    }) && (match m.date {
        Some(d) => valid_date(d) && d.year >= 0,
        None => true,
    })
}

/// Appends one `key:value` line with its newline.
fn push_line(out: &mut Vec<u8>, key: &Vec<u8>, value: &Vec<u8>)
    ensures
        final(out)@ == old(out)@ + (ser_line(key@, value@) + seq![10u8]),
{
    append_bytes(out, key);
    out.push(58);
    append_bytes(out, value);
    out.push(10);
    proof {
        assert(out@ =~= old(out)@ + (ser_line(key@, value@) + seq![10u8]));
    }
}

/// The written form of a date value.
fn date_value_vec(dt: &Date) -> (r: Vec<u8>)
    ensures
        r@ == date_rep(*dt),
{
    let mut out: Vec<u8> = Vec::new();
    push_dec_u32(&mut out, dt.day);
    out.push(45);
    push_dec_u32(&mut out, dt.month);
    out.push(45);
    if dt.year < 0 {
        out.push(45);
        let mag: u32 = if dt.year == i32::MIN {
            2147483648u32
        } else {
            (-dt.year) as u32
        };
        assert(mag == -(dt.year as int));
        push_dec_u32(&mut out, mag);
    } else {
        push_dec_u32(&mut out, dt.year as u32);
    }
    proof {
        assert(out@ =~= date_rep(*dt));
    }
    out
}

/// Writes the recognized fields back out as a front-matter block.
pub fn serialize_front_matter(m: &PostMeta) -> (r: Vec<u8>)
    ensures
        r@ == spec_serialize(m@),
{
    let mut out: Vec<u8> = Vec::new();
    let d = delim_vec();
    append_bytes(&mut out, &d);
    out.push(10);
    push_line(&mut out, &kw_title_vec(), &m.title);
    push_line(&mut out, &kw_slug_vec(), &m.slug);
    push_line(&mut out, &kw_description_vec(), &m.description);
    if m.draft {
        push_line(&mut out, &kw_draft_vec(), &lit_true_vec());
    } else {
        push_line(&mut out, &kw_draft_vec(), &lit_false_vec());
    }
    match &m.date {
        Some(dt) => {
            let dv = date_value_vec(dt);
            push_line(&mut out, &kw_date_vec(), &dv);
        },
        None => {},
    }
    match &m.next {
        Some(v) => {
            push_line(&mut out, &kw_next_vec(), v);
        },
        None => {},
    }
    match &m.title_meta {
        Some(v) => {
            push_line(&mut out, &kw_title_meta_vec(), v);
        },
        None => {},
    }
    append_bytes(&mut out, &d);
    proof {
        reveal(spec_serialize);
        assert(out@ =~= spec_serialize(m@));
    }
    out
}

// --- the round-trip law ---

/// The lines of the serialized block, in order.
pub open spec fn ser_lines(m: PostMetaView) -> Seq<Seq<u8>> {
    seq![
        delim(),
        ser_line(kw_title(), m.title),
        ser_line(kw_slug(), m.slug),
        ser_line(kw_description(), m.description),
        ser_line(
            kw_draft(),
            if m.draft {
                lit_true()
            } else {
                lit_false()
            },
        ),
    ] + (match m.date {
        Some(d) => seq![ser_line(kw_date(), date_rep(d))],
        None => Seq::<Seq<u8>>::empty(),
    }) + (match m.next {
        Some(v) => seq![ser_line(kw_next(), v)],
        None => Seq::<Seq<u8>>::empty(),
    }) + (match m.title_meta {
        Some(v) => seq![ser_line(kw_title_meta(), v)],
        None => Seq::<Seq<u8>>::empty(),
    }) + seq![delim()]
}

proof fn lemma_ser_line_shape(key: Seq<u8>, value: Seq<u8>)
    requires
        key.len() > 0,
        forall|j: int| 0 <= j < key.len() ==> key[j] != 58,
        trim(value) == value,
    ensures
        ser_line(key, value).len() > 0,
        ser_line(key, value) != delim(),
        first_at(ser_line(key, value), 58) == key.len(),
        ser_line(key, value).take(key.len() as int) == key,
        trim(ser_line(key, value).skip(key.len() as int + 1)) == value,
{
    let line = ser_line(key, value);
    assert forall|j: int| 0 <= j < key.len() implies line[j] != 58 by {
        assert(line[j] == key[j]);
    }
    assert(line[key.len() as int] == 58);
    lemma_first_at_unique(line, 58, key.len());
    assert(line.take(key.len() as int) =~= key);
    assert(line.skip(key.len() as int + 1) =~= value);
    if line == delim() {
        assert(line[key.len() as int] == 45);
        assert(false);
    }
}

proof fn lemma_ser_line_no_nl(key: Seq<u8>, value: Seq<u8>)
    requires
        forall|j: int| 0 <= j < key.len() ==> key[j] != 10,
        forall|j: int| 0 <= j < value.len() ==> value[j] != 10,
    ensures
        forall|j: int| 0 <= j < ser_line(key, value).len() ==> #[trigger] ser_line(key, value)[j]
            != 10,
{
    let line = ser_line(key, value);
    assert forall|j: int| 0 <= j < line.len() implies line[j] != 10 by {
        if j < key.len() {
            assert(line[j] == key[j]);
        } else if j == key.len() {
        } else {
            assert(line[j] == value[j - key.len() - 1]);
        }
    }
}

proof fn lemma_dec_parsable(n: nat)
    requires
        n <= u32::MAX,
    ensures
        spec_parse_u32(dec_rep(n)) == Some((n as u32)),
        forall|j: int| 0 <= j < dec_rep(n).len() ==> is_digit(#[trigger] dec_rep(n)[j]),
{
    lemma_dec_rep_digits(n);
    let s = dec_rep(n);
    assert(is_digit(s[0]));
    assert(s[0] != 43);
}

/// What a date's written form parses back to.
proof fn lemma_date_rep(d: Date)
    requires
        valid_date(d),
        d.year >= 0,
    ensures
        trim(date_rep(d)) == date_rep(d),
        forall|j: int| 0 <= j < date_rep(d).len() ==> #[trigger] date_rep(d)[j] != 10,
        spec_parse_date(date_rep(d)) == Ok::<Date, FmError>(d),
{
    let a = dec_rep(d.day as nat);
    let b = dec_rep(d.month as nat);
    let c = dec_rep(d.year as nat);
    lemma_dec_parsable(d.day as nat);
    lemma_dec_parsable(d.month as nat);
    lemma_dec_parsable(d.year as nat);
    lemma_dec_rep_digits(d.day as nat);
    lemma_dec_rep_digits(d.month as nat);
    lemma_dec_rep_digits(d.year as nat);
    let s = date_rep(d);
    assert(dec_rep_int(d.year as int) == c);
    assert(s =~= a + seq![45u8] + (b + seq![45u8] + c));
    assert forall|j: int| 0 <= j < a.len() implies a[j] != 45 by {
        assert(is_digit(a[j]));
    }
    assert forall|j: int| 0 <= j < b.len() implies b[j] != 45 by {
        assert(is_digit(b[j]));
    }
    assert forall|j: int| 0 <= j < c.len() implies c[j] != 45 by {
        assert(is_digit(c[j]));
    }
    lemma_split_append(a, b + seq![45u8] + c, 45);
    lemma_split_append(b, c, 45);
    lemma_split_nosep(c, 45);
    let parts = split_bytes(s, 45);
    assert(parts =~= seq![a, b, c]);
    assert(spec_parse_u32(parts[0]) == Some(d.day));
    assert(spec_parse_u32(parts[1]) == Some(d.month));
    assert(c[0] != 45 && c[0] != 43);
    assert(digits_val(c) <= i32::MAX);
    assert(spec_parse_i32(parts[2]) == Some(d.year));
    // every byte is a digit or a separator, so nothing trims away
    assert forall|j: int| 0 <= j < s.len() implies (is_digit(s[j]) || s[j] == 45) by {
        if j < a.len() {
            assert(s[j] == a[j]);
        } else if j == a.len() {
        } else if j < a.len() + 1 + b.len() {
            assert(s[j] == b[j - a.len() - 1]);
        } else if j == a.len() + 1 + b.len() {
        } else {
            assert(s[j] == c[j - a.len() - b.len() - 2]);
        }
    }
    assert(!is_ws(s[0]));
    assert(!is_ws(s.last()));
    assert(trim_start(s) == s);
    assert(trim_end(s) == s);
    assert forall|j: int| 0 <= j < s.len() implies s[j] != 10 by {
        assert(is_digit(s[j]) || s[j] == 45);
    }
}

/// The serialized block splits back into exactly its lines.
#[verifier::rlimit(100)]
#[verifier::spinoff_prover]
proof fn lemma_serialize_split(m: PostMetaView)
    requires
        serializable(m),
    ensures
        split_bytes(spec_serialize(m), 10) == ser_lines(m),
{
    let s = spec_serialize(m);
    let draft_val = if m.draft {
        lit_true()
    } else {
        lit_false()
    };
    let l_title = ser_line(kw_title(), m.title);
    let l_slug = ser_line(kw_slug(), m.slug);
    let l_desc = ser_line(kw_description(), m.description);
    let l_draft = ser_line(kw_draft(), draft_val);
    reveal(spec_serialize);
    lemma_ser_line_no_nl(kw_title(), m.title);
    lemma_ser_line_no_nl(kw_slug(), m.slug);
    lemma_ser_line_no_nl(kw_description(), m.description);
    lemma_ser_line_no_nl(kw_draft(), draft_val);

    let tail3 = delim();
    let tail_tm = opt_field(kw_title_meta(), m.title_meta) + tail3;
    let tail_next = opt_field(kw_next(), m.next) + tail_tm;
    let tail_date = (match m.date {
        Some(d) => ser_line(kw_date(), date_rep(d)) + seq![10u8],
        None => Seq::<u8>::empty(),
    }) + tail_next;
    lemma_split_nosep(tail3, 10);
    let lines_tm = (match m.title_meta {
        Some(v) => seq![ser_line(kw_title_meta(), v)],
        None => Seq::<Seq<u8>>::empty(),
    }) + seq![tail3];
    match m.title_meta {
        Some(v) => {
            let l = ser_line(kw_title_meta(), v);
            lemma_ser_line_no_nl(kw_title_meta(), v);
            assert(tail_tm =~= l + seq![10u8] + tail3);
            lemma_split_append(l, tail3, 10);
            assert(split_bytes(tail_tm, 10) =~= lines_tm);
        },
        None => {
            assert(tail_tm =~= tail3);
            assert(split_bytes(tail_tm, 10) =~= lines_tm);
        },
    }
    let lines_next = (match m.next {
        Some(v) => seq![ser_line(kw_next(), v)],
        None => Seq::<Seq<u8>>::empty(),
    }) + lines_tm;
    match m.next {
        Some(v) => {
            let l = ser_line(kw_next(), v);
            lemma_ser_line_no_nl(kw_next(), v);
            assert(tail_next =~= l + seq![10u8] + tail_tm);
            lemma_split_append(l, tail_tm, 10);
            assert(split_bytes(tail_next, 10) =~= lines_next);
        },
        None => {
            assert(tail_next =~= tail_tm);
            assert(split_bytes(tail_next, 10) =~= lines_next);
        },
    }
    let lines_date = (match m.date {
        Some(d) => seq![ser_line(kw_date(), date_rep(d))],
        None => Seq::<Seq<u8>>::empty(),
    }) + lines_next;
    match m.date {
        Some(d) => {
            lemma_date_rep(d);
            let l = ser_line(kw_date(), date_rep(d));
            lemma_ser_line_no_nl(kw_date(), date_rep(d));
            assert(tail_date =~= l + seq![10u8] + tail_next);
            lemma_split_append(l, tail_next, 10);
            assert(split_bytes(tail_date, 10) =~= lines_date);
        },
        None => {
            assert(tail_date =~= tail_next);
            assert(split_bytes(tail_date, 10) =~= lines_date);
        },
    }
    let tail_draft = l_draft + seq![10u8] + tail_date;
    let tail_desc = l_desc + seq![10u8] + tail_draft;
    let tail_slug = l_slug + seq![10u8] + tail_desc;
    let tail_title = l_title + seq![10u8] + tail_slug;
    lemma_split_append(l_draft, tail_date, 10);
    lemma_split_append(l_desc, tail_draft, 10);
    lemma_split_append(l_slug, tail_desc, 10);
    lemma_split_append(l_title, tail_slug, 10);
    assert(s =~= delim() + seq![10u8] + tail_title);
    lemma_split_append(delim(), tail_title, 10);
    assert(split_bytes(s, 10) =~= seq![delim(), l_title, l_slug, l_desc, l_draft] + lines_date);
    assert(ser_lines(m) =~= seq![delim(), l_title, l_slug, l_desc, l_draft] + lines_date);
}

/// The record after the five fixed head lines have been applied.
pub open spec fn head_meta(m: PostMetaView) -> PostMetaView {
    PostMetaView {
        date: None,
        draft: m.draft,
        next: None,
        slug: m.slug,
        title: m.title,
        description: m.description,
        title_meta: None,
    }
}

#[verifier::rlimit(100)]
#[verifier::spinoff_prover]
proof fn lemma_fold_head(m: PostMetaView)
    requires
        serializable(m),
    ensures
        fold_lines(
            empty_meta(),
            seq![
                delim(),
                ser_line(kw_title(), m.title),
                ser_line(kw_slug(), m.slug),
                ser_line(kw_description(), m.description),
                ser_line(
                    kw_draft(),
                    if m.draft {
                        lit_true()
                    } else {
                        lit_false()
                    },
                ),
            ],
        ) == Ok::<PostMetaView, FmError>(head_meta(m)),
{
    let draft_val = if m.draft {
        lit_true()
    } else {
        lit_false()
    };
    let l_title = ser_line(kw_title(), m.title);
    let l_slug = ser_line(kw_slug(), m.slug);
    let l_desc = ser_line(kw_description(), m.description);
    let l_draft = ser_line(kw_draft(), draft_val);
    lemma_ser_line_shape(kw_title(), m.title);
    lemma_ser_line_shape(kw_slug(), m.slug);
    lemma_ser_line_shape(kw_description(), m.description);
    assert(trim_start(draft_val) == draft_val);
    assert(trim_end(draft_val) == draft_val);
    lemma_ser_line_shape(kw_draft(), draft_val);

    let m0 = empty_meta();
    assert(apply_line(m0, delim()) == Ok::<PostMetaView, FmError>(m0));
    let m1 = PostMetaView { title: m.title, ..m0 };
    assert(apply_line(m0, l_title) == Ok::<PostMetaView, FmError>(m1));
    let m2 = PostMetaView { slug: m.slug, ..m1 };
    assert(kw_slug() != kw_title());
    assert(apply_line(m1, l_slug) == Ok::<PostMetaView, FmError>(m2));
    let m3 = PostMetaView { description: m.description, ..m2 };
    assert(kw_description()[0] == 100 && kw_title()[0] == 116);
    assert(kw_description() != kw_title() && kw_description() != kw_slug());
    assert(kw_description() != kw_draft() && kw_description() != kw_date());
    assert(kw_description() != kw_title_meta() && kw_description() != kw_next());
    assert(apply_line(m2, l_desc) == Ok::<PostMetaView, FmError>(m3));
    let m4 = PostMetaView { draft: m.draft, ..m3 };
    assert(kw_draft()[1] == 114 && kw_title()[1] == 105);
    assert(kw_draft() != kw_title() && kw_draft() != kw_slug());
    assert(lit_true() != lit_false());
    assert(draft_val == lit_true() <==> m.draft);
    assert(apply_line(m3, l_draft) == Ok::<PostMetaView, FmError>(m4));
    assert(m4 == head_meta(m));

    let suffix4 = seq![l_title, l_slug, l_desc, l_draft];
    let suffix3 = seq![l_slug, l_desc, l_draft];
    let suffix2 = seq![l_desc, l_draft];
    let suffix1 = seq![l_draft];
    let nil = Seq::<Seq<u8>>::empty();
    let head = seq![delim(), l_title, l_slug, l_desc, l_draft];
    assert(fold_lines(m4, nil) == Ok::<PostMetaView, FmError>(m4));
    assert(suffix1.drop_first() =~= nil);
    assert(fold_lines(m3, suffix1) == Ok::<PostMetaView, FmError>(m4));
    assert(suffix2.drop_first() =~= suffix1);
    assert(fold_lines(m2, suffix2) == Ok::<PostMetaView, FmError>(m4));
    assert(suffix3.drop_first() =~= suffix2);
    assert(fold_lines(m1, suffix3) == Ok::<PostMetaView, FmError>(m4));
    assert(suffix4.drop_first() =~= suffix3);
    assert(fold_lines(m0, suffix4) == Ok::<PostMetaView, FmError>(m4));
    assert(head.drop_first() =~= suffix4);
    assert(fold_lines(m0, head) == Ok::<PostMetaView, FmError>(m4));
}

/// The record after the optional date line.
pub open spec fn meta_after_date(m: PostMetaView) -> PostMetaView {
    PostMetaView { date: m.date, ..head_meta(m) }
}

/// The record after the optional date and next lines.
pub open spec fn meta_after_next(m: PostMetaView) -> PostMetaView {
    PostMetaView { next: m.next, ..meta_after_date(m) }
}

#[verifier::rlimit(100)]
#[verifier::spinoff_prover]
proof fn lemma_tail_date(m: PostMetaView)
    requires
        serializable(m),
    ensures
        fold_lines(
            head_meta(m),
            (match m.date {
                Some(d) => seq![ser_line(kw_date(), date_rep(d))],
                None => Seq::<Seq<u8>>::empty(),
            }) + lines_after_date(m),
        ) == fold_lines(meta_after_date(m), lines_after_date(m)),
{
    let m4 = head_meta(m);
    let m5 = meta_after_date(m);
    let rest = lines_after_date(m);
    match m.date {
        Some(d) => {
            lemma_date_rep(d);
            lemma_ser_line_shape(kw_date(), date_rep(d));
            let l = ser_line(kw_date(), date_rep(d));
            assert(kw_date()[1] == 97 && kw_title()[1] == 105);
            assert(kw_date() != kw_title() && kw_date() != kw_slug() && kw_date() != kw_draft());
            assert(apply_line(m4, l) == Ok::<PostMetaView, FmError>(m5));
            assert((seq![l] + rest)[0] == l);
            assert((seq![l] + rest).drop_first() =~= rest);
        },
        None => {
            assert(Seq::<Seq<u8>>::empty() + rest =~= rest);
            assert(m5 == m4);
        },
    }
}

#[verifier::rlimit(100)]
#[verifier::spinoff_prover]
proof fn lemma_tail_next(m: PostMetaView)
    requires
        serializable(m),
    ensures
        fold_lines(meta_after_date(m), lines_after_date(m)) == fold_lines(
            meta_after_next(m),
            lines_after_next(m),
        ),
{
    let m5 = meta_after_date(m);
    let m6 = meta_after_next(m);
    let rest = lines_after_next(m);
    match m.next {
        Some(v) => {
            lemma_ser_line_shape(kw_next(), v);
            let l = ser_line(kw_next(), v);
            assert(kw_next() != kw_title() && kw_next() != kw_slug() && kw_next() != kw_date());
            assert(kw_next()[0] == 110 && kw_draft()[0] == 100);
            assert(kw_next() != kw_draft());
            assert(apply_line(m5, l) == Ok::<PostMetaView, FmError>(m6));
            assert(lines_after_date(m) =~= seq![l] + rest);
            assert((seq![l] + rest)[0] == l);
            assert((seq![l] + rest).drop_first() =~= rest);
        },
        None => {
            assert(lines_after_date(m) =~= rest);
            assert(m6 == m5);
        },
    }
}

#[verifier::rlimit(100)]
#[verifier::spinoff_prover]
proof fn lemma_tail_title_meta(m: PostMetaView)
    requires
        serializable(m),
    ensures
        fold_lines(meta_after_next(m), lines_after_next(m)) == Ok::<PostMetaView, FmError>(m),
{
    let m6 = meta_after_next(m);
    let m7 = PostMetaView { title_meta: m.title_meta, ..m6 };
    assert(m7 == m);
    let tail3 = delim();
    match m.title_meta {
        Some(v) => {
            lemma_ser_line_shape(kw_title_meta(), v);
            let l = ser_line(kw_title_meta(), v);
            assert(kw_title_meta().len() == 10);
            assert(kw_title_meta() != kw_title() && kw_title_meta() != kw_slug());
            assert(kw_title_meta() != kw_draft() && kw_title_meta() != kw_date());
            assert(apply_line(m6, l) == Ok::<PostMetaView, FmError>(m7));
            assert(lines_after_next(m) =~= seq![l] + seq![tail3]);
            assert((seq![l] + seq![tail3])[0] == l);
            assert((seq![l] + seq![tail3]).drop_first() =~= seq![tail3]);
        },
        None => {
            assert(lines_after_next(m) =~= seq![tail3]);
            assert(m7 == m6);
        },
    }
    assert(apply_line(m7, tail3) == Ok::<PostMetaView, FmError>(m7));
    let nil2 = Seq::<Seq<u8>>::empty();
    assert(fold_lines(m7, nil2) == Ok::<PostMetaView, FmError>(m7));
    assert(seq![tail3].drop_first() =~= nil2);
    assert(fold_lines(m7, seq![tail3]) == Ok::<PostMetaView, FmError>(m7));
}

/// The serialized lines that follow the optional date line.
pub open spec fn lines_after_date(m: PostMetaView) -> Seq<Seq<u8>> {
    (match m.next {
        Some(v) => seq![ser_line(kw_next(), v)],
        None => Seq::<Seq<u8>>::empty(),
    }) + lines_after_next(m)
}

/// The serialized lines that follow the optional next line.
pub open spec fn lines_after_next(m: PostMetaView) -> Seq<Seq<u8>> {
    (match m.title_meta {
        Some(v) => seq![ser_line(kw_title_meta(), v)],
        None => Seq::<Seq<u8>>::empty(),
    }) + seq![delim()]
}

proof fn lemma_fold_tail(m: PostMetaView)
    requires
        serializable(m),
    ensures
        fold_lines(
            head_meta(m),
            (match m.date {
                Some(d) => seq![ser_line(kw_date(), date_rep(d))],
                None => Seq::<Seq<u8>>::empty(),
            }) + (match m.next {
                Some(v) => seq![ser_line(kw_next(), v)],
                None => Seq::<Seq<u8>>::empty(),
            }) + (match m.title_meta {
                Some(v) => seq![ser_line(kw_title_meta(), v)],
                None => Seq::<Seq<u8>>::empty(),
            }) + seq![delim()],
        ) == Ok::<PostMetaView, FmError>(m),
{
    let optdate = (match m.date {
        Some(d) => seq![ser_line(kw_date(), date_rep(d))],
        None => Seq::<Seq<u8>>::empty(),
    });
    lemma_tail_date(m);
    lemma_tail_next(m);
    lemma_tail_title_meta(m);
    assert(optdate + (match m.next {
        Some(v) => seq![ser_line(kw_next(), v)],
        None => Seq::<Seq<u8>>::empty(),
    }) + (match m.title_meta {
        Some(v) => seq![ser_line(kw_title_meta(), v)],
        None => Seq::<Seq<u8>>::empty(),
    }) + seq![delim()] =~= optdate + lines_after_date(m));
}

/// Parsing the serialized form of a record recovers the record exactly:
/// serialization of the recognized fields loses nothing.
#[verifier::rlimit(100)]
#[verifier::spinoff_prover]
pub proof fn lemma_serialize_parse_roundtrip(m: PostMetaView)
    requires
        serializable(m),
    ensures
        spec_parse_front_matter(spec_serialize(m)) == Ok::<PostMetaView, FmError>(m),
{
    lemma_serialize_split(m);
    let head = seq![
        delim(),
        ser_line(kw_title(), m.title),
        ser_line(kw_slug(), m.slug),
        ser_line(kw_description(), m.description),
        ser_line(
            kw_draft(),
            if m.draft {
                lit_true()
            } else {
                lit_false()
            },
        ),
    ];
    let tail = (match m.date {
        Some(d) => seq![ser_line(kw_date(), date_rep(d))],
        None => Seq::<Seq<u8>>::empty(),
    }) + (match m.next {
        Some(v) => seq![ser_line(kw_next(), v)],
        None => Seq::<Seq<u8>>::empty(),
    }) + (match m.title_meta {
        Some(v) => seq![ser_line(kw_title_meta(), v)],
        None => Seq::<Seq<u8>>::empty(),
    }) + seq![delim()];
    assert(ser_lines(m) =~= head + tail);
    lemma_fold_append_front(empty_meta(), head, tail);
    lemma_fold_head(m);
    lemma_fold_tail(m);
}

/// Folding a concatenation folds the front, then the rest.
proof fn lemma_fold_append_front(m: PostMetaView, a: Seq<Seq<u8>>, b: Seq<Seq<u8>>)
    ensures
        fold_lines(m, a + b) == match fold_lines(m, a) {
            Ok(m2) => fold_lines(m2, b),
            Err(e) => Err(e),
        },
    decreases a.len(),
{
    if a.len() == 0 {
        assert(a + b =~= b);
    } else {
        assert((a + b)[0] == a[0]);
        assert((a + b).drop_first() =~= a.drop_first() + b);
        match apply_line(m, a[0]) {
            Ok(m2) => {
                lemma_fold_append_front(m2, a.drop_first(), b);
            },
            Err(e) => {},
        }
    }
}

} // verus!

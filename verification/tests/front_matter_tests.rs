use sitegen::date::Date;
use sitegen::bytes::{parse_i32, parse_u32};
use sitegen::front_matter::{parse_front_matter, serialize_front_matter, FmError, PostMeta};

fn parse(s: &[u8]) -> Result<PostMeta, FmError> {
    parse_front_matter(&s.to_vec())
}

#[test]
fn parses_all_recognized_fields() {
    let block = b"---\ntitle: Hello World\nslug: hello\ndate: 5-3-2021\ndraft: true\nnext: other\ndescription: a post\ntitle_meta: Hello | Site\n---";
    let m = parse(block).unwrap();
    assert_eq!(m.title, b"Hello World".to_vec());
    assert_eq!(m.slug, b"hello".to_vec());
    assert_eq!(m.date, Some(Date { day: 5, month: 3, year: 2021 }));
    assert!(m.draft);
    assert_eq!(m.next, Some(b"other".to_vec()));
    assert_eq!(m.description, b"a post".to_vec());
    assert_eq!(m.title_meta, Some(b"Hello | Site".to_vec()));
}

#[test]
fn absent_fields_take_defaults() {
    let m = parse(b"---\ntitle: T\n---").unwrap();
    assert_eq!(m.slug, Vec::<u8>::new());
    assert_eq!(m.date, None);
    assert!(!m.draft);
    assert_eq!(m.next, None);
    assert_eq!(m.title_meta, None);
    assert_eq!(m.description, Vec::<u8>::new());
}

#[test]
fn unrecognized_keys_are_ignored() {
    let m = parse(b"---\ntitle: T\nauthor: someone\nwhatever: 3\n---").unwrap();
    assert_eq!(m.title, b"T".to_vec());
}

#[test]
fn draft_parses_by_exact_match_only() {
    assert!(parse(b"draft: true").unwrap().draft);
    assert!(!parse(b"draft: True").unwrap().draft);
    assert!(!parse(b"draft: 1").unwrap().draft);
}

#[test]
fn later_lines_win() {
    let m = parse(b"title: first\ntitle: second").unwrap();
    assert_eq!(m.title, b"second".to_vec());
}

#[test]
fn values_are_trimmed_and_may_hold_colons() {
    let m = parse(b"title:   spaced out  \nnext: a:b:c").unwrap();
    assert_eq!(m.title, b"spaced out".to_vec());
    assert_eq!(m.next, Some(b"a:b:c".to_vec()));
}

#[test]
fn line_without_colon_is_fatal() {
    assert_eq!(parse(b"title: x\nnonsense"), Err(FmError::NoColon));
}

#[test]
fn date_wrong_arity_is_fatal() {
    assert_eq!(parse(b"date: 1-2"), Err(FmError::DateArity));
}

#[test]
fn date_extra_parts_are_fatal() {
    assert_eq!(parse(b"date: 1-2-2023-9"), Err(FmError::DateArity));
}

#[test]
fn date_non_numeric_is_fatal() {
    assert_eq!(parse(b"date: x-2-2023"), Err(FmError::DateNumber));
    assert_eq!(parse(b"date: 1--2023"), Err(FmError::DateNumber));
}

#[test]
fn date_outside_calendar_is_fatal() {
    assert_eq!(parse(b"date: 30-2-2020"), Err(FmError::DateRange));
    assert_eq!(parse(b"date: 29-2-2020").unwrap().date, Some(Date { day: 29, month: 2, year: 2020 }));
    assert_eq!(parse(b"date: 29-2-2021"), Err(FmError::DateRange));
    assert_eq!(parse(b"date: 31-4-2021"), Err(FmError::DateRange));
    assert_eq!(parse(b"date: 0-1-2021"), Err(FmError::DateRange));
}

#[test]
fn serialize_then_parse_round_trips() {
    let m = PostMeta {
        date: Some(Date { day: 7, month: 12, year: 1999 }),
        draft: true,
        next: Some(b"other-post".to_vec()),
        slug: b"some-slug".to_vec(),
        title: b"A Title: with punctuation".to_vec(),
        description: b"words and more words".to_vec(),
        title_meta: None,
    };
    let block = serialize_front_matter(&m);
    let back = parse_front_matter(&block).unwrap();
    assert_eq!(back.date, m.date);
    assert_eq!(back.draft, m.draft);
    assert_eq!(back.next, m.next);
    assert_eq!(back.slug, m.slug);
    assert_eq!(back.title, m.title);
    assert_eq!(back.description, m.description);
    assert_eq!(back.title_meta, m.title_meta);
}

#[test]
fn numeric_parsing_matches_standard_rules() {
    assert_eq!(parse_u32(&b"042".to_vec()), Some(42));
    assert_eq!(parse_u32(&b"+5".to_vec()), Some(5));
    assert_eq!(parse_u32(&b"".to_vec()), None);
    assert_eq!(parse_u32(&b"4294967295".to_vec()), Some(u32::MAX));
    assert_eq!(parse_u32(&b"4294967296".to_vec()), None);
    assert_eq!(parse_u32(&b"12a".to_vec()), None);
    assert_eq!(parse_i32(&b"-17".to_vec()), Some(-17));
    assert_eq!(parse_i32(&b"-2147483648".to_vec()), Some(i32::MIN));
    assert_eq!(parse_i32(&b"2147483648".to_vec()), None);
}

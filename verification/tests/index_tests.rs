use sitegen::assets::{check_md_name, check_scss_name};
use sitegen::date::Date;
use sitegen::watch::should_rebuild;
use sitegen::front_matter::PostMeta;
use sitegen::index::{IndexError, PostIndex};
use sitegen::post::Post;

fn post(slug: &[u8], day: u32, month: u32, year: i32) -> Post {
    Post {
        meta: Some(PostMeta {
            date: Some(Date { day, month, year }),
            draft: false,
            next: None,
            slug: slug.to_vec(),
            title: {
                let mut t = b"title of ".to_vec();
                t.extend_from_slice(slug);
                t
            },
            description: Vec::new(),
            title_meta: None,
        }),
        raw_content: b"<p>body</p>".to_vec(),
    }
}

fn slug_at(ix: &PostIndex, i: usize) -> Vec<u8> {
    ix.posts[i].meta.as_ref().unwrap().slug.clone()
}

#[test]
fn posts_sort_by_date_descending() {
    let posts = vec![
        post(b"a", 1, 1, 2023),
        post(b"c", 1, 3, 2023),
        post(b"b", 1, 2, 2023),
    ];
    let ix = PostIndex::new(posts).unwrap();
    assert_eq!(slug_at(&ix, 0), b"c".to_vec());
    assert_eq!(slug_at(&ix, 1), b"b".to_vec());
    assert_eq!(slug_at(&ix, 2), b"a".to_vec());
}

#[test]
fn equal_dates_keep_input_order() {
    let posts = vec![post(b"x", 1, 1, 2023), post(b"y", 1, 1, 2023)];
    let ix = PostIndex::new(posts).unwrap();
    assert_eq!(slug_at(&ix, 0), b"x".to_vec());
    assert_eq!(slug_at(&ix, 1), b"y".to_vec());
}

#[test]
fn missing_meta_is_refused() {
    let posts = vec![Post { meta: None, raw_content: Vec::new() }];
    assert!(matches!(PostIndex::new(posts), Err(IndexError::MissingMeta)));
}

#[test]
fn missing_date_is_refused() {
    let mut p = post(b"a", 1, 1, 2023);
    p.meta.as_mut().unwrap().date = None;
    assert!(matches!(PostIndex::new(vec![p]), Err(IndexError::MissingDate)));
}

#[test]
fn duplicate_slugs_are_refused() {
    let posts = vec![post(b"a", 1, 1, 2023), post(b"a", 2, 1, 2023)];
    assert!(matches!(PostIndex::new(posts), Err(IndexError::DuplicateSlug)));
}

#[test]
fn related_posts_window_of_three() {
    // three posts: at position 0 the window is the whole collection
    let posts = vec![
        post(b"a", 1, 1, 2023),
        post(b"b", 1, 2, 2023),
        post(b"c", 1, 3, 2023),
    ];
    let ix = PostIndex::new(posts).unwrap();
    let related = ix.get_related_posts(0);
    let slugs: Vec<Vec<u8>> = related.iter().map(|p| p.meta.as_ref().unwrap().slug.clone()).collect();
    assert_eq!(slugs, vec![b"c".to_vec(), b"b".to_vec(), b"a".to_vec()]);
}

#[test]
fn related_posts_window_caps_at_six() {
    let mut posts = Vec::new();
    for d in 1..=10u32 {
        posts.push(post(format!("p{}", d).as_bytes(), d, 1, 2023));
    }
    let ix = PostIndex::new(posts).unwrap();
    assert_eq!(ix.get_related_posts(0).len(), 6);
    // window always includes the cursor and starts at most three back
    let related = ix.get_related_posts(9);
    let slugs: Vec<Vec<u8>> = related.iter().map(|p| p.meta.as_ref().unwrap().slug.clone()).collect();
    assert_eq!(slugs.len(), 4);
    assert_eq!(slugs[3], b"p1".to_vec());
}

#[test]
fn find_by_slug_finds_first_match() {
    let posts = vec![post(b"a", 1, 1, 2023), post(b"b", 1, 2, 2023)];
    let ix = PostIndex::new(posts).unwrap();
    assert_eq!(ix.find_by_slug(&b"a".to_vec()), Some(1));
    assert_eq!(ix.find_by_slug(&b"b".to_vec()), Some(0));
    assert_eq!(ix.find_by_slug(&b"zzz".to_vec()), None);
}

#[test]
fn watch_filter_accepts_sources_and_rejects_output() {
    assert!(should_rebuild(&b"posts/hello.md".to_vec()));
    assert!(should_rebuild(&b"layouts/main.liquid".to_vec()));
    assert!(should_rebuild(&b"assets/style.scss".to_vec()));
    // a source file that merely mentions the output root still triggers
    assert!(should_rebuild(&b"assets/docs.png".to_vec()));
    // inside the output tree: never triggers, even under a posts/ subdirectory
    assert!(!should_rebuild(&b"docs/posts/hello.html".to_vec()));
    assert!(!should_rebuild(&b"docs/index.html".to_vec()));
    // only paths under the source trees themselves count
    assert!(!should_rebuild(&b"notes/posts/hello.md".to_vec()));
    assert!(!should_rebuild(&b"README.md".to_vec()));
}

#[test]
fn markdown_names_match_anywhere_past_the_first_byte() {
    assert!(check_md_name(&b"post.md".to_vec()));
    assert!(check_md_name(&b"a.md.txt".to_vec()));
    assert!(!check_md_name(&b".md".to_vec()));
    assert!(!check_md_name(&b"post.txt".to_vec()));
}

#[test]
fn style_names_match_by_extension() {
    assert!(check_scss_name(&b"style.scss".to_vec()));
    assert!(check_scss_name(&b"a.b.scss".to_vec()));
    assert!(!check_scss_name(&b".scss".to_vec()));
    assert!(!check_scss_name(&b"style.css".to_vec()));
    assert!(!check_scss_name(&b"style.scss.txt".to_vec()));
}

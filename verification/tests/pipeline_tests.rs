use sitegen::assets::AssetFile;
use sitegen::compose::ComposeError;
use sitegen::experiments::{assemble_experiment, ExperimentInput, ExperimentMeta};
use sitegen::loader::{load_post, SourceFile};
use sitegen::pipeline::{run, BuildError, SourceInput};

fn post_file(name: &[u8], text: &[u8]) -> SourceFile {
    SourceFile { name: name.to_vec(), data: text.to_vec() }
}

fn experiment(dir: &[u8], assets: Vec<&[u8]>, asset_data: Vec<&[u8]>) -> ExperimentInput {
    ExperimentInput {
        dir_name: dir.to_vec(),
        meta: ExperimentMeta {
            title: b"An Experiment".to_vec(),
            slug: dir.to_vec(),
            description: b"demo".to_vec(),
            assets: assets.into_iter().map(|a| a.to_vec()).collect(),
            styles: vec![b"style.css".to_vec()],
            scripts: Vec::new(),
            prepack: None,
        },
        index_html: b"<html><body><main><p>demo</p></main></body></html>".to_vec(),
        readme: b"# Notes\n".to_vec(),
        asset_data: asset_data.into_iter().map(|d| d.to_vec()).collect(),
    }
}

fn sample_input() -> SourceInput {
    SourceInput {
        posts: vec![
            post_file(b"a.md", b"---\ntitle: Post A\nslug: a\ndate: 1-1-2023\nnext: b\n---\n# A body\n"),
            post_file(b"b.md", b"---\ntitle: Post B\nslug: b\ndate: 1-2-2023\n---\nplain text\n"),
            post_file(b"c.md", b"---\ntitle: Post C\nslug: c\ndate: 1-3-2023\n---\nmore text\n"),
            post_file(b"notes.txt", b"not a post"),
        ],
        experiments: vec![experiment(b"demo", vec![b"style.css"], vec![b"body{}"])],
        home_layout: b"HOME[{% for post in posts %}{{ post.meta.slug }},{% endfor %}]".to_vec(),
        post_layout: b"POST {{ title }}|{{ slug }}|{% if next_post %}next={{ next_post.title }}{% endif %}|{{ content }}".to_vec(),
        experiment_layout: b"EXP {{ title }}:{{ experiment_markup }}".to_vec(),
        main_layout: b"<<{{ title }}//{{ path }}//{{ content }}>>".to_vec(),
        assets: vec![
            AssetFile { sub_folder: b"".to_vec(), name: b"site.scss".to_vec(), data: b"p { color: red; }".to_vec() },
            AssetFile { sub_folder: b"".to_vec(), name: b"site.v2.scss".to_vec(), data: b"a { color: blue; }".to_vec() },
            AssetFile { sub_folder: b"/img".to_vec(), name: b"logo.txt".to_vec(), data: b"LOGO".to_vec() },
        ],
    }
}

fn find<'a>(out: &'a [sitegen::output::OutputFile], path: &[u8]) -> &'a sitegen::output::OutputFile {
    out.iter()
        .find(|f| f.path == path.to_vec())
        .unwrap_or_else(|| panic!("missing output {}", String::from_utf8_lossy(path)))
}

#[test]
fn full_build_produces_the_expected_tree() {
    let out = run(&sample_input()).unwrap();
    // home page: posts sorted newest first
    let home = find(&out, b"docs/index.html");
    let home_text = String::from_utf8(home.data.clone()).unwrap();
    assert!(home_text.contains("HOME[c,b,a,]"), "got {}", home_text);
    assert!(home_text.contains("<<Welcome//"));
    // one page per post, keyed by slug
    find(&out, b"docs/posts/a.html");
    find(&out, b"docs/posts/b.html");
    find(&out, b"docs/posts/c.html");
    // the non-markdown file produced nothing
    assert!(out.iter().all(|f| !f.path.ends_with(b"notes.html")));
    // experiment page and its copied asset
    find(&out, b"docs/experiments/demo/index.html");
    let copied = find(&out, b"docs/experiments/demo/style.css");
    assert_eq!(copied.data, b"body{}".to_vec());
    // static assets: scss compiled to css, everything else verbatim
    let css = find(&out, b"docs/static//site.css");
    assert!(String::from_utf8(css.data.clone()).unwrap().contains("color: red"));
    // only the extension is replaced: inner dots stay in the name
    let css2 = find(&out, b"docs/static//site.v2.css");
    assert!(String::from_utf8(css2.data.clone()).unwrap().contains("color: blue"));
    let logo = find(&out, b"docs/static//img/logo.txt");
    assert_eq!(logo.data, b"LOGO".to_vec());
}

#[test]
fn next_reference_embeds_the_target_post() {
    let out = run(&sample_input()).unwrap();
    let page_a = find(&out, b"docs/posts/a.html");
    let text = String::from_utf8(page_a.data.clone()).unwrap();
    // post `a` says `next: b`, so its page embeds post b's title
    assert!(text.contains("next=Post B"), "got {}", text);
    assert!(text.contains("/posts/a.html"));
    // markdown body went through the markdown engine
    let text_c = String::from_utf8(find(&out, b"docs/posts/c.html").data.clone()).unwrap();
    assert!(text_c.contains("<p>more text</p>"));
}

#[test]
fn broken_next_reference_fails_the_build() {
    let mut input = sample_input();
    input.posts[0] = post_file(b"a.md", b"---\ntitle: A\nslug: a\ndate: 1-1-2023\nnext: nothing\n---\nbody");
    assert!(matches!(run(&input), Err(BuildError::Compose(ComposeError::BrokenNextRef))));
}

#[test]
fn running_twice_yields_identical_output() {
    // these templates and styles read neither the clock nor the disk, so
    // two runs against the same source state agree byte for byte
    let out1 = run(&sample_input()).unwrap();
    let out2 = run(&sample_input()).unwrap();
    assert_eq!(out1.len(), out2.len());
    for (a, b) in out1.iter().zip(out2.iter()) {
        assert_eq!(a.path, b.path);
        assert_eq!(a.data, b.data);
    }
}

#[test]
fn failing_style_compile_aborts_the_run() {
    let mut input = sample_input();
    input.assets.push(AssetFile {
        sub_folder: b"".to_vec(),
        name: b"bad.scss".to_vec(),
        data: b"p { color:".to_vec(),
    });
    assert!(matches!(run(&input), Err(BuildError::Asset(_))));
}

#[test]
fn experiment_without_main_fails_the_build() {
    let mut input = sample_input();
    input.experiments[0].index_html = b"<html><body><p>no main</p></body></html>".to_vec();
    assert!(matches!(run(&input), Err(BuildError::Experiment(_))));
}

#[test]
fn loader_handles_markdown_and_front_matter() {
    let p = load_post(&b"---\ntitle: T\nslug: s\ndate: 2-2-2022\n---\n# Head\n".to_vec()).unwrap();
    let meta = p.meta.unwrap();
    assert_eq!(meta.slug, b"s".to_vec());
    assert!(String::from_utf8(p.raw_content).unwrap().contains("<h1>Head</h1>"));
    // an unterminated block is not front matter
    let p2 = load_post(&b"---\ntitle: T\nno closing".to_vec()).unwrap();
    assert!(p2.meta.is_none());
    // a file without a leading delimiter has no front matter
    let p3 = load_post(&b"just text".to_vec()).unwrap();
    assert!(p3.meta.is_none());
}

#[test]
fn experiment_markup_is_the_first_main_subtree() {
    let e = assemble_experiment(&experiment(b"demo", vec![], vec![])).unwrap();
    let markup = String::from_utf8(e.experiment_markup).unwrap();
    assert_eq!(markup, "<main><p>demo</p></main>");
    assert!(String::from_utf8(e.notes).unwrap().contains("<h1>Notes</h1>"));
    // declared asset paths are rewritten relative to the source root
    let e2 = assemble_experiment(&experiment(b"demo", vec![b"style.css"], vec![b"x"])).unwrap();
    assert_eq!(e2.meta.assets[0], b"experiments/demo/style.css".to_vec());
}

use vstd::prelude::*;

verus! {

// The collaborators this pipeline builds on: the markdown engine, the HTML
// fragment selector, the calendar formatter, the style compiler and the
// template engine.  Where a call is deterministic in its arguments (the
// markdown engine, the fragment selector, the calendar), its result
// carries a name below and the wrapper's contract ties the call to that
// name.  The style compiler can read the disk and the template engine can
// reach the clock, so their wrappers promise nothing of what comes back;
// the callers state what holds of every outcome.  Everything around these
// calls is verified.

/// The HTML the markdown engine renders for this text (front matter
/// stripped, tables on, raw HTML passed through).
pub uninterp spec fn md_html_of(md: Seq<u8>) -> Seq<u8>;

/// The subtree of the first `<main>` element of this document, if any.
pub uninterp spec fn main_fragment_of(html: Seq<u8>) -> Option<Seq<u8>>;

/// The display form of this day-month-year triple; empty when the calendar
/// collaborator knows no such date.
pub uninterp spec fn formatted_date_of(day: int, month: int, year: int) -> Seq<u8>;

/// Seconds since the epoch at midnight (UTC) of this day-month-year
/// triple; zero when the calendar collaborator knows no such date.
pub uninterp spec fn epoch_seconds_of(day: int, month: int, year: int) -> int;

/// Relies on comrak::markdown_to_html with the front-matter delimiter set
/// to `---`, the table extension on and raw-HTML passthrough (`unsafe_`)
/// on: the HTML depends on the text alone.
#[verifier::external_body]
pub fn markdown_to_html(md: &Vec<u8>) -> (r: Vec<u8>)
    ensures
        r@ == md_html_of(md@),
{
    let mut options = comrak::Options::default();
    options.extension.front_matter_delimiter = Some(String::from("---"));
    options.extension.table = true;
    options.render.unsafe_ = true;
    let text = String::from_utf8_lossy(md).into_owned();
    comrak::markdown_to_html(text.as_str(), &options).into_bytes()
}

/// Relies on scraper's Html::parse_document, Selector::parse("main") and
/// ElementRef::html: the first `<main>` subtree depends on the text alone.
#[verifier::external_body]
pub fn extract_main(html: &Vec<u8>) -> (r: Option<Vec<u8>>)
    ensures
        match r {
            Some(v) => main_fragment_of(html@) == Some(v@),
            None => main_fragment_of(html@) is None,
        },
{
    let text = String::from_utf8_lossy(html).into_owned();
    let doc = scraper::Html::parse_document(text.as_str());
    let sel = match scraper::Selector::parse("main") {
        Ok(s) => s,
        Err(_) => return None,
    };
    match doc.select(&sel).next() {
        Some(el) => Some(el.html().into_bytes()),
        None => None,
    }
}

/// Relies on chrono's NaiveDate::from_ymd_opt and `%d %B %G` formatting:
/// the text depends on the numbers alone.
#[verifier::external_body]
pub fn format_date(day: u32, month: u32, year: i32) -> (r: Vec<u8>)
    ensures
        r@ == formatted_date_of(day as int, month as int, year as int),
{
    match chrono::NaiveDate::from_ymd_opt(year, month, day) {
        Some(d) => format!("{}", d.format("%d %B %G")).into_bytes(),
        None => Vec::new(),
    }
}

/// Relies on chrono's NaiveDate::from_ymd_opt, and_hms_opt and timestamp:
/// the number depends on the date alone.
#[verifier::external_body]
pub fn epoch_seconds(day: u32, month: u32, year: i32) -> (r: i64)
    ensures
        r as int == epoch_seconds_of(day as int, month as int, year as int),
{
    match chrono::NaiveDate::from_ymd_opt(year, month, day) {
        Some(d) => match d.and_hms_opt(0, 0, 0) {
            Some(dt) => dt.and_utc().timestamp(),
            None => 0,
        },
        None => 0,
    }
}

#[verifier::external_type_specification]
#[verifier::external_body]
pub struct ExRsassError(rsass::Error);

/// Relies on rsass::compile_scss with the default output format.  The
/// compiler resolves `@use`/`@import` against the current directory, so
/// the result may depend on what is on disk: nothing is assumed of the
/// CSS that comes back, and the callers state what holds whatever it is.
#[verifier::external_body]
pub fn compile_scss(scss: &Vec<u8>) -> Result<Vec<u8>, rsass::Error> {
    rsass::compile_scss(scss.as_slice(), rsass::output::Format::default())
}

#[verifier::external_type_specification]
#[verifier::external_body]
pub struct ExLiquidError(liquid::Error);

/// Relies on liquid's ParserBuilder::with_stdlib, Parser::parse and
/// Template::render, with the context object read from JSON by
/// serde_json::from_slice.  A template can reach the clock through the
/// standard `date` filter, and iterating an object visits hash order, so
/// the page may differ between calls on the same arguments: nothing is
/// assumed of the bytes that come back, and the callers state what holds
/// whatever they are.
#[verifier::external_body]
pub fn render_template(template: &Vec<u8>, ctx_json: &Vec<u8>) -> Result<Vec<u8>, liquid::Error> {
    let globals: liquid::Object = match serde_json::from_slice(ctx_json.as_slice()) {
        Ok(o) => o,
        Err(e) => return Err(liquid::Error::with_msg(e.to_string())),
    };
    let text = String::from_utf8_lossy(template).into_owned();
    let parser = liquid::ParserBuilder::with_stdlib().build()?;
    let tpl = parser.parse(text.as_str())?;
    Ok(tpl.render(&globals)?.into_bytes())
}

} // verus!

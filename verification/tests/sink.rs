use comfy_table::Table;
use wurst_deps::driver::Outlook;
use wurst_deps::extract::extract;
use wurst_deps::model::{Backend, Fatal, Options, ResultNode, Row};
use wurst_deps::sink::{
    header_line, render_line, render_stars, render_table, Sink, COLUMN_SEPARATOR,
    DESCRIPTION_TITLE, STARS_TITLE, TABLE_STYLE, URL_TITLE, URL_WIDTH,
};
use wurst_deps::text::insert_newlines;

fn record(stars: Option<u64>) -> ResultNode {
    ResultNode {
        url: Some(String::from("/a/b")),
        description: Some(String::from("Some lib")),
        stars,
        archived: None,
        tags: Vec::new(),
        context: String::from("a/b"),
    }
}

fn row(url: &str, stars: Option<u64>, description: &str) -> Row {
    Row { url: String::from(url), stars, description: String::from(description) }
}

const LONG: &str =
    "A library that wraps several native functions in one convenient package for maps";

/// The table as `comfy_table` draws it when it is built step by step.
fn drawn_step_by_step(rows: &[Row]) -> String {
    let mut table = Table::new();
    table.set_header(vec!["Stars", "URL", "Description"]);
    for r in rows {
        let stars = match r.stars {
            Some(n) => n.to_string(),
            None => String::new(),
        };
        table.add_row(vec![stars, r.url.clone(), insert_newlines(&r.description, 60)]);
    }
    table.load_preset(comfy_table::presets::UTF8_FULL_CONDENSED);
    table.remove_style(comfy_table::TableComponent::HorizontalLines);
    table.remove_style(comfy_table::TableComponent::MiddleIntersections);
    format!("{table}")
}

#[test]
fn titles_widths_and_separator() {
    assert_eq!(STARS_TITLE, "Stars");
    assert_eq!(URL_TITLE, "URL");
    assert_eq!(DESCRIPTION_TITLE, "Description");
    assert_eq!(URL_WIDTH, 60);
    assert_eq!(COLUMN_SEPARATOR, '\t');
}

#[test]
fn table_style_is_the_condensed_preset() {
    assert_eq!(TABLE_STYLE, comfy_table::presets::UTF8_FULL_CONDENSED);
    assert_eq!(TABLE_STYLE.chars().count(), 19);
}

#[test]
fn stars_are_written_in_decimal() {
    assert_eq!(render_stars(Some(0)), "0");
    assert_eq!(render_stars(Some(1234)), "1234");
}

#[test]
fn row_of_a_listing_has_an_empty_star_column() {
    assert_eq!(render_stars(None), "");
    let found = extract(&record(None), Backend::TopicListing).unwrap();
    assert_eq!(render_line(&found), format!("\t{:60}\tSome lib", "https://github.com/a/b"));
}

#[test]
fn record_of_the_search_api_without_star_count_is_written_with_zero() {
    let found = extract(&record(None), Backend::SearchApi).unwrap();
    assert_eq!(
        render_line(&found),
        format!("{}\t{:60}\t{}", 0, "https://github.com/a/b", "Some lib")
    );
    let out = render_table(&vec![found]);
    assert!(out.contains("\u{2502} 0     \u{2506} https://github.com/a/b \u{2506} Some lib    \u{2502}"));
}

#[test]
fn record_of_the_search_api_is_written_with_its_star_count() {
    let found = extract(&record(Some(42)), Backend::SearchApi).unwrap();
    assert_eq!(
        render_line(&found),
        format!("{}\t{:60}\t{}", 42, "https://github.com/a/b", "Some lib")
    );
}

#[test]
fn header_line_has_the_padded_url_title() {
    assert_eq!(header_line(), format!("Stars\t{:60}\tDescription", "URL"));
}

#[test]
fn line_of_a_row_with_a_short_description() {
    let r = row("https://github.com/a/b", Some(17), "Some lib");
    assert_eq!(
        render_line(&r),
        format!("{}\t{:60}\t{}", 17, "https://github.com/a/b", "Some lib")
    );
}

#[test]
fn line_of_a_row_with_a_long_description_is_cut() {
    let r = row("https://github.com/a/b", Some(3), LONG);
    assert_eq!(
        render_line(&r),
        format!(
            "3\t{:60}\tA library that wraps several native functions in one conven\u{2026}",
            "https://github.com/a/b"
        )
    );
}

#[test]
fn line_of_a_row_with_a_long_address_is_not_cut() {
    let url = format!("https://github.com/{}", "a".repeat(70));
    let r = row(&url, Some(1), "d");
    assert_eq!(render_line(&r), format!("1\t{}\td", url));
}

#[test]
fn line_of_a_row_from_a_listing_starts_with_the_separator() {
    let r = row("u", None, "d");
    assert_eq!(render_line(&r), format!("\t{:60}\td", "u"));
}

#[test]
fn table_of_one_row() {
    let rows = vec![row("https://github.com/a/b", Some(5), "Some lib")];
    let expected = [
        "\u{250c}\u{2500}\u{2500}\u{2500}\u{2500}\u{2500}\u{2500}\u{2500}\u{252c}\u{2500}\u{2500}\u{2500}\u{2500}\u{2500}\u{2500}\u{2500}\u{2500}\u{2500}\u{2500}\u{2500}\u{2500}\u{2500}\u{2500}\u{2500}\u{2500}\u{2500}\u{2500}\u{2500}\u{2500}\u{2500}\u{2500}\u{2500}\u{2500}\u{252c}\u{2500}\u{2500}\u{2500}\u{2500}\u{2500}\u{2500}\u{2500}\u{2500}\u{2500}\u{2500}\u{2500}\u{2500}\u{2500}\u{2510}",
        "\u{2502} Stars \u{2506} URL                    \u{2506} Description \u{2502}",
        "\u{255e}\u{2550}\u{2550}\u{2550}\u{2550}\u{2550}\u{2550}\u{2550}\u{256a}\u{2550}\u{2550}\u{2550}\u{2550}\u{2550}\u{2550}\u{2550}\u{2550}\u{2550}\u{2550}\u{2550}\u{2550}\u{2550}\u{2550}\u{2550}\u{2550}\u{2550}\u{2550}\u{2550}\u{2550}\u{2550}\u{2550}\u{2550}\u{2550}\u{256a}\u{2550}\u{2550}\u{2550}\u{2550}\u{2550}\u{2550}\u{2550}\u{2550}\u{2550}\u{2550}\u{2550}\u{2550}\u{2550}\u{2561}",
        "\u{2502} 5     \u{2506} https://github.com/a/b \u{2506} Some lib    \u{2502}",
        "\u{2514}\u{2500}\u{2500}\u{2500}\u{2500}\u{2500}\u{2500}\u{2500}\u{2534}\u{2500}\u{2500}\u{2500}\u{2500}\u{2500}\u{2500}\u{2500}\u{2500}\u{2500}\u{2500}\u{2500}\u{2500}\u{2500}\u{2500}\u{2500}\u{2500}\u{2500}\u{2500}\u{2500}\u{2500}\u{2500}\u{2500}\u{2500}\u{2500}\u{2534}\u{2500}\u{2500}\u{2500}\u{2500}\u{2500}\u{2500}\u{2500}\u{2500}\u{2500}\u{2500}\u{2500}\u{2500}\u{2500}\u{2518}",
    ]
    .join("\n");
    assert_eq!(render_table(&rows), expected);
}

#[test]
fn table_is_what_comfy_table_draws_step_by_step() {
    let rows = vec![
        row("https://github.com/a/b", Some(120), LONG),
        row("https://github.com/c/d", Some(7), "(No description)"),
        row("https://github.com/e/f", None, ""),
    ];
    assert_eq!(render_table(&rows), drawn_step_by_step(&rows));
}

#[test]
fn table_wraps_a_long_description_over_two_lines() {
    let rows = vec![row("u", Some(1), LONG)];
    let out = render_table(&rows);
    let lines: Vec<&str> = out.split('\n').collect();
    assert_eq!(lines.len(), 6);
    assert!(lines[3].contains("in one convenient "));
    assert!(lines[4].contains("package for maps"));
}

#[test]
fn table_without_rows_has_the_titles_only() {
    let rows: Vec<Row> = Vec::new();
    let out = render_table(&rows);
    assert_eq!(out, drawn_step_by_step(&rows));
    assert_eq!(out.split('\n').count(), 4);
    assert!(out.contains("Stars"));
}

#[test]
fn table_is_not_its_input() {
    let rows = vec![row("u", Some(1), "d")];
    let out = render_table(&rows);
    assert_ne!(out, TABLE_STYLE);
    assert_ne!(out, "u");
    assert!(out.contains("\u{2506} u "));
}

#[test]
fn sink_writes_a_line_for_each_row_as_it_comes() {
    let mut sink = Sink::new(&Options { include_archived: false, table_output: false });
    assert_eq!(sink.open(), Some(format!("Stars\t{:60}\tDescription", "URL")));
    let a = row("https://github.com/a/b", Some(2), "first");
    let b = row("https://github.com/c/d", Some(1), "second");
    assert_eq!(sink.emit(a.clone()), Some(render_line(&a)));
    assert_eq!(sink.emit(b.clone()), Some(render_line(&b)));
    assert_eq!(sink.close(), None);
}

#[test]
fn sink_gathers_rows_into_one_table() {
    let mut sink = Sink::new(&Options { include_archived: false, table_output: true });
    assert_eq!(sink.open(), None);
    let a = row("https://github.com/a/b", Some(2), "first");
    let b = row("https://github.com/c/d", Some(1), "second");
    assert_eq!(sink.emit(a.clone()), None);
    assert_eq!(sink.emit(b.clone()), None);
    assert_eq!(sink.close(), Some(render_table(&vec![a, b])));
}

#[test]
fn sink_keeps_rows_in_call_order_and_drops_none() {
    let mut sink = Sink::new(&Options { include_archived: true, table_output: true });
    let a = row("b", Some(1), "x");
    let b = row("a", Some(9), "y");
    sink.emit(a.clone());
    sink.emit(b.clone());
    sink.emit(a.clone());
    assert_eq!(sink.close(), Some(drawn_step_by_step(&[a.clone(), b, a])));
}

#[test]
fn finished_run_writes_the_table() {
    let mut sink = Sink::new(&Options { include_archived: false, table_output: true });
    let a = row("https://github.com/a/b", Some(2), "first");
    sink.emit(a.clone());
    assert_eq!(sink.finish(&Outlook::Exhausted), Some(render_table(&vec![a])));
}

#[test]
fn failed_run_writes_no_table() {
    let mut sink = Sink::new(&Options { include_archived: false, table_output: true });
    sink.emit(row("https://github.com/a/b", Some(2), "first"));
    assert_eq!(sink.finish(&Outlook::Failed(Fatal::Transport(String::from("timed out")))), None);
    assert_eq!(sink.finish(&Outlook::More), None);
}

#[test]
fn run_that_wrote_lines_writes_nothing_at_its_end() {
    let mut sink = Sink::new(&Options { include_archived: false, table_output: false });
    sink.emit(row("https://github.com/a/b", Some(2), "first"));
    assert_eq!(sink.finish(&Outlook::Exhausted), None);
    assert_eq!(sink.finish(&Outlook::Failed(Fatal::Transport(String::from("timed out")))), None);
}

#[test]
fn empty_finished_run_writes_the_titles() {
    let sink = Sink::new(&Options { include_archived: false, table_output: true });
    assert_eq!(sink.finish(&Outlook::Exhausted), Some(render_table(&Vec::new())));
}

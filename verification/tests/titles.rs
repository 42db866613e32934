use tfa_protector_bot::date::Date;
use tfa_protector_bot::resolve::{
    first_bold_link, override_page_name, reconcile_targets, resolve_override, tfa_page_name,
    PageFetch, TitleStep,
};
use tfa_protector_bot::text::{date_heading, trim};

fn d(year: u32, month: u32, day: u32) -> Date {
    Date { year, month, day }
}

#[test]
fn date_headings() {
    assert_eq!(date_heading(d(2020, 2, 29)), "February 29, 2020");
    assert_eq!(date_heading(d(2024, 6, 2)), "June 2, 2024");
    assert_eq!(date_heading(d(999, 12, 1)), "December 1, 0999");
}

#[test]
fn per_day_page_names() {
    assert_eq!(
        override_page_name(d(2020, 2, 29)),
        "Template:TFA title/February 29, 2020"
    );
    assert_eq!(
        tfa_page_name(d(2020, 2, 5)),
        "Wikipedia:Today's featured article/February 5, 2020"
    );
}

#[test]
fn trims_whitespace() {
    assert_eq!(trim(" Albert Einstein \n"), "Albert Einstein");
    assert_eq!(trim("unchanged"), "unchanged");
    assert_eq!(trim(" \t\r\n "), "");
    assert_eq!(trim(""), "");
}

#[test]
fn override_content_settles_the_title() {
    let step = resolve_override(PageFetch::Content(" Zoo TV Tour \n".to_string()));
    match step {
        TitleStep::Resolved(t) => assert_eq!(t, "Zoo TV Tour"),
        _ => panic!("the override content must resolve the title"),
    }
}

#[test]
fn missing_override_falls_through() {
    assert!(matches!(
        resolve_override(PageFetch::Missing),
        TitleStep::TryExtract
    ));
}

#[test]
fn other_read_failures_propagate() {
    let step = resolve_override(PageFetch::FetchError("rate limited".to_string()));
    match step {
        TitleStep::Failed(m) => assert_eq!(m, "rate limited"),
        _ => panic!("a non-missing failure must not fall through"),
    }
}

#[test]
fn first_bold_link_picks_document_order() {
    let bolds = vec![
        vec![],
        vec!["SMS Zähringen".to_string(), "Second".to_string()],
        vec!["Later".to_string()],
    ];
    assert_eq!(first_bold_link(&bolds), Some("SMS Zähringen".to_string()));
}

#[test]
fn no_bold_link_found() {
    assert_eq!(first_bold_link(&vec![]), None);
    assert_eq!(first_bold_link(&vec![vec![], vec![]]), None);
}

#[test]
fn redirect_fans_out_to_both_pages() {
    let targets = reconcile_targets("A".to_string(), Some("B".to_string()));
    assert_eq!(
        targets,
        vec![("A".to_string(), true), ("B".to_string(), false)]
    );
}

#[test]
fn plain_title_reconciled_alone() {
    let targets = reconcile_targets("A".to_string(), None);
    assert_eq!(targets, vec![("A".to_string(), false)]);
}

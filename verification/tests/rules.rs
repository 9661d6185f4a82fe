use proof_reader::dom::{Attr, Doc, Elem};
use proof_reader::error::CheckError;
use proof_reader::rules::{check_document, check_for_forbidden_files,
    check_for_invalid_publish_dates, check_forbidden_tags, check_html_file,
    check_img_tags_have_alts, check_page_doesnt_disabe_zoom, check_page_doesnt_have_autofocus,
    check_page_doesnt_have_autoplay_media, check_page_doesnt_have_captionless_figure,
    check_page_doesnt_have_captionless_table, check_page_doesnt_have_hrefless_link,
    check_page_doesnt_have_labelless_form_elements, check_page_doesnt_have_multiple_h1_elements,
    check_page_doesnt_have_positive_tabindex, check_page_has_lang_attr, check_page_has_title,
    check_tags_dont_have_title_attr};
use scraper::{ElementRef, Html};

fn push_elem(el: ElementRef<'_>, parent: Option<usize>, elems: &mut Vec<Elem>) {
    let idx = elems.len();
    let v = el.value();
    let attrs = v
        .attrs()
        .map(|(name, value)| Attr { name: name.to_string(), value: value.to_string() })
        .collect();
    let classes = v.classes().map(|c| c.to_string()).collect();
    let text: String = el.text().collect::<Vec<_>>().join("");
    elems.push(Elem {
        tag: v.name().to_string(),
        attrs,
        classes,
        parent,
        text,
        markup: el.html(),
    });
    for child in el.child_elements() {
        push_elem(child, Some(idx), elems);
    }
}

fn convert(html: &Html) -> Doc {
    let mut elems = Vec::new();
    push_elem(html.root_element(), None, &mut elems);
    let doc = Doc { elems };
    assert!(doc.check_wf());
    doc
}

fn parse(contents: &str) -> Doc {
    convert(&Html::parse_document(contents))
}

fn setup_test_wip_page() -> Doc {
    let wip_page_contents = r#"
        <!DOCTYPE html>
        <html lang="en">
        <head>
            <meta charset="utf-8">
            <title>title</title>
        </head>
        <body>
            <main>
                <article>
                <header>
                    <h2>A work in progress</h2>
                    <div class="date">Published: 0000-01-01</div>
                    <hr>
                </header>
                <section>
                </section>
                <nav>
                </nav>
                <div class="tags"><a href="/tags/wip">#WIP</a>,
                </article>
            </main>
        </body>
        </html>
        "#;

    parse(wip_page_contents)
}

fn setup_test_correct_page() -> Doc {
    let wip_page_contents = r#"
        <!DOCTYPE html>
        <html lang="en">
        <head>
            <meta charset="utf-8">
            <title>title</title>
        </head>
        <body>
            <main>
                <article>
                <header>
                    <h2>A "complete" web page</h2>
                    <div class="date">Published: 2021-04-13</div>
                    <hr>
                </header>
                <section>
                <p> if you enjoy this content, hit the subscribe button!</p>
                </section>
                <nav>
                </nav>
                <div class="tags"><a href="/tags/testing">#testing</a>,
                </article>
            </main>
        </body>
        </html>
        "#;

    parse(wip_page_contents)
}

fn setup_wrong_a11y_page() -> Doc {
    let wip_page_contents = r#"
        <!DOCTYPE html>
        <html>
        <head>
            <meta charset="utf-8">
            <meta name="viewport" content="width=device-width, initial-scale=1.0, maximum-scale=1.0, user-scalable=no" />
        </head>
        <body>
            <main>
                <article>
                <h3>a h3 that's way before it's time</h3>
                <h1>First title</h1>
                <h1>Second title</h1>
                <header>
                    <h3>A "complete" web page</h3>
                    <div class="date">Published: 2021-04-13</div>
                    <hr>
                </header>
                <section>
                <p> if you enjoy this content, hit the subscribe button!</p>
                <img src="img_girl.jpg">
                <a title="a useless link"></a>
                <div tabindex="24"></div>
                <form action="/action_page.php">
                <input autofocus><br><br>
                <input type="radio" name="whatever" id="other" value="other"><br><br>
                </form>

<figure>
<img src="pic_trulli.jpg" alt="Trulli" style="width:100%">
</figure>
<table>
<tr>
  <th>Month</th>
  <th>Savings</th>
</tr>
<tr>
  <td>January</td>
  <td>$100</td>
</tr>
</table>
                <audio autoplay></audio>
                </section>
                <nav>
                </nav>
                <div class="tags"><a href="/tags/testing">#testing</a>,
                </article>
            </main>
        </body>
        </html>
        "#;

    parse(wip_page_contents)
}

#[test]
fn test_discovers_forbidden_pub_date() -> Result<(), String> {
    let test_doc = setup_test_wip_page();
    let test_path = "wip.html";

    let res = check_for_invalid_publish_dates(test_path, &test_doc);

    let expected_err = Err(CheckError::ContentError {
        path: "wip.html".to_string(),
        offender: "0000-01-01".to_string(),
        description: "Forbidden publish date".to_string(),
    });

    assert_eq!(res, expected_err);
    Ok(())
}

#[test]
fn test_discovers_forbidden_tag() -> Result<(), String> {
    let test_doc = setup_test_wip_page();
    let test_path = "wip.html";

    let res = check_forbidden_tags(test_path, &test_doc);

    let expected_err = Err(CheckError::ContentError {
        path: "wip.html".to_string(),
        offender: "wip".to_string(),
        description: "Forbidden tag".to_string(),
    });

    assert_eq!(res, expected_err);
    Ok(())
}

#[test]
fn test_discovers_forbidden_files() -> Result<(), String> {
    let forbidden_file_path = "unpublished/fobidden.html";

    let res = check_for_forbidden_files(forbidden_file_path);

    let expected_err = Err(CheckError::ForbiddenFile {
        path: "unpublished/fobidden.html".to_string(),
    });

    assert_eq!(res, expected_err);
    Ok(())
}

#[test]
fn test_discovers_files_in_publish_queue() -> Result<(), String> {
    let res = check_for_forbidden_files("site/publish-queue/page.html");

    let expected_err = Err(CheckError::ForbiddenFile {
        path: "site/publish-queue/page.html".to_string(),
    });

    assert_eq!(res, expected_err);
    Ok(())
}

#[test]
fn test_forbidden_name_inside_component_passes() -> Result<(), String> {
    assert_eq!(check_for_forbidden_files("site/unpublished-notes/page.html"), Ok(()));
    assert_eq!(check_for_forbidden_files("public/page.html"), Ok(()));
    Ok(())
}

#[test]
fn test_correct_file_passes() -> Result<(), String> {
    let test_doc = setup_test_correct_page();

    let res = check_html_file("page.html", &test_doc);
    assert!(res.is_ok(), "{:?}", res);
    Ok(())
}

#[test]
fn test_other_slugs_pass() -> Result<(), String> {
    let test_doc = setup_test_correct_page();

    assert_eq!(check_forbidden_tags("page.html", &test_doc), Ok(()));
    Ok(())
}

#[test]
fn test_alted_images_pass() -> Result<(), String> {
    let test_doc = setup_test_correct_page();

    assert_eq!(check_img_tags_have_alts("page.html", &test_doc), Ok(()));
    Ok(())
}

#[test]
fn test_discovers_missing_date_element() -> Result<(), String> {
    let test_doc = parse(
        r#"<!DOCTYPE html>
        <html lang="en"><head><title>t</title></head><body><p>no date here</p></body></html>"#,
    );

    let res = check_for_invalid_publish_dates("page.html", &test_doc);

    let expected_err = Err(CheckError::ContentError {
        path: "page.html".to_string(),
        offender: "".to_string(),
        description: "Missing publish date element".to_string(),
    });

    assert_eq!(res, expected_err);
    Ok(())
}

#[test]
fn test_discovers_unparseable_date() -> Result<(), String> {
    let test_doc = parse(
        r#"<!DOCTYPE html>
        <html lang="en"><head><title>t</title></head><body>
        <div class="date">Published: yesterday</div></body></html>"#,
    );

    let res = check_for_invalid_publish_dates("page.html", &test_doc);

    let expected_err = Err(CheckError::ContentError {
        path: "page.html".to_string(),
        offender: "<div class=\"date\">Published: yesterday</div>".to_string(),
        description: "Missing publish date".to_string(),
    });

    assert_eq!(res, expected_err);
    Ok(())
}

#[test]
fn test_discovers_img_without_alt() -> Result<(), String> {
    let test_doc = setup_wrong_a11y_page();
    let test_path = "wip.html";

    let res = check_img_tags_have_alts(test_path, &test_doc);

    let expected_err = Err(CheckError::AccessibilityError {
        path: "wip.html".to_string(),
        offender: "<img src=\"img_girl.jpg\">".to_string(),
        description: "Image tag without alt".to_string(),
    });

    assert_eq!(res, expected_err);
    Ok(())
}

#[test]
fn test_discovers_tag_with_title_attr() -> Result<(), String> {
    let test_doc = setup_wrong_a11y_page();
    let test_path = "wip.html";

    let res = check_tags_dont_have_title_attr(test_path, &test_doc);

    let expected_err = Err(CheckError::AccessibilityError {
        path: "wip.html".to_string(),
        offender: "<a title=\"a useless link\"></a>".to_string(),
        description: "Tag in page has title attr".to_string(),
    });

    assert_eq!(res, expected_err);
    Ok(())
}

#[test]
fn test_discovers_disabled_zoom() -> Result<(), String> {
    let test_doc = setup_wrong_a11y_page();
    let test_path = "wip.html";

    let res = check_page_doesnt_disabe_zoom(test_path, &test_doc);

    let expected_err = Err(CheckError::AccessibilityError {
        path: "wip.html".to_string(),
        offender: "".to_string(),
        description: "Page disables zoom".to_string(),
    });

    assert_eq!(res, expected_err);
    Ok(())
}

#[test]
fn test_discovers_page_without_title() -> Result<(), String> {
    let test_doc = setup_wrong_a11y_page();
    let test_path = "wip.html";

    let res = check_page_has_title(test_path, &test_doc);

    let expected_err = Err(CheckError::AccessibilityError {
        path: "wip.html".to_string(),
        offender: "".to_string(),
        description: "Page is missing a title tag".to_string(),
    });

    assert_eq!(res, expected_err);
    Ok(())
}

#[test]
fn test_discovers_page_without_lang_attr() -> Result<(), String> {
    let test_doc = setup_wrong_a11y_page();
    let test_path = "wip.html";

    let res = check_page_has_lang_attr(test_path, &test_doc);

    let expected_err = Err(CheckError::AccessibilityError {
        path: "wip.html".to_string(),
        offender: "".to_string(),
        description: "Page doesn't have lang attribute".to_string(),
    });

    assert_eq!(res, expected_err);
    Ok(())
}

#[test]
fn test_discovers_page_with_positive_tabindex() -> Result<(), String> {
    let test_doc = setup_wrong_a11y_page();
    let test_path = "wip.html";

    let res = check_page_doesnt_have_positive_tabindex(test_path, &test_doc);

    let expected_err = Err(CheckError::AccessibilityError {
        path: "wip.html".to_string(),
        offender: "<div tabindex=\"24\"></div>".to_string(),
        description: "Page has tag with prositive tab index".to_string(),
    });

    assert_eq!(res, expected_err);
    Ok(())
}

#[test]
fn test_non_numeric_tabindex_passes() -> Result<(), String> {
    let test_doc = parse(
        r#"<!DOCTYPE html>
        <html lang="en"><head><title>t</title></head><body>
        <div tabindex="later"></div><div tabindex="0"></div><div tabindex="-4"></div>
        </body></html>"#,
    );

    assert_eq!(check_page_doesnt_have_positive_tabindex("page.html", &test_doc), Ok(()));
    Ok(())
}

#[test]
fn test_discovers_page_with_autofocus_attr() -> Result<(), String> {
    let test_doc = setup_wrong_a11y_page();
    let test_path = "wip.html";

    let res = check_page_doesnt_have_autofocus(test_path, &test_doc);

    let expected_err = Err(CheckError::AccessibilityError {
        path: "wip.html".to_string(),
        offender: "<input autofocus=\"\">".to_string(),
        description: "Tag in page has autofocus attr".to_string(),
    });

    assert_eq!(res, expected_err);
    Ok(())
}

#[test]
fn test_discovers_page_with_multiple_h1_elements() -> Result<(), String> {
    let test_doc = setup_wrong_a11y_page();
    let test_path = "wip.html";

    let res = check_page_doesnt_have_multiple_h1_elements(test_path, &test_doc);

    let expected_err = Err(CheckError::AccessibilityError {
        path: "wip.html".to_string(),
        offender: "<h1>Second title</h1>".to_string(),
        description: "Has multiple h1 headings".to_string(),
    });

    assert_eq!(res, expected_err);
    Ok(())
}

#[test]
fn test_discovers_page_with_hrefless_link() -> Result<(), String> {
    let test_doc = setup_wrong_a11y_page();
    let test_path = "wip.html";

    let res = check_page_doesnt_have_hrefless_link(test_path, &test_doc);

    let expected_err = Err(CheckError::AccessibilityError {
        path: "wip.html".to_string(),
        offender: "<a title=\"a useless link\"></a>".to_string(),
        description: "Link is missing href attribute".to_string(),
    });

    assert_eq!(res, expected_err);
    Ok(())
}

#[test]
fn test_discovers_page_with_captionless_table() -> Result<(), String> {
    let test_doc = setup_wrong_a11y_page();
    let test_path = "wip.html";

    let res = check_page_doesnt_have_captionless_table(test_path, &test_doc);

    let expected_err = Err(CheckError::AccessibilityError {
        path: "wip.html".to_string(),
        offender: "".to_string(),
        description: "Page contains table without caption".to_string(),
    });

    assert_eq!(res, expected_err);
    Ok(())
}

#[test]
fn test_discovers_page_with_captionless_figure() -> Result<(), String> {
    let test_doc = setup_wrong_a11y_page();
    let test_path = "wip.html";

    let res = check_page_doesnt_have_captionless_figure(test_path, &test_doc);

    let expected_err = Err(CheckError::AccessibilityError {
        path: "wip.html".to_string(),
        offender: "".to_string(),
        description: "Page contains figure without caption".to_string(),
    });

    assert_eq!(res, expected_err);
    Ok(())
}

#[test]
fn test_discovers_page_with_labelless_form() -> Result<(), String> {
    let test_doc = setup_wrong_a11y_page();
    let test_path = "wip.html";

    let res = check_page_doesnt_have_labelless_form_elements(test_path, &test_doc);

    let expected_err = Err(CheckError::AccessibilityError {
        path: "wip.html".to_string(),
        offender: "id=\"other\"".to_string(),
        description: "Form element without label attr".to_string(),
    });

    assert_eq!(res, expected_err);
    Ok(())
}

#[test]
fn test_discovers_page_with_autoplay_media() -> Result<(), String> {
    let test_doc = setup_wrong_a11y_page();
    let test_path = "wip.html";

    let res = check_page_doesnt_have_autoplay_media(test_path, &test_doc);

    let expected_err = Err(CheckError::AccessibilityError {
        path: "wip.html".to_string(),
        offender: "<audio autoplay=\"\"></audio>".to_string(),
        description: "Page has media with autoplay enabled".to_string(),
    });

    assert_eq!(res, expected_err);
    Ok(())
}

#[test]
fn test_labelled_form_passes() -> Result<(), String> {
    let test_doc = parse(
        r#"<!DOCTYPE html>
        <html lang="en"><head><title>t</title></head><body>
        <form action="/go">
          <label for="name">Name</label>
          <input type="text" id="name">
        </form>
        </body></html>"#,
    );

    assert_eq!(check_page_doesnt_have_labelless_form_elements("page.html", &test_doc), Ok(()));
    Ok(())
}

#[test]
fn test_captioned_table_and_figure_pass() -> Result<(), String> {
    let test_doc = parse(
        r#"<!DOCTYPE html>
        <html lang="en"><head><title>t</title></head><body>
        <table><caption>Savings</caption><tr><td>1</td></tr></table>
        <figure><img src="x.jpg" alt="x"><figcaption>x</figcaption></figure>
        </body></html>"#,
    );

    assert_eq!(check_page_doesnt_have_captionless_table("page.html", &test_doc), Ok(()));
    assert_eq!(check_page_doesnt_have_captionless_figure("page.html", &test_doc), Ok(()));
    Ok(())
}

#[test]
fn test_empty_alt_fails() -> Result<(), String> {
    let test_doc = parse(
        r#"<!DOCTYPE html>
        <html lang="en"><head><title>t</title></head><body>
        <img src="x.jpg" alt="">
        </body></html>"#,
    );

    let res = check_img_tags_have_alts("page.html", &test_doc);

    let expected_err = Err(CheckError::AccessibilityError {
        path: "page.html".to_string(),
        offender: "<img alt=\"\" src=\"x.jpg\">".to_string(),
        description: "Image tag without alt".to_string(),
    });

    assert_eq!(res, expected_err);
    Ok(())
}

#[test]
fn test_pipeline_stops_at_first_failure() -> Result<(), String> {
    // The wip page breaks both the forbidden-tag rule and the publish-date
    // rule; the tag rule comes first in the pipeline.
    let test_doc = setup_test_wip_page();

    let res = check_document("wip.html", &test_doc);

    let expected_err = Err(CheckError::ContentError {
        path: "wip.html".to_string(),
        offender: "wip".to_string(),
        description: "Forbidden tag".to_string(),
    });

    assert_eq!(res, expected_err);
    Ok(())
}

#[test]
fn test_forbidden_path_wins_over_content() -> Result<(), String> {
    let test_doc = setup_test_wip_page();

    let res = check_html_file("unpublished/wip.html", &test_doc);

    let expected_err = Err(CheckError::ForbiddenFile {
        path: "unpublished/wip.html".to_string(),
    });

    assert_eq!(res, expected_err);
    Ok(())
}

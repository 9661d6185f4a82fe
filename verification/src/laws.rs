//! Laws of the rule pipeline, stated and proved once and for all: which
//! verdict each rule reaches on whole classes of documents.

use vstd::prelude::*;

use crate::dom::{Elem, attr_of, has_attr};
use crate::error::Violation;
use crate::rules::{access_violation, content_violation, forbidden_file_rule, forbidden_tag_link,
    forbidden_tag_rule, is_tags_div, is_child, is_date_div, bad_date_div, date_violation,
    date_rule_from, publish_date_rule, img_missing_alt, img_rule, img_rule_from, has_title_attr,
    title_attr_rule_from, zoom_disabling_meta, title_in_head, positive_tabindex,
    tabindex_rule_from, has_autofocus, autofocus_rule_from, later_h1, h1_rule, h1_rule_from,
    hrefless_link, href_rule_from, captionless_table, captionless_figure, unlabelled_input,
    form_rule_from, has_autoplay, autoplay_rule_from, html_file_rules};
use crate::scan::extract_iso_date_spec;

verus! {

proof fn lemma_img_rule_skip(path: Seq<char>, es: Seq<Elem>, i: int, k: int)
    requires
        0 <= i <= k <= es.len(),
        forall|j: int| i <= j < k ==> !img_missing_alt(es, j),
    ensures
        img_rule_from(path, es, i) == img_rule_from(path, es, k),
    decreases k - i,
{
    if i < k {
        lemma_img_rule_skip(path, es, i + 1, k);
    }
}

proof fn lemma_h1_rule_skip(path: Seq<char>, es: Seq<Elem>, i: int, k: int)
    requires
        0 <= i <= k <= es.len(),
        forall|j: int| i <= j < k ==> !later_h1(es, j),
    ensures
        h1_rule_from(path, es, i) == h1_rule_from(path, es, k),
    decreases k - i,
{
    if i < k {
        lemma_h1_rule_skip(path, es, i + 1, k);
    }
}

proof fn lemma_title_attr_rule_none(path: Seq<char>, es: Seq<Elem>, i: int)
    requires
        0 <= i,
        forall|j: int| i <= j < es.len() ==> !has_title_attr(es, j),
    ensures
        title_attr_rule_from(path, es, i) is None,
    decreases es.len() - i,
{
    if i < es.len() {
        lemma_title_attr_rule_none(path, es, i + 1);
    }
}

proof fn lemma_date_rule_none(path: Seq<char>, es: Seq<Elem>, i: int)
    requires
        0 <= i,
        forall|j: int| i <= j < es.len() ==> !bad_date_div(es, j),
    ensures
        date_rule_from(path, es, i) is None,
    decreases es.len() - i,
{
    if i < es.len() {
        lemma_date_rule_none(path, es, i + 1);
    }
}

proof fn lemma_tabindex_rule_none(path: Seq<char>, es: Seq<Elem>, i: int)
    requires
        0 <= i,
        forall|j: int| i <= j < es.len() ==> !positive_tabindex(es, j),
    ensures
        tabindex_rule_from(path, es, i) is None,
    decreases es.len() - i,
{
    if i < es.len() {
        lemma_tabindex_rule_none(path, es, i + 1);
    }
}

proof fn lemma_autofocus_rule_none(path: Seq<char>, es: Seq<Elem>, i: int)
    requires
        0 <= i,
        forall|j: int| i <= j < es.len() ==> !has_autofocus(es, j),
    ensures
        autofocus_rule_from(path, es, i) is None,
    decreases es.len() - i,
{
    if i < es.len() {
        lemma_autofocus_rule_none(path, es, i + 1);
    }
}

proof fn lemma_href_rule_none(path: Seq<char>, es: Seq<Elem>, i: int)
    requires
        0 <= i,
        forall|j: int| i <= j < es.len() ==> !hrefless_link(es, j),
    ensures
        href_rule_from(path, es, i) is None,
    decreases es.len() - i,
{
    if i < es.len() {
        lemma_href_rule_none(path, es, i + 1);
    }
}

proof fn lemma_form_rule_none(path: Seq<char>, es: Seq<Elem>, i: int)
    requires
        0 <= i,
        forall|j: int| i <= j < es.len() ==> !unlabelled_input(es, j),
    ensures
        form_rule_from(path, es, i) is None,
    decreases es.len() - i,
{
    if i < es.len() {
        lemma_form_rule_none(path, es, i + 1);
    }
}

proof fn lemma_autoplay_rule_none(path: Seq<char>, es: Seq<Elem>, i: int)
    requires
        0 <= i,
        forall|j: int| i <= j < es.len() ==> !has_autoplay(es, j),
    ensures
        autoplay_rule_from(path, es, i) is None,
    decreases es.len() - i,
{
    if i < es.len() {
        lemma_autoplay_rule_none(path, es, i + 1);
    }
}

proof fn lemma_date_rule_finds(path: Seq<char>, es: Seq<Elem>, i: int)
    requires
        0 <= i,
        exists|k: int| i <= k < es.len() && bad_date_div(es, k),
    ensures
        exists|k: int|
            i <= k < es.len() && bad_date_div(es, k) && date_rule_from(path, es, i) == Some(
                date_violation(path, es, k),
            ),
    decreases es.len() - i,
{
    let k0 = choose|k: int| i <= k < es.len() && bad_date_div(es, k);
    if bad_date_div(es, i) {
        assert(i <= i < es.len() && bad_date_div(es, i) && date_rule_from(path, es, i) == Some(
            date_violation(path, es, i),
        ));
    } else {
        assert(i + 1 <= k0 < es.len() && bad_date_div(es, k0));
        lemma_date_rule_finds(path, es, i + 1);
    }
}

/// Whenever every date-bearing element of a document holds a parseable
/// date and at least one of them holds the sentinel `0000-01-01`, the
/// publish-date rule fails with offender exactly `0000-01-01`.
pub proof fn lemma_publish_date_sentinel(path: Seq<char>, es: Seq<Elem>)
    requires
        forall|i: int| is_date_div(es, i) ==> extract_iso_date_spec(#[trigger] es[i].text@) is Some,
        exists|i: int|
            is_date_div(es, i) && extract_iso_date_spec(#[trigger] es[i].text@) == Some(
                "0000-01-01"@,
            ),
    ensures
        publish_date_rule(path, es) == Some(
            content_violation(path, "0000-01-01"@, "Forbidden publish date"@),
        ),
{
    let w = choose|i: int|
        is_date_div(es, i) && extract_iso_date_spec(#[trigger] es[i].text@) == Some("0000-01-01"@);
    assert(bad_date_div(es, w));
    assert(0 <= w < es.len() && bad_date_div(es, w));
    lemma_date_rule_finds(path, es, 0);
    let k = choose|k: int|
        0 <= k < es.len() && bad_date_div(es, k) && date_rule_from(path, es, 0) == Some(
            date_violation(path, es, k),
        );
    assert(extract_iso_date_spec(es[k].text@) is Some);
    assert(extract_iso_date_spec(es[k].text@) == Some("0000-01-01"@));
}

/// A document whose tag list links to the reserved slug `wip` fails the
/// forbidden-tag rule with offender `wip`; one whose tag links all carry
/// other slugs (or none) passes it.
pub proof fn lemma_forbidden_tag(path: Seq<char>, es: Seq<Elem>)
    ensures
        (exists|i: int, j: int| forbidden_tag_link(es, i, j)) ==> forbidden_tag_rule(path, es)
            == Some(content_violation(path, "wip"@, "Forbidden tag"@)),
        (forall|i: int, j: int|
            is_tags_div(es, i) && is_child(es, i, j) ==> match attr_of(es[j], "href"@) {
                Some(u) => crate::scan::extract_tag_name_spec(u) != Some("wip"@),
                None => true,
            }) ==> forbidden_tag_rule(path, es) is None,
{
}

/// A document with exactly one image lacking non-empty alternative text
/// fails the image rule with that image's serialized markup as offender.
pub proof fn lemma_single_img_without_alt(path: Seq<char>, es: Seq<Elem>, i: int)
    requires
        0 <= i < es.len(),
        img_missing_alt(es, i),
        forall|j: int| 0 <= j < es.len() && j != i ==> !img_missing_alt(es, j),
    ensures
        img_rule(path, es) == Some(
            access_violation(path, es[i].markup@, "Image tag without alt"@),
        ),
{
    lemma_img_rule_skip(path, es, 0, i);
}

/// A document in which every image carries non-empty alternative text
/// passes the image rule.
pub proof fn lemma_all_imgs_have_alt(path: Seq<char>, es: Seq<Elem>)
    requires
        forall|j: int| 0 <= j < es.len() ==> !img_missing_alt(es, j),
    ensures
        img_rule(path, es) is None,
{
    lemma_img_rule_skip(path, es, 0, es.len() as int);
}

/// Any path with a component equal to `unpublished` or `publish-queue`
/// fails the forbidden-path rule, whatever the document holds.
pub proof fn lemma_forbidden_path(path: Seq<char>, es: Seq<Elem>)
    requires
        crate::paths::has_component(path, "unpublished"@) || crate::paths::has_component(
            path,
            "publish-queue"@,
        ),
    ensures
        forbidden_file_rule(path) == Some(Violation::ForbiddenFile { path }),
        html_file_rules(path, es) == Some(Violation::ForbiddenFile { path }),
{
}

/// A document with exactly two `h1` elements fails the heading rule with
/// the serialized markup of the second one, not the first, as offender.
pub proof fn lemma_second_h1(path: Seq<char>, es: Seq<Elem>, a: int, b: int)
    requires
        0 <= a < b < es.len(),
        es[a].tag@ == "h1"@,
        es[b].tag@ == "h1"@,
        forall|j: int| 0 <= j < es.len() && j != a && j != b ==> es[j].tag@ != "h1"@,
    ensures
        h1_rule(path, es) == Some(
            access_violation(path, es[b].markup@, "Has multiple h1 headings"@),
        ),
{
    assert forall|j: int| 0 <= j < b implies !later_h1(es, j) by {
        if j == a {
            assert forall|k: int| 0 <= k < a implies es[k].tag@ != "h1"@ by {}
        }
    }
    lemma_h1_rule_skip(path, es, 0, b);
    assert(later_h1(es, b));
}

/// A document that satisfies every rule at once passes the whole pipeline.
pub proof fn lemma_compliant_file_passes(path: Seq<char>, es: Seq<Elem>)
    requires
        es.len() > 0,
        !crate::paths::has_component(path, "unpublished"@),
        !crate::paths::has_component(path, "publish-queue"@),
        forall|i: int, j: int| !forbidden_tag_link(es, i, j),
        exists|i: int| is_date_div(es, i),
        forall|i: int| !bad_date_div(es, i),
        forall|i: int| 0 <= i < es.len() ==> !img_missing_alt(es, i),
        forall|i: int| 0 <= i < es.len() ==> !has_title_attr(es, i),
        forall|i: int| !zoom_disabling_meta(es, i),
        title_in_head(es),
        has_attr(es[0], "lang"@),
        forall|i: int| 0 <= i < es.len() ==> !positive_tabindex(es, i),
        forall|i: int| 0 <= i < es.len() ==> !has_autofocus(es, i),
        forall|i: int| 0 <= i < es.len() ==> !later_h1(es, i),
        forall|i: int| 0 <= i < es.len() ==> !hrefless_link(es, i),
        forall|i: int| !captionless_table(es, i),
        forall|i: int| !captionless_figure(es, i),
        forall|i: int| 0 <= i < es.len() ==> !unlabelled_input(es, i),
        forall|i: int| 0 <= i < es.len() ==> !has_autoplay(es, i),
    ensures
        html_file_rules(path, es) is None,
{
    lemma_date_rule_none(path, es, 0);
    lemma_img_rule_skip(path, es, 0, es.len() as int);
    lemma_title_attr_rule_none(path, es, 0);
    lemma_tabindex_rule_none(path, es, 0);
    lemma_autofocus_rule_none(path, es, 0);
    lemma_h1_rule_skip(path, es, 0, es.len() as int);
    lemma_href_rule_none(path, es, 0);
    lemma_form_rule_none(path, es, 0);
    lemma_autoplay_rule_none(path, es, 0);
}

} // verus!

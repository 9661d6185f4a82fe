//! The rule pipeline: stateless predicates over a path and a parsed
//! document, applied in a fixed order, stopping at the first failure.
//!
//! Each rule has a specification function that names exactly which
//! violation, if any, it reports; the executable rule is proved to return
//! that verdict.

use vstd::prelude::*;

use crate::dom::{Doc, Elem, attr_of, has_attr, has_class, has_class_ci, is_desc, get_attr,
    elem_has_attr, elem_has_class, elem_has_class_ci, is_descendant};
use crate::error::{CheckError, Violation, outcome};
use crate::paths::{has_component, path_has_component};
use crate::scan::{extract_iso_date, extract_iso_date_spec, extract_tag_name_from_url,
    extract_tag_name_spec, disables_zoom, disables_zoom_spec, is_positive_number,
    is_positive_numeric, str_eq};

verus! {

pub open spec fn content_violation(
    path: Seq<char>,
    offender: Seq<char>,
    description: Seq<char>,
) -> Violation {
    Violation::Content { path, offender, description }
}

pub open spec fn access_violation(
    path: Seq<char>,
    offender: Seq<char>,
    description: Seq<char>,
) -> Violation {
    Violation::Accessibility { path, offender, description }
}

// ---------------------------------------------------------------------------
// Forbidden locations
// ---------------------------------------------------------------------------
/// The verdict of the forbidden-path rule: a path with a component equal to
/// `unpublished` or `publish-queue` is rejected outright.
pub open spec fn forbidden_file_rule(path: Seq<char>) -> Option<Violation> {
    if has_component(path, "unpublished"@) || has_component(path, "publish-queue"@) {
        Some(Violation::ForbiddenFile { path })
    } else {
        None
    }
}

/// Rejects paths that lie in an unpublished or queued location.
pub fn check_for_forbidden_files(path: &str) -> (r: Result<(), CheckError>)
    ensures
        outcome(r) == forbidden_file_rule(path@),
{
    if path_has_component(path, "unpublished") || path_has_component(path, "publish-queue") {
        Err(CheckError::ForbiddenFile { path: String::from_str(path) })
    } else {
        Ok(())
    }
}

// ---------------------------------------------------------------------------
// Forbidden tags
// ---------------------------------------------------------------------------
/// Element `i` is a `div` carrying the class `tags` (up to ASCII case).
pub open spec fn is_tags_div(es: Seq<Elem>, i: int) -> bool {
    &&& 0 <= i < es.len()
    &&& es[i].tag@ == "div"@
    &&& has_class_ci(es[i], "tags"@)
}

/// Element `j` is a child of element `i`.
pub open spec fn is_child(es: Seq<Elem>, i: int, j: int) -> bool {
    &&& 0 <= j < es.len()
    &&& match es[j].parent {
        Some(p) => p == i,
        None => false,
    }
}

/// Element `j` is a child of tags-container `i` and links to the reserved
/// `wip` slug.
pub open spec fn forbidden_tag_link(es: Seq<Elem>, i: int, j: int) -> bool {
    &&& is_tags_div(es, i)
    &&& is_child(es, i, j)
    &&& match attr_of(es[j], "href"@) {
        Some(u) => extract_tag_name_spec(u) == Some("wip"@),
        None => false,
    }
}

/// The verdict of the forbidden-tag rule.
pub open spec fn forbidden_tag_rule(path: Seq<char>, es: Seq<Elem>) -> Option<Violation> {
    if exists|i: int, j: int| forbidden_tag_link(es, i, j) {
        Some(content_violation(path, "wip"@, "Forbidden tag"@))
    } else {
        None
    }
}

/// Rejects documents whose tag list links to a reserved tag slug.
pub fn check_forbidden_tags(path: &str, doc: &Doc) -> (r: Result<(), CheckError>)
    requires
        doc.wf(),
    ensures
        outcome(r) == forbidden_tag_rule(path@, doc.elems@),
{
    let ghost es = doc.elems@;
    let n = doc.elems.len();
    let mut i: usize = 0;
    while i < n
        invariant
            es == doc.elems@,
            n == es.len(),
            i <= n,
            forall|a: int, b: int| a < i ==> !forbidden_tag_link(es, a, b),
        decreases n - i,
    {
        if str_eq(doc.elems[i].tag.as_str(), "div") && elem_has_class_ci(&doc.elems[i], "tags") {
            let mut j: usize = 0;
            while j < n
                invariant
                    es == doc.elems@,
                    n == es.len(),
                    i < n,
                    j <= n,
                    is_tags_div(es, i as int),
                    forall|a: int, b: int| a < i ==> !forbidden_tag_link(es, a, b),
                    forall|b: int| b < j ==> !forbidden_tag_link(es, i as int, b),
                decreases n - j,
            {
                let is_kid = match doc.elems[j].parent {
                    Some(p) => p == i,
                    None => false,
                };
                if is_kid {
                    match get_attr(&doc.elems[j], "href") {
                        Some(url) => {
                            match extract_tag_name_from_url(url.as_str()) {
                                Some(slug) => {
                                    if str_eq(slug.as_str(), "wip") {
                                        assert(forbidden_tag_link(es, i as int, j as int));
                                        return Err(CheckError::ContentError {
                                            path: String::from_str(path),
                                            offender: slug,
                                            description: String::from_str("Forbidden tag"),
                                        });
                                    }
                                },
                                None => {},
                            }
                        },
                        None => {},
                    }
                }
                j = j + 1;
            }
        }
        i = i + 1;
    }
    Ok(())
}

// ---------------------------------------------------------------------------
// Publish dates
// ---------------------------------------------------------------------------
/// Element `i` is a `div` carrying the class `date`.
pub open spec fn is_date_div(es: Seq<Elem>, i: int) -> bool {
    &&& 0 <= i < es.len()
    &&& es[i].tag@ == "div"@
    &&& has_class(es[i], "date"@)
}

/// A date-bearing element whose text has no parseable date, or whose first
/// date is the sentinel for unpublished content.
pub open spec fn bad_date_div(es: Seq<Elem>, i: int) -> bool {
    &&& is_date_div(es, i)
    &&& match extract_iso_date_spec(es[i].text@) {
        Some(d) => d == "0000-01-01"@,
        None => true,
    }
}

/// The violation reported for a bad date-bearing element.
pub open spec fn date_violation(path: Seq<char>, es: Seq<Elem>, i: int) -> Violation {
    match extract_iso_date_spec(es[i].text@) {
        Some(d) => content_violation(path, d, "Forbidden publish date"@),
        None => content_violation(path, es[i].markup@, "Missing publish date"@),
    }
}

pub open spec fn date_rule_from(path: Seq<char>, es: Seq<Elem>, i: int) -> Option<Violation>
    decreases es.len() - i,
{
    if i < 0 || i >= es.len() {
        None
    } else if bad_date_div(es, i) {
        Some(date_violation(path, es, i))
    } else {
        date_rule_from(path, es, i + 1)
    }
}

/// The verdict of the publish-date rule: a document must carry at least one
/// date-bearing element, every such element must hold a parseable date, and
/// no date may equal the sentinel `0000-01-01`.
pub open spec fn publish_date_rule(path: Seq<char>, es: Seq<Elem>) -> Option<Violation> {
    if !(exists|i: int| is_date_div(es, i)) {
        Some(content_violation(path, Seq::empty(), "Missing publish date element"@))
    } else {
        date_rule_from(path, es, 0)
    }
}

/// Rejects documents whose publish date is missing, unparseable, or the
/// unpublished sentinel.
pub fn check_for_invalid_publish_dates(path: &str, doc: &Doc) -> (r: Result<(), CheckError>)
    requires
        doc.wf(),
    ensures
        outcome(r) == publish_date_rule(path@, doc.elems@),
{
    let ghost es = doc.elems@;
    let n = doc.elems.len();
    let mut i: usize = 0;
    let mut found_div = false;
    while i < n
        invariant
            es == doc.elems@,
            n == es.len(),
            i <= n,
            found_div == exists|k: int| 0 <= k < i && is_date_div(es, k),
            date_rule_from(path@, es, 0) == date_rule_from(path@, es, i as int),
        decreases n - i,
    {
        if str_eq(doc.elems[i].tag.as_str(), "div") && elem_has_class(&doc.elems[i], "date") {
            assert(is_date_div(es, i as int));
            found_div = true;
            match extract_iso_date(doc.elems[i].text.as_str()) {
                Some(d) => {
                    if str_eq(d.as_str(), "0000-01-01") {
                        assert(bad_date_div(es, i as int));
                        return Err(CheckError::ContentError {
                            path: String::from_str(path),
                            offender: d,
                            description: String::from_str("Forbidden publish date"),
                        });
                    }
                    assert(!bad_date_div(es, i as int));
                },
                None => {
                    assert(bad_date_div(es, i as int));
                    return Err(CheckError::ContentError {
                        path: String::from_str(path),
                        offender: doc.elems[i].markup.clone(),
                        description: String::from_str("Missing publish date"),
                    });
                },
            }
        } else {
            assert(!is_date_div(es, i as int));
        }
        assert(date_rule_from(path@, es, i as int) == date_rule_from(path@, es, i + 1 as int));
        i = i + 1;
    }
    if !found_div {
        assert(forall|k: int| !is_date_div(es, k));
        return Err(CheckError::ContentError {
            path: String::from_str(path),
            offender: String::new(),
            description: String::from_str("Missing publish date element"),
        });
    }
    Ok(())
}

// ---------------------------------------------------------------------------
// Accessibility battery
// ---------------------------------------------------------------------------
/// Element `i` is an `img` without a non-empty `alt` attribute.
pub open spec fn img_missing_alt(es: Seq<Elem>, i: int) -> bool {
    &&& es[i].tag@ == "img"@
    &&& match attr_of(es[i], "alt"@) {
        Some(v) => v.len() == 0,
        None => true,
    }
}

pub open spec fn img_rule_from(path: Seq<char>, es: Seq<Elem>, i: int) -> Option<Violation>
    decreases es.len() - i,
{
    if i < 0 || i >= es.len() {
        None
    } else if img_missing_alt(es, i) {
        Some(access_violation(path, es[i].markup@, "Image tag without alt"@))
    } else {
        img_rule_from(path, es, i + 1)
    }
}

/// The verdict of the image-alt rule: the first `img` without a non-empty
/// `alt` is the offender.
pub open spec fn img_rule(path: Seq<char>, es: Seq<Elem>) -> Option<Violation> {
    img_rule_from(path, es, 0)
}

/// Rejects documents with an image that has no alternative text.
pub fn check_img_tags_have_alts(path: &str, doc: &Doc) -> (r: Result<(), CheckError>)
    requires
        doc.wf(),
    ensures
        outcome(r) == img_rule(path@, doc.elems@),
{
    let ghost es = doc.elems@;
    let n = doc.elems.len();
    let mut i: usize = 0;
    while i < n
        invariant
            es == doc.elems@,
            n == es.len(),
            i <= n,
            img_rule_from(path@, es, 0) == img_rule_from(path@, es, i as int),
        decreases n - i,
    {
        let bad = if str_eq(doc.elems[i].tag.as_str(), "img") {
            match get_attr(&doc.elems[i], "alt") {
                Some(v) => v.as_str().is_empty(),
                None => true,
            }
        } else {
            false
        };
        assert(bad == img_missing_alt(es, i as int));
        if bad {
            return Err(CheckError::AccessibilityError {
                path: String::from_str(path),
                offender: doc.elems[i].markup.clone(),
                description: String::from_str("Image tag without alt"),
            });
        }
        assert(img_rule_from(path@, es, i as int) == img_rule_from(path@, es, i + 1 as int));
        i = i + 1;
    }
    Ok(())
}

/// Element `i` carries a `title` attribute.
pub open spec fn has_title_attr(es: Seq<Elem>, i: int) -> bool {
    has_attr(es[i], "title"@)
}

pub open spec fn title_attr_rule_from(path: Seq<char>, es: Seq<Elem>, i: int) -> Option<Violation>
    decreases es.len() - i,
{
    if i < 0 || i >= es.len() {
        None
    } else if has_title_attr(es, i) {
        Some(access_violation(path, es[i].markup@, "Tag in page has title attr"@))
    } else {
        title_attr_rule_from(path, es, i + 1)
    }
}

/// The verdict of the title-attribute rule: no element may carry a `title`
/// attribute.
pub open spec fn title_attr_rule(path: Seq<char>, es: Seq<Elem>) -> Option<Violation> {
    title_attr_rule_from(path, es, 0)
}

/// Rejects documents with an element carrying a `title` attribute.
pub fn check_tags_dont_have_title_attr(path: &str, doc: &Doc) -> (r: Result<(), CheckError>)
    requires
        doc.wf(),
    ensures
        outcome(r) == title_attr_rule(path@, doc.elems@),
{
    let ghost es = doc.elems@;
    let n = doc.elems.len();
    let mut i: usize = 0;
    while i < n
        invariant
            es == doc.elems@,
            n == es.len(),
            i <= n,
            title_attr_rule_from(path@, es, 0) == title_attr_rule_from(path@, es, i as int),
        decreases n - i,
    {
        if elem_has_attr(&doc.elems[i], "title") {
            return Err(CheckError::AccessibilityError {
                path: String::from_str(path),
                offender: doc.elems[i].markup.clone(),
                description: String::from_str("Tag in page has title attr"),
            });
        }
        assert(title_attr_rule_from(path@, es, i as int) == title_attr_rule_from(
            path@,
            es,
            i + 1 as int,
        ));
        i = i + 1;
    }
    Ok(())
}

/// Element `i` is a `meta` whose `content` disables zooming.
pub open spec fn zoom_disabling_meta(es: Seq<Elem>, i: int) -> bool {
    &&& 0 <= i < es.len()
    &&& es[i].tag@ == "meta"@
    &&& match attr_of(es[i], "content"@) {
        Some(c) => disables_zoom_spec(c),
        None => false,
    }
}

/// The verdict of the viewport rule: no `meta` content may disable zooming.
pub open spec fn zoom_rule(path: Seq<char>, es: Seq<Elem>) -> Option<Violation> {
    if exists|i: int| zoom_disabling_meta(es, i) {
        Some(access_violation(path, Seq::empty(), "Page disables zoom"@))
    } else {
        None
    }
}

/// Rejects documents that disable zooming through a viewport declaration.
pub fn check_page_doesnt_disabe_zoom(path: &str, doc: &Doc) -> (r: Result<(), CheckError>)
    requires
        doc.wf(),
    ensures
        outcome(r) == zoom_rule(path@, doc.elems@),
{
    let ghost es = doc.elems@;
    let n = doc.elems.len();
    let mut i: usize = 0;
    while i < n
        invariant
            es == doc.elems@,
            n == es.len(),
            i <= n,
            forall|k: int| 0 <= k < i ==> !zoom_disabling_meta(es, k),
        decreases n - i,
    {
        if str_eq(doc.elems[i].tag.as_str(), "meta") {
            match get_attr(&doc.elems[i], "content") {
                Some(c) => {
                    if disables_zoom(c.as_str()) {
                        assert(zoom_disabling_meta(es, i as int));
                        return Err(CheckError::AccessibilityError {
                            path: String::from_str(path),
                            offender: String::new(),
                            description: String::from_str("Page disables zoom"),
                        });
                    }
                },
                None => {},
            }
        }
        i = i + 1;
    }
    Ok(())
}

/// The first `head` element of the document, if any.
pub open spec fn first_head_from(es: Seq<Elem>, i: int) -> Option<int>
    decreases es.len() - i,
{
    if i < 0 || i >= es.len() {
        None
    } else if es[i].tag@ == "head"@ {
        Some(i)
    } else {
        first_head_from(es, i + 1)
    }
}

/// Whether a `title` element lies below element `h`.
pub open spec fn head_has_title(es: Seq<Elem>, h: int) -> bool {
    exists|t: int| 0 <= t < es.len() && es[t].tag@ == "title"@ && is_desc(es, h, t)
}

/// Whether the document's `head` contains a `title` element.
pub open spec fn title_in_head(es: Seq<Elem>) -> bool {
    match first_head_from(es, 0) {
        Some(h) => head_has_title(es, h),
        None => false,
    }
}

/// The verdict of the page-title rule.
pub open spec fn page_title_rule(path: Seq<char>, es: Seq<Elem>) -> Option<Violation> {
    if title_in_head(es) {
        None
    } else {
        Some(access_violation(path, Seq::empty(), "Page is missing a title tag"@))
    }
}

/// Finds the first `head` element of the document.
fn find_first_head(doc: &Doc) -> (r: Option<usize>)
    ensures
        match r {
            Some(h) => h < doc.elems@.len() && first_head_from(doc.elems@, 0) == Some(h as int),
            None => first_head_from(doc.elems@, 0) is None,
        },
{
    let ghost es = doc.elems@;
    let n = doc.elems.len();
    let mut i: usize = 0;
    while i < n
        invariant
            es == doc.elems@,
            n == es.len(),
            i <= n,
            first_head_from(es, 0) == first_head_from(es, i as int),
        decreases n - i,
    {
        if str_eq(doc.elems[i].tag.as_str(), "head") {
            return Some(i);
        }
        assert(first_head_from(es, i as int) == first_head_from(es, i + 1 as int));
        i = i + 1;
    }
    assert(first_head_from(es, i as int) is None);
    None
}

/// Rejects documents whose `head` holds no `title` element.
pub fn check_page_has_title(path: &str, doc: &Doc) -> (r: Result<(), CheckError>)
    requires
        doc.wf(),
    ensures
        outcome(r) == page_title_rule(path@, doc.elems@),
{
    let ghost es = doc.elems@;
    let n = doc.elems.len();
    match find_first_head(doc) {
        Some(h) => {
            let mut t: usize = 0;
            while t < n
                invariant
                    es == doc.elems@,
                    n == es.len(),
                    t <= n,
                    h < n,
                    doc.wf(),
                    first_head_from(es, 0) == Some(h as int),
                    forall|k: int|
                        0 <= k < t ==> !(es[k].tag@ == "title"@ && is_desc(es, h as int, k)),
                decreases n - t,
            {
                if str_eq(doc.elems[t].tag.as_str(), "title") && is_descendant(doc, h, t) {
                    assert(es[t as int].tag@ == "title"@ && is_desc(es, h as int, t as int));
                    assert(head_has_title(es, h as int));
                    assert(title_in_head(es));
                    return Ok(());
                }
                t = t + 1;
            }
            assert(!head_has_title(es, h as int));
            assert(!title_in_head(es));
            Err(CheckError::AccessibilityError {
                path: String::from_str(path),
                offender: String::new(),
                description: String::from_str("Page is missing a title tag"),
            })
        },
        None => {
            assert(!title_in_head(es));
            Err(CheckError::AccessibilityError {
                path: String::from_str(path),
                offender: String::new(),
                description: String::from_str("Page is missing a title tag"),
            })
        },
    }
}

/// The verdict of the language rule: the root element must declare `lang`.
pub open spec fn lang_rule(path: Seq<char>, es: Seq<Elem>) -> Option<Violation> {
    if has_attr(es[0], "lang"@) {
        None
    } else {
        Some(access_violation(path, Seq::empty(), "Page doesn't have lang attribute"@))
    }
}

/// Rejects documents whose root element carries no `lang` attribute.
pub fn check_page_has_lang_attr(path: &str, doc: &Doc) -> (r: Result<(), CheckError>)
    requires
        doc.wf(),
    ensures
        outcome(r) == lang_rule(path@, doc.elems@),
{
    if elem_has_attr(&doc.elems[0], "lang") {
        Ok(())
    } else {
        Err(CheckError::AccessibilityError {
            path: String::from_str(path),
            offender: String::new(),
            description: String::from_str("Page doesn't have lang attribute"),
        })
    }
}

/// Element `i` carries a `tabindex` attribute that is a positive number.
pub open spec fn positive_tabindex(es: Seq<Elem>, i: int) -> bool {
    match attr_of(es[i], "tabindex"@) {
        Some(v) => is_positive_numeric(v),
        None => false,
    }
}

pub open spec fn tabindex_rule_from(path: Seq<char>, es: Seq<Elem>, i: int) -> Option<Violation>
    decreases es.len() - i,
{
    if i < 0 || i >= es.len() {
        None
    } else if positive_tabindex(es, i) {
        Some(access_violation(path, es[i].markup@, "Page has tag with prositive tab index"@))
    } else {
        tabindex_rule_from(path, es, i + 1)
    }
}

/// The verdict of the tab-index rule: no element may carry a numeric
/// `tabindex` greater than zero.
pub open spec fn tabindex_rule(path: Seq<char>, es: Seq<Elem>) -> Option<Violation> {
    tabindex_rule_from(path, es, 0)
}

/// Rejects documents with an element whose `tabindex` is positive.
pub fn check_page_doesnt_have_positive_tabindex(path: &str, doc: &Doc) -> (r: Result<
    (),
    CheckError,
>)
    requires
        doc.wf(),
    ensures
        outcome(r) == tabindex_rule(path@, doc.elems@),
{
    let ghost es = doc.elems@;
    let n = doc.elems.len();
    let mut i: usize = 0;
    while i < n
        invariant
            es == doc.elems@,
            n == es.len(),
            i <= n,
            tabindex_rule_from(path@, es, 0) == tabindex_rule_from(path@, es, i as int),
        decreases n - i,
    {
        let bad = match get_attr(&doc.elems[i], "tabindex") {
            Some(v) => is_positive_number(v.as_str()),
            None => false,
        };
        assert(bad == positive_tabindex(es, i as int));
        if bad {
            return Err(CheckError::AccessibilityError {
                path: String::from_str(path),
                offender: doc.elems[i].markup.clone(),
                description: String::from_str("Page has tag with prositive tab index"),
            });
        }
        assert(tabindex_rule_from(path@, es, i as int) == tabindex_rule_from(
            path@,
            es,
            i + 1 as int,
        ));
        i = i + 1;
    }
    Ok(())
}

/// Element `i` carries an `autofocus` attribute.
pub open spec fn has_autofocus(es: Seq<Elem>, i: int) -> bool {
    has_attr(es[i], "autofocus"@)
}

pub open spec fn autofocus_rule_from(path: Seq<char>, es: Seq<Elem>, i: int) -> Option<Violation>
    decreases es.len() - i,
{
    if i < 0 || i >= es.len() {
        None
    } else if has_autofocus(es, i) {
        Some(access_violation(path, es[i].markup@, "Tag in page has autofocus attr"@))
    } else {
        autofocus_rule_from(path, es, i + 1)
    }
}

/// The verdict of the autofocus rule: no element may steal focus.
pub open spec fn autofocus_rule(path: Seq<char>, es: Seq<Elem>) -> Option<Violation> {
    autofocus_rule_from(path, es, 0)
}

/// Rejects documents with an element carrying `autofocus`.
pub fn check_page_doesnt_have_autofocus(path: &str, doc: &Doc) -> (r: Result<(), CheckError>)
    requires
        doc.wf(),
    ensures
        outcome(r) == autofocus_rule(path@, doc.elems@),
{
    let ghost es = doc.elems@;
    let n = doc.elems.len();
    let mut i: usize = 0;
    while i < n
        invariant
            es == doc.elems@,
            n == es.len(),
            i <= n,
            autofocus_rule_from(path@, es, 0) == autofocus_rule_from(path@, es, i as int),
        decreases n - i,
    {
        if elem_has_attr(&doc.elems[i], "autofocus") {
            return Err(CheckError::AccessibilityError {
                path: String::from_str(path),
                offender: doc.elems[i].markup.clone(),
                description: String::from_str("Tag in page has autofocus attr"),
            });
        }
        assert(autofocus_rule_from(path@, es, i as int) == autofocus_rule_from(
            path@,
            es,
            i + 1 as int,
        ));
        i = i + 1;
    }
    Ok(())
}

/// Element `i` is an `h1` that another `h1` precedes.
pub open spec fn later_h1(es: Seq<Elem>, i: int) -> bool {
    &&& es[i].tag@ == "h1"@
    &&& exists|j: int| 0 <= j < i && es[j].tag@ == "h1"@
}

pub open spec fn h1_rule_from(path: Seq<char>, es: Seq<Elem>, i: int) -> Option<Violation>
    decreases es.len() - i,
{
    if i < 0 || i >= es.len() {
        None
    } else if later_h1(es, i) {
        Some(access_violation(path, es[i].markup@, "Has multiple h1 headings"@))
    } else {
        h1_rule_from(path, es, i + 1)
    }
}

/// The verdict of the heading rule: at most one `h1` may exist, and the
/// second one in document order is the offender.
pub open spec fn h1_rule(path: Seq<char>, es: Seq<Elem>) -> Option<Violation> {
    h1_rule_from(path, es, 0)
}

/// Rejects documents with more than one `h1` heading.
pub fn check_page_doesnt_have_multiple_h1_elements(path: &str, doc: &Doc) -> (r: Result<
    (),
    CheckError,
>)
    requires
        doc.wf(),
    ensures
        outcome(r) == h1_rule(path@, doc.elems@),
{
    let ghost es = doc.elems@;
    let n = doc.elems.len();
    let mut i: usize = 0;
    let mut seen = false;
    while i < n
        invariant
            es == doc.elems@,
            n == es.len(),
            i <= n,
            seen == exists|j: int| 0 <= j < i && es[j].tag@ == "h1"@,
            h1_rule_from(path@, es, 0) == h1_rule_from(path@, es, i as int),
        decreases n - i,
    {
        if str_eq(doc.elems[i].tag.as_str(), "h1") {
            if seen {
                assert(later_h1(es, i as int));
                return Err(CheckError::AccessibilityError {
                    path: String::from_str(path),
                    offender: doc.elems[i].markup.clone(),
                    description: String::from_str("Has multiple h1 headings"),
                });
            }
            assert(forall|j: int| 0 <= j < i ==> es[j].tag@ != "h1"@);
            assert(!later_h1(es, i as int));
            seen = true;
        } else {
            assert(!later_h1(es, i as int));
        }
        assert(h1_rule_from(path@, es, i as int) == h1_rule_from(path@, es, i + 1 as int));
        i = i + 1;
    }
    Ok(())
}

/// Element `i` is a link without an `href` attribute.
pub open spec fn hrefless_link(es: Seq<Elem>, i: int) -> bool {
    &&& es[i].tag@ == "a"@
    &&& !has_attr(es[i], "href"@)
}

pub open spec fn href_rule_from(path: Seq<char>, es: Seq<Elem>, i: int) -> Option<Violation>
    decreases es.len() - i,
{
    if i < 0 || i >= es.len() {
        None
    } else if hrefless_link(es, i) {
        Some(access_violation(path, es[i].markup@, "Link is missing href attribute"@))
    } else {
        href_rule_from(path, es, i + 1)
    }
}

/// The verdict of the link rule: every `a` must carry an `href`.
pub open spec fn href_rule(path: Seq<char>, es: Seq<Elem>) -> Option<Violation> {
    href_rule_from(path, es, 0)
}

/// Rejects documents with a link that goes nowhere.
pub fn check_page_doesnt_have_hrefless_link(path: &str, doc: &Doc) -> (r: Result<(), CheckError>)
    requires
        doc.wf(),
    ensures
        outcome(r) == href_rule(path@, doc.elems@),
{
    let ghost es = doc.elems@;
    let n = doc.elems.len();
    let mut i: usize = 0;
    while i < n
        invariant
            es == doc.elems@,
            n == es.len(),
            i <= n,
            href_rule_from(path@, es, 0) == href_rule_from(path@, es, i as int),
        decreases n - i,
    {
        if str_eq(doc.elems[i].tag.as_str(), "a") && !elem_has_attr(&doc.elems[i], "href") {
            return Err(CheckError::AccessibilityError {
                path: String::from_str(path),
                offender: doc.elems[i].markup.clone(),
                description: String::from_str("Link is missing href attribute"),
            });
        }
        assert(href_rule_from(path@, es, i as int) == href_rule_from(path@, es, i + 1 as int));
        i = i + 1;
    }
    Ok(())
}

/// Element `i` is a `table` with no `caption` descendant.
pub open spec fn captionless_table(es: Seq<Elem>, i: int) -> bool {
    &&& 0 <= i < es.len()
    &&& es[i].tag@ == "table"@
    &&& !(exists|k: int| 0 <= k < es.len() && es[k].tag@ == "caption"@ && is_desc(es, i, k))
}

/// The verdict of the table rule: every table needs a caption.
pub open spec fn table_rule(path: Seq<char>, es: Seq<Elem>) -> Option<Violation> {
    if exists|i: int| captionless_table(es, i) {
        Some(access_violation(path, Seq::empty(), "Page contains table without caption"@))
    } else {
        None
    }
}

/// Rejects documents with a table that has no caption.
pub fn check_page_doesnt_have_captionless_table(path: &str, doc: &Doc) -> (r: Result<
    (),
    CheckError,
>)
    requires
        doc.wf(),
    ensures
        outcome(r) == table_rule(path@, doc.elems@),
{
    let ghost es = doc.elems@;
    let n = doc.elems.len();
    let mut i: usize = 0;
    while i < n
        invariant
            es == doc.elems@,
            n == es.len(),
            i <= n,
            doc.wf(),
            forall|a: int| 0 <= a < i ==> !captionless_table(es, a),
        decreases n - i,
    {
        if str_eq(doc.elems[i].tag.as_str(), "table") {
            let mut k: usize = 0;
            let mut found = false;
            while k < n && !found
                invariant
                    es == doc.elems@,
                    n == es.len(),
                    k <= n,
                    i < n,
                    doc.wf(),
                    found ==> exists|c: int|
                        0 <= c < es.len() && es[c].tag@ == "caption"@ && is_desc(es, i as int, c),
                    !found ==> forall|c: int|
                        0 <= c < k ==> !(es[c].tag@ == "caption"@ && is_desc(es, i as int, c)),
                decreases n - k,
            {
                if str_eq(doc.elems[k].tag.as_str(), "caption") && is_descendant(doc, i, k) {
                    found = true;
                }
                k = k + 1;
            }
            if !found {
                assert(captionless_table(es, i as int));
                return Err(CheckError::AccessibilityError {
                    path: String::from_str(path),
                    offender: String::new(),
                    description: String::from_str("Page contains table without caption"),
                });
            }
        }
        i = i + 1;
    }
    Ok(())
}

/// Element `i` is a `figure` with no `figcaption` descendant.
pub open spec fn captionless_figure(es: Seq<Elem>, i: int) -> bool {
    &&& 0 <= i < es.len()
    &&& es[i].tag@ == "figure"@
    &&& !(exists|k: int| 0 <= k < es.len() && es[k].tag@ == "figcaption"@ && is_desc(es, i, k))
}

/// The verdict of the figure rule: every figure needs a caption.
pub open spec fn figure_rule(path: Seq<char>, es: Seq<Elem>) -> Option<Violation> {
    if exists|i: int| captionless_figure(es, i) {
        Some(access_violation(path, Seq::empty(), "Page contains figure without caption"@))
    } else {
        None
    }
}

/// Rejects documents with a figure that has no caption.
pub fn check_page_doesnt_have_captionless_figure(path: &str, doc: &Doc) -> (r: Result<
    (),
    CheckError,
>)
    requires
        doc.wf(),
    ensures
        outcome(r) == figure_rule(path@, doc.elems@),
{
    let ghost es = doc.elems@;
    let n = doc.elems.len();
    let mut i: usize = 0;
    while i < n
        invariant
            es == doc.elems@,
            n == es.len(),
            i <= n,
            doc.wf(),
            forall|a: int| 0 <= a < i ==> !captionless_figure(es, a),
        decreases n - i,
    {
        if str_eq(doc.elems[i].tag.as_str(), "figure") {
            let mut k: usize = 0;
            let mut found = false;
            while k < n && !found
                invariant
                    es == doc.elems@,
                    n == es.len(),
                    k <= n,
                    i < n,
                    doc.wf(),
                    found ==> exists|c: int|
                        0 <= c < es.len() && es[c].tag@ == "figcaption"@ && is_desc(es, i as int, c),
                    !found ==> forall|c: int|
                        0 <= c < k ==> !(es[c].tag@ == "figcaption"@ && is_desc(es, i as int, c)),
                decreases n - k,
            {
                if str_eq(doc.elems[k].tag.as_str(), "figcaption") && is_descendant(doc, i, k) {
                    found = true;
                }
                k = k + 1;
            }
            if !found {
                assert(captionless_figure(es, i as int));
                return Err(CheckError::AccessibilityError {
                    path: String::from_str(path),
                    offender: String::new(),
                    description: String::from_str("Page contains figure without caption"),
                });
            }
        }
        i = i + 1;
    }
    Ok(())
}

/// There is a `label` for `id` inside form `f`.
pub open spec fn label_for_in_form(es: Seq<Elem>, f: int, id: Seq<char>) -> bool {
    exists|l: int|
        0 <= l < es.len() && es[l].tag@ == "label"@ && is_desc(es, f, l) && attr_of(es[l], "for"@)
            == Some(id)
}

/// Element `j` is an `input` with an `id`, inside some `form` that holds no
/// matching `label`.
pub open spec fn unlabelled_input(es: Seq<Elem>, j: int) -> bool {
    &&& 0 <= j < es.len()
    &&& es[j].tag@ == "input"@
    &&& match attr_of(es[j], "id"@) {
        Some(id) => exists|f: int|
            0 <= f < es.len() && es[f].tag@ == "form"@ && is_desc(es, f, j) && !label_for_in_form(
                es,
                f,
                id,
            ),
        None => false,
    }
}

/// The offender reported for an unlabelled input: its `id` attribute,
/// rendered as `id="..."`.
pub open spec fn unlabelled_offender(es: Seq<Elem>, j: int) -> Seq<char> {
    match attr_of(es[j], "id"@) {
        Some(id) => "id=\""@ + id + "\""@,
        None => Seq::empty(),
    }
}

pub open spec fn form_rule_from(path: Seq<char>, es: Seq<Elem>, j: int) -> Option<Violation>
    decreases es.len() - j,
{
    if j < 0 || j >= es.len() {
        None
    } else if unlabelled_input(es, j) {
        Some(access_violation(path, unlabelled_offender(es, j), "Form element without label attr"@))
    } else {
        form_rule_from(path, es, j + 1)
    }
}

/// The verdict of the form rule: within each form, every input bearing an
/// `id` needs a label whose `for` names that id.
pub open spec fn form_rule(path: Seq<char>, es: Seq<Elem>) -> Option<Violation> {
    form_rule_from(path, es, 0)
}

/// Rejects documents with a form input that no label names.
pub fn check_page_doesnt_have_labelless_form_elements(path: &str, doc: &Doc) -> (r: Result<
    (),
    CheckError,
>)
    requires
        doc.wf(),
    ensures
        outcome(r) == form_rule(path@, doc.elems@),
{
    let ghost es = doc.elems@;
    let n = doc.elems.len();
    let mut j: usize = 0;
    while j < n
        invariant
            es == doc.elems@,
            n == es.len(),
            j <= n,
            doc.wf(),
            form_rule_from(path@, es, 0) == form_rule_from(path@, es, j as int),
        decreases n - j,
    {
        if str_eq(doc.elems[j].tag.as_str(), "input") {
            match get_attr(&doc.elems[j], "id") {
                Some(id) => {
                    let id_view = Ghost(id@);
                    let mut f: usize = 0;
                    while f < n
                        invariant
                            es == doc.elems@,
                            n == es.len(),
                            f <= n,
                            j < n,
                            doc.wf(),
                            es[j as int].tag@ == "input"@,
                            id@ == id_view@,
                            attr_of(es[j as int], "id"@) == Some(id_view@),
                            form_rule_from(path@, es, 0) == form_rule_from(path@, es, j as int),
                            forall|a: int|
                                0 <= a < f ==> !(es[a].tag@ == "form"@ && is_desc(es, a, j as int)
                                    && !label_for_in_form(es, a, id_view@)),
                        decreases n - f,
                    {
                        if str_eq(doc.elems[f].tag.as_str(), "form") && is_descendant(doc, f, j) {
                            let mut l: usize = 0;
                            let mut labelled = false;
                            while l < n && !labelled
                                invariant
                                    es == doc.elems@,
                                    n == es.len(),
                                    l <= n,
                                    f < n,
                                    j < n,
                                    doc.wf(),
                                    id@ == id_view@,
                                    attr_of(es[j as int], "id"@) == Some(id_view@),
                                    labelled ==> label_for_in_form(es, f as int, id_view@),
                                    !labelled ==> forall|c: int|
                                        0 <= c < l ==> !(es[c].tag@ == "label"@ && is_desc(
                                            es,
                                            f as int,
                                            c,
                                        ) && attr_of(es[c], "for"@) == Some(id_view@)),
                                decreases n - l,
                            {
                                let mut hit = false;
                                if str_eq(doc.elems[l].tag.as_str(), "label") && is_descendant(
                                    doc,
                                    f,
                                    l,
                                ) {
                                    match get_attr(&doc.elems[l], "for") {
                                        Some(fv) => {
                                            if str_eq(fv.as_str(), id.as_str()) {
                                                hit = true;
                                            }
                                        },
                                        None => {},
                                    }
                                }
                                if hit {
                                    assert(es[l as int].tag@ == "label"@ && is_desc(
                                        es,
                                        f as int,
                                        l as int,
                                    ) && attr_of(es[l as int], "for"@) == Some(id_view@));
                                    assert(label_for_in_form(es, f as int, id_view@));
                                    labelled = true;
                                }
                                l = l + 1;
                            }
                            if !labelled {
                                assert(!label_for_in_form(es, f as int, id_view@));
                                assert(es[f as int].tag@ == "form"@ && is_desc(
                                    es,
                                    f as int,
                                    j as int,
                                ) && !label_for_in_form(es, f as int, id_view@));
                                assert(unlabelled_input(es, j as int));
                                let mut off = String::from_str("id=\"");
                                off.append(id.as_str());
                                off.append("\"");
                                assert(off@ == unlabelled_offender(es, j as int));
                                return Err(CheckError::AccessibilityError {
                                    path: String::from_str(path),
                                    offender: off,
                                    description: String::from_str(
                                        "Form element without label attr",
                                    ),
                                });
                            }
                        }
                        f = f + 1;
                    }
                    assert(!unlabelled_input(es, j as int));
                },
                None => {
                    assert(!unlabelled_input(es, j as int));
                },
            }
        } else {
            assert(!unlabelled_input(es, j as int));
        }
        assert(form_rule_from(path@, es, j as int) == form_rule_from(path@, es, j + 1 as int));
        j = j + 1;
    }
    Ok(())
}

/// Element `i` carries an `autoplay` attribute.
pub open spec fn has_autoplay(es: Seq<Elem>, i: int) -> bool {
    has_attr(es[i], "autoplay"@)
}

pub open spec fn autoplay_rule_from(path: Seq<char>, es: Seq<Elem>, i: int) -> Option<Violation>
    decreases es.len() - i,
{
    if i < 0 || i >= es.len() {
        None
    } else if has_autoplay(es, i) {
        Some(access_violation(path, es[i].markup@, "Page has media with autoplay enabled"@))
    } else {
        autoplay_rule_from(path, es, i + 1)
    }
}

/// The verdict of the autoplay rule: no media may start on its own.
pub open spec fn autoplay_rule(path: Seq<char>, es: Seq<Elem>) -> Option<Violation> {
    autoplay_rule_from(path, es, 0)
}

/// Rejects documents with media that plays automatically.
pub fn check_page_doesnt_have_autoplay_media(path: &str, doc: &Doc) -> (r: Result<(), CheckError>)
    requires
        doc.wf(),
    ensures
        outcome(r) == autoplay_rule(path@, doc.elems@),
{
    let ghost es = doc.elems@;
    let n = doc.elems.len();
    let mut i: usize = 0;
    while i < n
        invariant
            es == doc.elems@,
            n == es.len(),
            i <= n,
            autoplay_rule_from(path@, es, 0) == autoplay_rule_from(path@, es, i as int),
        decreases n - i,
    {
        if elem_has_attr(&doc.elems[i], "autoplay") {
            return Err(CheckError::AccessibilityError {
                path: String::from_str(path),
                offender: doc.elems[i].markup.clone(),
                description: String::from_str("Page has media with autoplay enabled"),
            });
        }
        assert(autoplay_rule_from(path@, es, i as int) == autoplay_rule_from(
            path@,
            es,
            i + 1 as int,
        ));
        i = i + 1;
    }
    Ok(())
}

// ---------------------------------------------------------------------------
// The pipeline
// ---------------------------------------------------------------------------
/// The first failing verdict of two.
pub open spec fn first_of(a: Option<Violation>, b: Option<Violation>) -> Option<Violation> {
    if a is Some {
        a
    } else {
        b
    }
}

/// The verdict of the whole document battery, in the fixed rule order.
pub open spec fn document_rules(path: Seq<char>, es: Seq<Elem>) -> Option<Violation> {
    first_of(
        forbidden_tag_rule(path, es),
        first_of(
            publish_date_rule(path, es),
            first_of(
                img_rule(path, es),
                first_of(
                    title_attr_rule(path, es),
                    first_of(
                        zoom_rule(path, es),
                        first_of(
                            page_title_rule(path, es),
                            first_of(
                                lang_rule(path, es),
                                first_of(
                                    tabindex_rule(path, es),
                                    first_of(
                                        autofocus_rule(path, es),
                                        first_of(
                                            h1_rule(path, es),
                                            first_of(
                                                href_rule(path, es),
                                                first_of(
                                                    table_rule(path, es),
                                                    first_of(
                                                        figure_rule(path, es),
                                                        first_of(
                                                            form_rule(path, es),
                                                            autoplay_rule(path, es),
                                                        ),
                                                    ),
                                                ),
                                            ),
                                        ),
                                    ),
                                ),
                            ),
                        ),
                    ),
                ),
            ),
        ),
    )
}

/// The verdict for one HTML file: the location policy first, then the
/// document battery.
pub open spec fn html_file_rules(path: Seq<char>, es: Seq<Elem>) -> Option<Violation> {
    first_of(forbidden_file_rule(path), document_rules(path, es))
}

/// Runs the document battery against an already-loaded document, stopping
/// at the first failing rule.
pub fn check_document(path: &str, doc: &Doc) -> (r: Result<(), CheckError>)
    requires
        doc.wf(),
    ensures
        outcome(r) == document_rules(path@, doc.elems@),
{
    check_forbidden_tags(path, doc)?;
    check_for_invalid_publish_dates(path, doc)?;
    check_img_tags_have_alts(path, doc)?;
    check_tags_dont_have_title_attr(path, doc)?;
    check_page_doesnt_disabe_zoom(path, doc)?;
    check_page_has_title(path, doc)?;
    check_page_has_lang_attr(path, doc)?;
    check_page_doesnt_have_positive_tabindex(path, doc)?;
    check_page_doesnt_have_autofocus(path, doc)?;
    check_page_doesnt_have_multiple_h1_elements(path, doc)?;
    check_page_doesnt_have_hrefless_link(path, doc)?;
    check_page_doesnt_have_captionless_table(path, doc)?;
    check_page_doesnt_have_captionless_figure(path, doc)?;
    check_page_doesnt_have_labelless_form_elements(path, doc)?;
    check_page_doesnt_have_autoplay_media(path, doc)?;
    Ok(())
}

/// Checks one HTML file: its location first, then the loaded document.
pub fn check_html_file(path: &str, doc: &Doc) -> (r: Result<(), CheckError>)
    requires
        doc.wf(),
    ensures
        outcome(r) == html_file_rules(path@, doc.elems@),
{
    check_for_forbidden_files(path)?;
    check_document(path, doc)
}

} // verus!

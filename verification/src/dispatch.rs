//! The dispatcher: routes a path to the applicable rule pipeline based
//! solely on its extension, after the exclusion filter has had its say.

use vstd::prelude::*;

use crate::dom::Doc;
use crate::error::{CheckError, Violation, outcome};
use crate::exclude::{excluded, is_excluded};
use crate::paths::{is_html_path, is_html_file};
use crate::rules::{first_of, forbidden_file_rule, document_rules, check_for_forbidden_files,
    check_document};
use crate::scan::line_end_from;

verus! {

/// The configuration of one run: the root to scan, and at most one
/// exclusion pattern.
pub struct ReaderConfig {
    pub root_dir: String,
    pub exclude: Option<String>,
}

impl Default for ReaderConfig {
    /// The default configuration scans `./public` and excludes nothing.
    fn default() -> (c: Self)
        ensures
            c.root_dir@ == "./public"@,
            c.exclude is None,
    {
        ReaderConfig { root_dir: String::from_str("./public"), exclude: None }
    }
}

impl ReaderConfig {
    /// Builds a configuration from the text of a configuration file, whose
    /// first line names the root directory.
    pub fn from_text(text: &str, exclude: Option<String>) -> (c: Self)
        ensures
            c.root_dir@ == text@.subrange(0, line_end_from(text@, 0)),
            c.exclude == exclude,
    {
        let n = text.unicode_len();
        let mut i: usize = 0;
        while i < n && text.get_char(i) != '\n'
            invariant
                n == text@.len(),
                i <= n,
                line_end_from(text@, 0) == line_end_from(text@, i as int),
            decreases n - i,
        {
            i = i + 1;
        }
        assert(line_end_from(text@, i as int) == i);
        let root = text.substring_char(0, i);
        ReaderConfig { root_dir: root.to_owned(), exclude }
    }
}

/// Whether the pipeline for `path` will need a loaded document: the path is
/// not excluded and names an HTML file.
pub fn requires_document(path: &str, conf: &ReaderConfig) -> (b: bool)
    ensures
        b == (!excluded(conf.exclude, path@) && is_html_path(path@)),
{
    !is_excluded(&conf.exclude, path) && is_html_file(path)
}

/// The verdict for one discovered path: excluded paths and paths of other
/// content types pass trivially; an HTML path is held to the location
/// policy, then its loaded document to the whole battery; a document that
/// could not be loaded is an I/O failure.
pub open spec fn file_verdict(
    conf: &ReaderConfig,
    path: Seq<char>,
    loaded: Result<&Doc, &String>,
) -> Option<Violation> {
    if excluded(conf.exclude, path) {
        None
    } else if !is_html_path(path) {
        None
    } else {
        first_of(
            forbidden_file_rule(path),
            match loaded {
                Ok(d) => document_rules(path, d.elems@),
                Err(cause) => Some(Violation::Io { cause: cause@ }),
            },
        )
    }
}

/// Checks one discovered path, given the loader's outcome for it.
pub fn check_file(path: &str, conf: &ReaderConfig, loaded: Result<&Doc, &String>) -> (r: Result<
    (),
    CheckError,
>)
    requires
        match loaded {
            Ok(d) => d.wf(),
            Err(_) => true,
        },
    ensures
        outcome(r) == file_verdict(conf, path@, loaded),
{
    if is_excluded(&conf.exclude, path) {
        return Ok(());
    }
    if !is_html_file(path) {
        return Ok(());
    }
    check_for_forbidden_files(path)?;
    match loaded {
        Ok(d) => check_document(path, d),
        Err(cause) => Err(CheckError::Io { cause: cause.clone() }),
    }
}

} // verus!

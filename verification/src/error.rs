//! The structured error model: one value per detected violation.

use vstd::prelude::*;

verus! {

/// Ghost-level description of a violation, used in contracts.
///
/// `CheckError` values are viewed as `Violation`s, so that every rule can
/// state exactly which violation it reports without mentioning executable
/// strings.
pub enum Violation {
    ForbiddenFile { path: Seq<char> },
    Content { path: Seq<char>, offender: Seq<char>, description: Seq<char> },
    Accessibility { path: Seq<char>, offender: Seq<char>, description: Seq<char> },
    Io { cause: Seq<char> },
}

/// One detected violation, or the reason a file could not be checked.
///
/// Every content and accessibility variant carries the offending fragment
/// (serialized markup, a tag slug, a date string, or an empty string when no
/// single element is culpable) and a human-readable description.
#[derive(Debug)]
pub enum CheckError {
    ForbiddenFile { path: String },
    ContentError { path: String, offender: String, description: String },
    AccessibilityError { path: String, offender: String, description: String },
    Io { cause: String },
}

impl View for CheckError {
    type V = Violation;

    open spec fn view(&self) -> Violation {
        match self {
            CheckError::ForbiddenFile { path } => Violation::ForbiddenFile { path: path@ },
            CheckError::ContentError { path, offender, description } => Violation::Content {
                path: path@,
                offender: offender@,
                description: description@,
            },
            CheckError::AccessibilityError { path, offender, description } => Violation::Accessibility {
                path: path@,
                offender: offender@,
                description: description@,
            },
            CheckError::Io { cause } => Violation::Io { cause: cause@ },
        }
    }
}

/// The outcome of checking one file, as contracts speak of it: `None` for a
/// pass, `Some(v)` for the violation that was reported.
pub open spec fn outcome(r: Result<(), CheckError>) -> Option<Violation> {
    match r {
        Ok(()) => None,
        Err(e) => Some(e@),
    }
}

/// Whether two violations are considered equal.  All I/O failures count as
/// equal to each other, whatever their cause.
pub open spec fn violation_eq(a: Violation, b: Violation) -> bool {
    match (a, b) {
        (Violation::ForbiddenFile { path: pa }, Violation::ForbiddenFile { path: pb }) => pa == pb,
        (
            Violation::Content { path: pa, offender: oa, description: da },
            Violation::Content { path: pb, offender: ob, description: db },
        ) => pa == pb && oa == ob && da == db,
        (
            Violation::Accessibility { path: pa, offender: oa, description: da },
            Violation::Accessibility { path: pb, offender: ob, description: db },
        ) => pa == pb && oa == ob && da == db,
        (Violation::Io { .. }, Violation::Io { .. }) => true,
        _ => false,
    }
}

impl PartialEq for CheckError {
    fn eq(&self, other: &Self) -> (r: bool) {
        match (self, other) {
            (CheckError::ForbiddenFile { path: pa }, CheckError::ForbiddenFile { path: pb }) => *pa
                == *pb,
            (
                CheckError::ContentError { path: pa, offender: oa, description: da },
                CheckError::ContentError { path: pb, offender: ob, description: db },
            ) => *pa == *pb && *oa == *ob && *da == *db,
            (
                CheckError::AccessibilityError { path: pa, offender: oa, description: da },
                CheckError::AccessibilityError { path: pb, offender: ob, description: db },
            ) => *pa == *pb && *oa == *ob && *da == *db,
            (CheckError::Io { .. }, CheckError::Io { .. }) => true,
            _ => false,
        }
    }
}

impl vstd::std_specs::cmp::PartialEqSpecImpl for CheckError {
    open spec fn obeys_eq_spec() -> bool {
        true
    }

    open spec fn eq_spec(&self, other: &Self) -> bool {
        violation_eq(self@, other@)
    }
}

/// The reported message for a violation, in the fixed formats the reporter
/// relies on.
pub open spec fn message_of(v: Violation) -> Seq<char> {
    match v {
        Violation::ForbiddenFile { path } => "Found forbidden file: "@ + path,
        Violation::Content { path, offender, description } => "Found content error: ["@
            + description + offender + "], in file "@ + path,
        Violation::Accessibility { path, offender, description } => "Found accessibility error: ["@
            + description + offender + "], in file "@ + path,
        Violation::Io { cause } => cause,
    }
}

impl CheckError {
    /// Renders this error as the one-line report message.
    pub fn message(&self) -> (r: String)
        ensures
            r@ == message_of(self@),
    {
        match self {
            CheckError::ForbiddenFile { path } => {
                let mut s = String::from_str("Found forbidden file: ");
                s.append(path.as_str());
                s
            },
            CheckError::ContentError { path, offender, description } => {
                let mut s = String::from_str("Found content error: [");
                s.append(description.as_str());
                s.append(offender.as_str());
                s.append("], in file ");
                s.append(path.as_str());
                s
            },
            CheckError::AccessibilityError { path, offender, description } => {
                let mut s = String::from_str("Found accessibility error: [");
                s.append(description.as_str());
                s.append(offender.as_str());
                s.append("], in file ");
                s.append(path.as_str());
                s
            },
            CheckError::Io { cause } => cause.clone(),
        }
    }
}

} // verus!

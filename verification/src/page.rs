//! The content-page model and the identifier resolver.
//!
//! A page is an opaque content record; the core reads only its identity,
//! title, description, optional entry date, optional slug, optional publish
//! timestamp, last-edited timestamp and optional cover reference. Rich-text
//! fields appear twice: as plain text and as externally rendered inline
//! markup, because converting rich text to markup is an external
//! collaborator's job.

use vstd::prelude::*;
use vstd::string::StringExecFns;
use crate::date::{Date, DateTime, PageTime};
use crate::text::{format_day, spec_format_day};

verus! {

/// One content record, as handed in by the caller.
pub struct Page {
    /// Globally unique page identity (a 128-bit identifier).
    pub id: u128,
    /// The title, as plain text.
    pub title: String,
    /// The title, as externally rendered inline markup.
    pub title_html: String,
    /// The description, as plain text.
    pub description: String,
    /// The slug; an empty string means the page has none.
    pub url: String,
    /// The entry date anchoring the page in the archive hierarchy, if any.
    pub date: Option<PageTime>,
    /// The publish timestamp controlling feed visibility, if any.
    pub published: Option<PageTime>,
    /// When the page was last edited.
    pub last_edited: DateTime,
    /// The cover image's source path, already resolved by the caller.
    pub cover: Option<String>,
}

impl Page {
    /// Every date the page carries is a real calendar date.
    pub open spec fn wf(self) -> bool {
        &&& match self.date {
            Some(t) => t.wf(),
            None => true,
        }
        &&& match self.published {
            Some(t) => t.wf(),
            None => true,
        }
        &&& self.last_edited.wf()
    }
}

/// How a page is identified: by its entry date or by its slug.
#[derive(Debug, PartialEq, Eq)]
pub enum Identifier {
    Date(Date),
    Slug(String),
}

/// Why a page failed classification.
#[derive(Clone, Copy, PartialEq, Eq, Structural, Debug)]
pub enum ClassifyError {
    /// The entry date carries a time component.
    DateWithTime { id: u128 },
    /// Both an entry date and a non-empty slug are present.
    AmbiguousIdentifier { id: u128 },
    /// Neither an entry date nor a slug is present.
    MissingIdentifier { id: u128 },
}

impl ClassifyError {
    /// The message for this error.
    pub open spec fn spec_message(self) -> Seq<char> {
        match self {
            ClassifyError::DateWithTime { .. } => "Diary dates must not contain time"@,
            ClassifyError::AmbiguousIdentifier { .. } => "Diary currently doesn't support rendering a page with both a date and a URL"@,
            ClassifyError::MissingIdentifier { .. } => "Diary pages must have either a date or a URL"@,
        }
    }

    pub fn message(&self) -> (r: String)
        ensures
            r@ == self.spec_message(),
    {
        match self {
            ClassifyError::DateWithTime { .. } => String::from_str(
                "Diary dates must not contain time",
            ),
            ClassifyError::AmbiguousIdentifier { .. } => String::from_str(
                "Diary currently doesn't support rendering a page with both a date and a URL",
            ),
            ClassifyError::MissingIdentifier { .. } => String::from_str(
                "Diary pages must have either a date or a URL",
            ),
        }
    }
}

/// The identifier resolver's verdict on one page: its canonical output path
/// and identifier, or the classification error. The rules apply in order:
/// an entry date with a time component is rejected first; then a page with
/// both a calendar date and a non-empty slug; then a page with neither.
pub open spec fn spec_classify(p: Page) -> Result<(Seq<char>, Identifier), ClassifyError> {
    match p.date {
        Some(PageTime::Moment(_)) => Err(ClassifyError::DateWithTime { id: p.id }),
        Some(PageTime::Day(d)) => if p.url@.len() > 0 {
            Err(ClassifyError::AmbiguousIdentifier { id: p.id })
        } else {
            Ok((spec_format_day(d, true), Identifier::Date(d)))
        },
        None => if p.url@.len() == 0 {
            Err(ClassifyError::MissingIdentifier { id: p.id })
        } else {
            Ok(("/"@ + p.url@, Identifier::Slug(p.url)))
        },
    }
}

/// Whether an executable classification result agrees with the resolver's
/// specification.
pub open spec fn classify_agrees(
    r: Result<(String, Identifier), ClassifyError>,
    s: Result<(Seq<char>, Identifier), ClassifyError>,
) -> bool {
    match (r, s) {
        (Ok((path, ident)), Ok((spath, sident))) => path@ == spath && ident == sident,
        (Err(e), Err(se)) => e == se,
        _ => false,
    }
}

/// Resolve one page to its canonical output path and identifier.
/// Pure: no side effects, a function of the one page alone.
pub fn classify(p: &Page) -> (r: Result<(String, Identifier), ClassifyError>)
    requires
        p.wf(),
    ensures
        classify_agrees(r, spec_classify(*p)),
{
    match &p.date {
        Some(PageTime::Moment(_)) => Err(ClassifyError::DateWithTime { id: p.id }),
        Some(PageTime::Day(d)) => {
            if p.url.as_str().unicode_len() > 0 {
                Err(ClassifyError::AmbiguousIdentifier { id: p.id })
            } else {
                Ok((format_day(*d, true), Identifier::Date(*d)))
            }
        },
        None => {
            if p.url.as_str().unicode_len() == 0 {
                Err(ClassifyError::MissingIdentifier { id: p.id })
            } else {
                let mut path = String::from_str("/");
                path.append(p.url.as_str());
                Ok((path, Identifier::Slug(p.url.clone())))
            }
        },
    }
}

/// Law: a page with neither an entry date nor a slug fails classification
/// with a missing-identifier error.
pub proof fn lemma_classify_missing_identifier(p: Page)
    requires
        p.date is None,
        p.url@.len() == 0,
    ensures
        spec_classify(p) == Err::<(Seq<char>, Identifier), _>(
            ClassifyError::MissingIdentifier { id: p.id },
        ),
{
}

/// Law: a page with both a calendar entry date and a non-empty slug fails
/// classification with an ambiguous-identifier error. (A page whose date
/// also carries a time component is rejected as such first, slug or not.)
pub proof fn lemma_classify_ambiguous(p: Page, d: Date)
    requires
        p.date == Some(PageTime::Day(d)),
        p.url@.len() > 0,
    ensures
        spec_classify(p) == Err::<(Seq<char>, Identifier), _>(
            ClassifyError::AmbiguousIdentifier { id: p.id },
        ),
{
}

/// Law: a page whose entry date carries a time component fails
/// classification with a date-with-time error, whatever else it carries.
pub proof fn lemma_classify_date_with_time(p: Page, m: DateTime)
    requires
        p.date == Some(PageTime::Moment(m)),
    ensures
        spec_classify(p) == Err::<(Seq<char>, Identifier), _>(
            ClassifyError::DateWithTime { id: p.id },
        ),
{
}

} // verus!

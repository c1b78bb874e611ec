//! What the title search knows about a film or a series.

use vstd::prelude::*;
use vstd::string::StringExecFns;
use crate::decimal::{format_i32, signed_decimal};

verus! {

/// Whether a scope holds a film or the episodes of a series.
#[derive(Clone, Copy, Debug, PartialEq, Eq, Structural)]
pub enum MediaKind {
    Movie,
    Show,
}

/// One search result: a title that a name may stand for.
#[derive(Clone, Debug, PartialEq, Eq)]
pub struct Candidate {
    /// The identifier under which the title service lists the title.
    pub id: i32,
    /// The display title of a film, or the name of a series.
    pub title: String,
    /// The language the title was first released in, if known.
    pub original_language: Option<String>,
    /// The release date of a film or the first air date of a series, as
    /// `year-month-day`, if known.
    pub release_date: Option<String>,
    pub kind: MediaKind,
}

/// A `Candidate` as plain values.
pub struct CandidateView {
    pub id: int,
    pub title: Seq<char>,
    pub original_language: Option<Seq<char>>,
    pub release_date: Option<Seq<char>>,
    pub kind: MediaKind,
}

impl View for Candidate {
    type V = CandidateView;

    open spec fn view(&self) -> CandidateView {
        CandidateView {
            id: self.id as int,
            title: self.title@,
            original_language: self.original_language.deep_view(),
            release_date: self.release_date.deep_view(),
            kind: self.kind,
        }
    }
}

impl DeepView for Candidate {
    type V = CandidateView;

    open spec fn deep_view(&self) -> CandidateView {
        self.view()
    }
}

/// The line that presents a candidate to the person choosing: title, date
/// (or `unknown`), language and identifier.
pub open spec fn label_of(c: CandidateView) -> Seq<char>
    recommends
        c.original_language is Some,
{
    c.title + " ("@ + (match c.release_date {
        Some(date) => date,
        None => "unknown"@,
    }) + ", "@ + c.original_language.unwrap() + ") (ID: "@ + signed_decimal(c.id) + ")"@
}

impl Candidate {
    /// The line that presents this candidate to the person choosing.
    pub fn label(&self) -> (line: String)
        requires
            self.original_language is Some,
        ensures
            line@ == label_of(self@),
    {
        let mut line = String::from_str(self.title.as_str());
        line.append(" (");
        match &self.release_date {
            Some(date) => line.append(date.as_str()),
            None => line.append("unknown"),
        }
        line.append(", ");
        match &self.original_language {
            Some(language) => line.append(language.as_str()),
            None => {},
        }
        line.append(") (ID: ");
        let id = format_i32(self.id);
        line.append(id.as_str());
        line.append(")");
        line
    }
}

} // verus!

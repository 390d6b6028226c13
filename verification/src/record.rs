//! The record parsed from one profile page, and what one target yields.

use vstd::prelude::*;
use vstd::string::*;
use crate::text::{decimal, opt_text, opt_texts, push_decimal, texts};

verus! {

/// The fields read from one profile page. Any of them may be missing.
#[derive(Debug, Clone, PartialEq, Eq)]
pub struct UserInfo {
    pub name: Option<String>,
    pub xp: Option<u64>,
    pub date: Option<String>,
    pub previous_names: Option<Vec<String>>,
}

/// A record as plain values.
pub ghost struct UserInfoView {
    pub name: Option<Seq<char>>,
    pub xp: Option<u64>,
    pub date: Option<Seq<char>>,
    pub previous_names: Option<Seq<Seq<char>>>,
}

impl View for UserInfo {
    type V = UserInfoView;

    open spec fn view(&self) -> UserInfoView {
        UserInfoView {
            name: opt_text(self.name),
            xp: self.xp,
            date: opt_text(self.date),
            previous_names: opt_texts(self.previous_names),
        }
    }
}

/// Why a target gave no record.
#[derive(Debug, Clone, Copy, PartialEq, Eq, Structural)]
pub enum FetchError {
    /// The page could not be fetched or its body could not be decoded.
    Transport,
    /// The experience value on the page is not a number.
    MalformedXp,
}

/// What one target yields.
#[derive(Debug, Clone, PartialEq, Eq)]
pub enum PipelineResult {
    Success(UserInfo),
    Failure(FetchError),
}

/// A pipeline result as plain values.
pub ghost enum PipelineResultView {
    Success(UserInfoView),
    Failure(FetchError),
}

impl View for PipelineResult {
    type V = PipelineResultView;

    open spec fn view(&self) -> PipelineResultView {
        match self {
            PipelineResult::Success(u) => PipelineResultView::Success(u@),
            PipelineResult::Failure(e) => PipelineResultView::Failure(*e),
        }
    }
}

/// The text of a list of strings in the standard debug format.
pub uninterp spec fn debug_list_text(names: Seq<Seq<char>>) -> Seq<char>;

/// `format!("{:?}", names)` of the standard library: the debug rendering of
/// a vector of strings, which is a bracketed list of the strings, each quoted
/// and escaped. Nothing is proved of it. The contract only gives the text a
/// name: it is the same for the same strings.
#[verifier::external_body]
fn debug_list(names: &Vec<String>) -> (r: String)
    ensures
        r@ == debug_list_text(texts(names@)),
{
    format!("{:?}", names)
}

/// A text field, or the word that marks its absence.
pub open spec fn text_or_none(s: Option<Seq<char>>) -> Seq<char> {
    match s {
        Some(t) => t,
        None => "None"@,
    }
}

/// The experience value in decimal, or the word that marks its absence.
pub open spec fn xp_text(xp: Option<u64>) -> Seq<char> {
    match xp {
        Some(n) => decimal(n as nat),
        None => "None"@,
    }
}

/// The previous names as a list; a missing list reads as an empty pair of
/// brackets.
pub open spec fn names_text(names: Option<Seq<Seq<char>>>) -> Seq<char> {
    match names {
        Some(l) => debug_list_text(l),
        None => "[]"@,
    }
}

/// The output line of a record: name, date, experience and previous names,
/// separated by `" - "`.
pub open spec fn line_text(u: UserInfoView) -> Seq<char> {
    text_or_none(u.name) + " - "@ + text_or_none(u.date) + " - "@ + xp_text(u.xp) + " - "@
        + names_text(u.previous_names)
}

fn push_text_or_none(out: &mut String, field: &Option<String>)
    ensures
        final(out)@ == old(out)@ + text_or_none(opt_text(*field)),
{
    match field {
        Some(s) => out.append(s.as_str()),
        None => out.append("None"),
    }
}

impl UserInfo {
    /// Whether the record carries a name. One without counts as a miss.
    pub fn has_name(&self) -> (r: bool)
        ensures
            r == (self@.name is Some),
    {
        self.name.is_some()
    }

    /// The record as one output line.
    pub fn to_line(&self) -> (r: String)
        ensures
            r@ == line_text(self@),
    {
        let mut out = String::new();
        push_text_or_none(&mut out, &self.name);
        out.append(" - ");
        push_text_or_none(&mut out, &self.date);
        out.append(" - ");
        match self.xp {
            Some(n) => push_decimal(&mut out, n as u128),
            None => out.append("None"),
        }
        out.append(" - ");
        match &self.previous_names {
            Some(v) => {
                let names = debug_list(v);
                out.append(names.as_str());
            },
            None => out.append("[]"),
        }
        assert(out@ =~= line_text(self@));
        out
    }
}

} // verus!

//! A newsletter as it is submitted and as it is stored once published.

use crate::text::{blank, is_blank};
use vstd::prelude::*;
use vstd::string::*;

verus! {

/// The content of a newsletter: a title and the body in two forms.
#[derive(Debug)]
pub struct Newsletter {
    pub title: String,
    pub html_content: String,
    pub text_content: String,
}

/// What a `Newsletter` holds.
pub struct NewsletterView {
    pub title: Seq<char>,
    pub html_content: Seq<char>,
    pub text_content: Seq<char>,
}

impl View for Newsletter {
    type V = NewsletterView;

    open spec fn view(&self) -> NewsletterView {
        NewsletterView {
            title: self.title@,
            html_content: self.html_content@,
            text_content: self.text_content@,
        }
    }
}

/// Which field of a submitted newsletter is blank.
#[derive(Clone, Copy, Debug, PartialEq, Eq, Structural)]
pub enum NewsletterError {
    EmptyTitle,
    EmptyHtmlContent,
    EmptyTextContent,
}

/// The first blank field of a submission, in the order title, HTML body, text
/// body; `None` when no field is blank.
pub open spec fn newsletter_fault(title: Seq<char>, html_content: Seq<char>, text_content: Seq<char>)
    -> Option<NewsletterError> {
    if is_blank(title) {
        Some(NewsletterError::EmptyTitle)
    } else if is_blank(html_content) {
        Some(NewsletterError::EmptyHtmlContent)
    } else if is_blank(text_content) {
        Some(NewsletterError::EmptyTextContent)
    } else {
        None
    }
}

impl NewsletterError {
    /// The notice shown to the author of the submission.
    pub fn notice(&self) -> (text: &'static str)
        ensures
            text@ == match self {
                NewsletterError::EmptyTitle => "Title cannot be empty."@,
                NewsletterError::EmptyHtmlContent => "Html content cannot be empty."@,
                NewsletterError::EmptyTextContent => "Plain text content cannot be empty."@,
            },
    {
        match self {
            NewsletterError::EmptyTitle => "Title cannot be empty.",
            NewsletterError::EmptyHtmlContent => "Html content cannot be empty.",
            NewsletterError::EmptyTextContent => "Plain text content cannot be empty.",
        }
    }

    /// The error's own description.
    pub fn description(&self) -> (text: &'static str)
        ensures
            text@ == match self {
                NewsletterError::EmptyTitle => "Title is empty"@,
                NewsletterError::EmptyHtmlContent => "Html content is empty"@,
                NewsletterError::EmptyTextContent => "Plain text content is empty"@,
            },
    {
        match self {
            NewsletterError::EmptyTitle => "Title is empty",
            NewsletterError::EmptyHtmlContent => "Html content is empty",
            NewsletterError::EmptyTextContent => "Plain text content is empty",
        }
    }
}

impl Newsletter {
    /// Accepts a submission exactly when none of its fields is blank, and
    /// names the first blank field otherwise. The fields are kept as they
    /// were submitted.
    pub fn try_from(title: String, html_content: String, text_content: String) -> (r: Result<
        Newsletter,
        NewsletterError,
    >)
        ensures
            match r {
                Ok(newsletter) => newsletter_fault(title@, html_content@, text_content@) is None
                    && newsletter@ == (NewsletterView {
                    title: title@,
                    html_content: html_content@,
                    text_content: text_content@,
                }),
                Err(e) => newsletter_fault(title@, html_content@, text_content@) == Some(e),
            },
    {
        if blank(title.as_str()) {
            Err(NewsletterError::EmptyTitle)
        } else if blank(html_content.as_str()) {
            Err(NewsletterError::EmptyHtmlContent)
        } else if blank(text_content.as_str()) {
            Err(NewsletterError::EmptyTextContent)
        } else {
            Ok(Newsletter { title, html_content, text_content })
        }
    }
}

/// A published issue. It is written once and never changed.
#[derive(Debug)]
pub struct NewsletterIssue {
    pub newsletter_issue_id: u128,
    pub title: String,
    pub html_content: String,
    pub text_content: String,
    pub published_at: i64,
}

/// What a `NewsletterIssue` holds.
pub struct IssueView {
    pub id: u128,
    pub content: NewsletterView,
    pub published_at: i64,
}

impl View for NewsletterIssue {
    type V = IssueView;

    open spec fn view(&self) -> IssueView {
        IssueView {
            id: self.newsletter_issue_id,
            content: NewsletterView {
                title: self.title@,
                html_content: self.html_content@,
                text_content: self.text_content@,
            },
            published_at: self.published_at,
        }
    }
}

impl NewsletterIssue {
    /// The issue that publishing `newsletter` under `id` at `published_at`
    /// creates.
    pub fn new(id: u128, newsletter: &Newsletter, published_at: i64) -> (issue: NewsletterIssue)
        ensures
            issue@ == (IssueView { id, content: newsletter@, published_at }),
    {
        NewsletterIssue {
            newsletter_issue_id: id,
            title: newsletter.title.clone(),
            html_content: newsletter.html_content.clone(),
            text_content: newsletter.text_content.clone(),
            published_at,
        }
    }

    /// A copy of the issue.
    pub fn duplicate(&self) -> (issue: NewsletterIssue)
        ensures
            issue@ == self@,
    {
        NewsletterIssue {
            newsletter_issue_id: self.newsletter_issue_id,
            title: self.title.clone(),
            html_content: self.html_content.clone(),
            text_content: self.text_content.clone(),
            published_at: self.published_at,
        }
    }
}

} // verus!

//! The issue store: a durable, append-only record of published newsletter
//! issues. An issue is created exactly once per successful publish and never
//! changes afterwards.

use vstd::prelude::*;
use vstd::string::StringExecFns;

verus! {

/// The mathematical shape of one stored issue.
#[verifier::ext_equal]
pub struct IssueView {
    pub issue_id: u64,
    pub title: Seq<char>,
    pub text_content: Seq<char>,
    pub html_content: Seq<char>,
    pub published_at: u64,
}

/// One published newsletter issue.
pub struct NewsletterIssue {
    pub issue_id: u64,
    pub title: String,
    pub text_content: String,
    pub html_content: String,
    pub published_at: u64,
}

impl View for NewsletterIssue {
    type V = IssueView;

    open spec fn view(&self) -> IssueView {
        IssueView {
            issue_id: self.issue_id,
            title: self.title@,
            text_content: self.text_content@,
            html_content: self.html_content@,
            published_at: self.published_at,
        }
    }
}

/// The append-only store of published issues.
pub struct IssueStore {
    issues: Vec<NewsletterIssue>,
}

impl View for IssueStore {
    type V = Seq<IssueView>;

    closed spec fn view(&self) -> Seq<IssueView> {
        self.issues@.map_values(|iss: NewsletterIssue| iss@)
    }
}

impl IssueStore {
    /// Each issue is filed under its position, so identifiers are unique.
    pub open spec fn wf(&self) -> bool {
        forall|i: int| 0 <= i < self@.len() ==> (#[trigger] self@[i]).issue_id == i
    }

    /// An empty store.
    pub fn new() -> (r: IssueStore)
        ensures
            r.wf(),
            r@ == Seq::<IssueView>::empty(),
    {
        let r = IssueStore { issues: Vec::new() };
        proof {
            assert(r@ =~= Seq::<IssueView>::empty());
        }
        r
    }

    /// How many issues were published.
    pub fn len(&self) -> (n: usize)
        ensures
            n == self@.len(),
    {
        self.issues.len()
    }

    /// Creates one issue with a fresh identifier and the given content; a
    /// pure create, with no update and no delete.
    pub fn insert_newsletter_issue(
        &mut self,
        title: &str,
        text_content: &str,
        html_content: &str,
        now: u64,
    ) -> (issue_id: u64)
        requires
            old(self).wf(),
            old(self)@.len() < u64::MAX,
        ensures
            final(self).wf(),
            issue_id == old(self)@.len(),
            final(self)@ == old(self)@.push(
                IssueView {
                    issue_id,
                    title: title@,
                    text_content: text_content@,
                    html_content: html_content@,
                    published_at: now,
                },
            ),
    {
        let issue_id = self.issues.len() as u64;
        let issue = NewsletterIssue {
            issue_id,
            title: String::from_str(title),
            text_content: String::from_str(text_content),
            html_content: String::from_str(html_content),
            published_at: now,
        };
        let ghost old_view = self@;
        self.issues.push(issue);
        proof {
            assert(self@ =~= old_view.push(
                IssueView {
                    issue_id,
                    title: title@,
                    text_content: text_content@,
                    html_content: html_content@,
                    published_at: now,
                },
            ));
        }
        issue_id
    }

    /// The issue filed under the identifier, if it exists.
    pub fn get(&self, issue_id: u64) -> (r: Option<&NewsletterIssue>)
        requires
            self.wf(),
        ensures
            match r {
                Some(issue) => issue_id < self@.len() && issue@ == self@[issue_id as int],
                None => issue_id >= self@.len(),
            },
    {
        if issue_id < self.issues.len() as u64 {
            Some(&self.issues[issue_id as usize])
        } else {
            None
        }
    }
}

} // verus!

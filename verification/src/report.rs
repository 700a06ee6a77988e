//! Conversion reports: the issues found while converting a document.
use vstd::prelude::*;
use crate::error::{CoreRsError, ErrorKind, ErrorV, spec_error_message};
use crate::utils::text::{owned, str_eq, contains, starts_with, spec_contains, spec_starts_with};

verus! {

/// The output format of a conversion.
#[derive(Debug, Clone, Copy, PartialEq, Eq, Structural)]
pub enum ConversionTarget {
    Docx,
    Hwpx,
}

/// How serious an issue is.
#[derive(Debug, Clone, Copy, PartialEq, Eq, Structural)]
pub enum IssueSeverity {
    Warning,
    Error,
}

/// One issue found while converting.
#[derive(Debug, PartialEq, Eq)]
pub struct ConversionIssue {
    pub feature: String,
    pub message: String,
    pub severity: IssueSeverity,
    pub degraded: bool,
}

/// All issues of a conversion, without duplicates, with their counts.
#[derive(Debug, PartialEq, Eq)]
pub struct ConversionReport {
    pub issues: Vec<ConversionIssue>,
    pub degraded: bool,
    pub unsupported_count: usize,
    pub fallback_count: usize,
}

pub struct IssueV {
    pub feature: Seq<char>,
    pub message: Seq<char>,
    pub severity: IssueSeverity,
    pub degraded: bool,
}

pub struct ReportV {
    pub issues: Seq<IssueV>,
    pub degraded: bool,
    pub unsupported_count: nat,
    pub fallback_count: nat,
}

impl View for ConversionIssue {
    type V = IssueV;

    open spec fn view(&self) -> IssueV {
        IssueV {
            feature: self.feature@,
            message: self.message@,
            severity: self.severity,
            degraded: self.degraded,
        }
    }
}

pub open spec fn issues_view(s: Seq<ConversionIssue>) -> Seq<IssueV> {
    s.map_values(|i: ConversionIssue| i@)
}

impl View for ConversionReport {
    type V = ReportV;

    open spec fn view(&self) -> ReportV {
        ReportV {
            issues: issues_view(self.issues@),
            degraded: self.degraded,
            unsupported_count: self.unsupported_count as nat,
            fallback_count: self.fallback_count as nat,
        }
    }
}

/// The issues in order of first occurrence, each kept once.
pub open spec fn spec_dedup(s: Seq<IssueV>) -> Seq<IssueV>
    decreases s.len(),
{
    if s.len() == 0 {
        seq![]
    } else {
        let d = spec_dedup(s.drop_last());
        if d.contains(s.last()) {
            d
        } else {
            d.push(s.last())
        }
    }
}

/// How many issues are errors.
pub open spec fn count_errors(s: Seq<IssueV>) -> nat
    decreases s.len(),
{
    if s.len() == 0 {
        0
    } else {
        count_errors(s.drop_last()) + if s.last().severity == IssueSeverity::Error {
            1nat
        } else {
            0nat
        }
    }
}

/// How many issues are degraded.
pub open spec fn count_degraded(s: Seq<IssueV>) -> nat
    decreases s.len(),
{
    if s.len() == 0 {
        0
    } else {
        count_degraded(s.drop_last()) + if s.last().degraded {
            1nat
        } else {
            0nat
        }
    }
}

/// The report of a list of issues.
pub open spec fn spec_from_issues(s: Seq<IssueV>) -> ReportV {
    let d = spec_dedup(s);
    ReportV {
        issues: d,
        degraded: count_degraded(d) > 0,
        unsupported_count: count_errors(d),
        fallback_count: count_degraded(d),
    }
}

/// The feature name under which an error is reported.
pub open spec fn error_feature(kind: ErrorKind) -> Seq<char> {
    match kind {
        ErrorKind::UnsupportedFeature => "unsupported feature"@,
        ErrorKind::InvalidMarkdown => "invalid markdown"@,
        ErrorKind::InvalidHwpx => "invalid HWPX"@,
        ErrorKind::InvalidOption => "invalid option"@,
        ErrorKind::Zip => "zip packaging failed"@,
        ErrorKind::Io => "io failure"@,
    }
}

/// The issue that reports an error.
pub open spec fn spec_error_issue(e: ErrorV) -> IssueV {
    IssueV {
        feature: error_feature(e.kind),
        message: spec_error_message(e),
        severity: IssueSeverity::Error,
        degraded: false,
    }
}

/// Whether an issue already describes the given error.
pub open spec fn spec_issue_matches_error(issue: IssueV, e: ErrorV) -> bool {
    if e.kind != ErrorKind::UnsupportedFeature {
        false
    } else {
        let f = e.detail;
        if f == "html"@ {
            issue.feature == "HTML"@
        } else if f == "footnote"@ {
            issue.feature == "footnote"@
        } else if f == "task list"@ {
            issue.feature == "task list"@
        } else if f == "math"@ {
            issue.feature == "math"@
        } else if f == "nested list depth > 2"@ {
            issue.feature == "deep nested list"@
        } else if spec_contains(f, "ordered list"@) {
            issue.feature == "HWPX ordered list in strict mode"@
        } else if f == "HWPX core does not support image"@ {
            issue.feature == "HWPX image"@
        } else if spec_starts_with(f, "HWPX core does not support "@) {
            issue.feature == "HWPX unsupported rich block"@
        } else {
            false
        }
    }
}

/// The index of the first issue that describes the error.
pub open spec fn first_match(s: Seq<IssueV>, e: ErrorV) -> Option<int>
    decreases s.len(),
{
    if s.len() == 0 {
        None
    } else {
        match first_match(s.drop_last(), e) {
            Some(k) => Some(k),
            None => if spec_issue_matches_error(s.last(), e) {
                Some(s.len() - 1)
            } else {
                None
            },
        }
    }
}

/// The report once an error is recorded in it: the first issue that describes the
/// error becomes an error issue with the error's message; otherwise an issue is added.
pub open spec fn spec_with_error_issue(r: ReportV, e: ErrorV) -> ReportV {
    match first_match(r.issues, e) {
        Some(k) => spec_from_issues(
            r.issues.update(
                k,
                IssueV {
                    feature: r.issues[k].feature,
                    message: spec_error_message(e),
                    severity: IssueSeverity::Error,
                    degraded: false,
                },
            ),
        ),
        None => spec_from_issues(r.issues.push(spec_error_issue(e))),
    }
}

pub proof fn lemma_first_match(s: Seq<IssueV>, e: ErrorV)
    ensures
        first_match(s, e) matches Some(k) ==> 0 <= k < s.len() && spec_issue_matches_error(s[k], e)
            && forall|j: int| 0 <= j < k ==> !spec_issue_matches_error(s[j], e),
        first_match(s, e) is None ==> forall|j: int|
            0 <= j < s.len() ==> !spec_issue_matches_error(s[j], e),
    decreases s.len(),
{
    if s.len() > 0 {
        lemma_first_match(s.drop_last(), e);
        assert forall|j: int| 0 <= j < s.len() - 1 implies s.drop_last()[j] == s[j] by {}
    }
}

impl ConversionIssue {
    /// A copy of this issue.
    pub fn duplicate(&self) -> (r: ConversionIssue)
        ensures
            r@ == self@,
    {
        ConversionIssue {
            feature: self.feature.clone(),
            message: self.message.clone(),
            severity: self.severity,
            degraded: self.degraded,
        }
    }

    /// Whether two issues are equal in every field.
    pub fn same_as(&self, other: &ConversionIssue) -> (b: bool)
        ensures
            b == (self@ == other@),
    {
        self.severity == other.severity && self.degraded == other.degraded && str_eq(
            self.feature.as_str(),
            other.feature.as_str(),
        ) && str_eq(self.message.as_str(), other.message.as_str())
    }
}

fn contains_issue(v: &Vec<ConversionIssue>, issue: &ConversionIssue) -> (b: bool)
    ensures
        b == issues_view(v@).contains(issue@),
{
    let mut i: usize = 0;
    while i < v.len()
        invariant
            i <= v.len(),
            forall|j: int| 0 <= j < i ==> v@[j]@ != issue@,
        decreases v.len() - i,
    {
        if v[i].same_as(issue) {
            assert(issues_view(v@)[i as int] == issue@);
            return true;
        }
        i += 1;
    }
    assert forall|j: int| 0 <= j < issues_view(v@).len() implies issues_view(v@)[j] != issue@ by {
        assert(v@[j]@ != issue@);
    }
    false
}

impl ConversionReport {
    /// A copy of this report.
    pub fn duplicate(&self) -> (r: ConversionReport)
        ensures
            r@ == self@,
    {
        let mut issues: Vec<ConversionIssue> = Vec::new();
        let mut i: usize = 0;
        while i < self.issues.len()
            invariant
                i <= self.issues.len(),
                issues_view(issues@) == issues_view(self.issues@).take(i as int),
            decreases self.issues.len() - i,
        {
            let ghost prev = issues_view(issues@);
            let copy = self.issues[i].duplicate();
            issues.push(copy);
            assert(issues_view(issues@) =~= prev.push(copy@));
            assert(issues_view(self.issues@)[i as int] == self.issues@[i as int]@);
            assert(issues_view(issues@) =~= issues_view(self.issues@).take(i + 1));
            i += 1;
        }
        assert(issues_view(self.issues@).take(self.issues.len() as int) =~= issues_view(self.issues@));
        ConversionReport {
            issues,
            degraded: self.degraded,
            unsupported_count: self.unsupported_count,
            fallback_count: self.fallback_count,
        }
    }

    /// The report of a list of issues: duplicates are dropped, keeping the first
    /// occurrence, and errors and degraded issues are counted.
    pub fn from_issues(issues: Vec<ConversionIssue>) -> (r: ConversionReport)
        ensures
            r@ == spec_from_issues(issues_view(issues@)),
    {
        let ghost all = issues_view(issues@);
        let mut deduped: Vec<ConversionIssue> = Vec::new();
        let mut i: usize = 0;
        while i < issues.len()
            invariant
                i <= issues.len(),
                all == issues_view(issues@),
                issues_view(deduped@) == spec_dedup(all.take(i as int)),
            decreases issues.len() - i,
        {
            assert(all.take(i + 1).drop_last() == all.take(i as int));
            let found = contains_issue(&deduped, &issues[i]);
            if !found {
                let copy = issues[i].duplicate();
                deduped.push(copy);
                assert(issues_view(deduped@) == spec_dedup(all.take(i as int)).push(all[i as int]));
            }
            i += 1;
        }
        assert(all.take(all.len() as int) == all);
        let ghost d = issues_view(deduped@);
        let mut unsupported_count: usize = 0;
        let mut fallback_count: usize = 0;
        let mut k: usize = 0;
        while k < deduped.len()
            invariant
                k <= deduped.len(),
                d == issues_view(deduped@),
                unsupported_count == count_errors(d.take(k as int)),
                fallback_count == count_degraded(d.take(k as int)),
                unsupported_count <= k,
                fallback_count <= k,
            decreases deduped.len() - k,
        {
            assert(d.take(k + 1).drop_last() == d.take(k as int));
            if deduped[k].severity == IssueSeverity::Error {
                unsupported_count += 1;
            }
            if deduped[k].degraded {
                fallback_count += 1;
            }
            k += 1;
        }
        assert(d.take(d.len() as int) == d);
        ConversionReport {
            issues: deduped,
            degraded: fallback_count > 0,
            unsupported_count,
            fallback_count,
        }
    }

    /// This report with an error recorded in it.
    pub fn with_error_issue(&self, error: &CoreRsError) -> (r: ConversionReport)
        ensures
            r@ == spec_with_error_issue(self@, error@),
    {
        let ghost s = self@.issues;
        proof {
            lemma_first_match(s, error@);
        }
        let mut issues: Vec<ConversionIssue> = Vec::new();
        let mut i: usize = 0;
        let mut found: Option<usize> = None;
        while i < self.issues.len()
            invariant
                i <= self.issues.len(),
                s == issues_view(self.issues@),
                first_match(s, error@) matches Some(k) ==> ((found is Some && found->0 as int == k) <==> k < i),
                first_match(s, error@) is None ==> found is None,
                found matches Some(k) ==> k < i && first_match(s, error@) == Some(k as int),
                issues_view(issues@) == (match found {
                    Some(k) => s.take(i as int).update(
                        k as int,
                        IssueV {
                            feature: s[k as int].feature,
                            message: spec_error_message(error@),
                            severity: IssueSeverity::Error,
                            degraded: false,
                        },
                    ),
                    None => s.take(i as int),
                }),
            decreases self.issues.len() - i,
        {
            let ghost prev = issues_view(issues@);
            proof {
                lemma_first_match(s, error@);
                assert(self.issues@[i as int]@ == s[i as int]);
            }
            let mut copy = self.issues[i].duplicate();
            if found.is_none() && issue_matches_error(&copy, error) {
                copy.message = error.message();
                copy.severity = IssueSeverity::Error;
                copy.degraded = false;
                found = Some(i);
            }
            issues.push(copy);
            proof {
                if let Some(k) = first_match(s, error@) {
                    if k == i {
                        assert(spec_issue_matches_error(s[k], error@));
                        assert(found == Some(i));
                    } else if k > i {
                        assert(!spec_issue_matches_error(s[i as int], error@));
                    }
                }
                assert(issues_view(issues@) =~= prev.push(copy@));
                assert(s.take(i + 1) =~= s.take(i as int).push(s[i as int]));
                match found {
                    Some(k) => {
                        if k == i {
                            assert(prev == s.take(i as int));
                        }
                        assert(issues_view(issues@) =~= s.take(i + 1).update(
                            k as int,
                            IssueV {
                                feature: s[k as int].feature,
                                message: spec_error_message(error@),
                                severity: IssueSeverity::Error,
                                degraded: false,
                            },
                        ));
                    },
                    None => {
                        assert(issues_view(issues@) =~= s.take(i + 1));
                    },
                }
            }
            i += 1;
        }
        assert(s.take(s.len() as int) == s);
        if found.is_none() {
            issues.push(error_issue(error));
            assert(issues_view(issues@) =~= s.push(spec_error_issue(error@)));
        }
        ConversionReport::from_issues(issues)
    }
}

/// The issue that reports an error.
pub fn error_issue(error: &CoreRsError) -> (i: ConversionIssue)
    ensures
        i@ == spec_error_issue(error@),
{
    let feature = match error.kind() {
        ErrorKind::UnsupportedFeature => owned("unsupported feature"),
        ErrorKind::InvalidMarkdown => owned("invalid markdown"),
        ErrorKind::InvalidHwpx => owned("invalid HWPX"),
        ErrorKind::InvalidOption => owned("invalid option"),
        ErrorKind::Zip => owned("zip packaging failed"),
        ErrorKind::Io => owned("io failure"),
    };
    ConversionIssue { feature, message: error.message(), severity: IssueSeverity::Error, degraded: false }
}

/// Whether an issue already describes the given error.
pub fn issue_matches_error(issue: &ConversionIssue, error: &CoreRsError) -> (b: bool)
    ensures
        b == spec_issue_matches_error(issue@, error@),
{
    match error {
        CoreRsError::UnsupportedFeature(feature) => {
            let f = feature.as_str();
            let g = issue.feature.as_str();
            if str_eq(f, "html") {
                str_eq(g, "HTML")
            } else if str_eq(f, "footnote") {
                str_eq(g, "footnote")
            } else if str_eq(f, "task list") {
                str_eq(g, "task list")
            } else if str_eq(f, "math") {
                str_eq(g, "math")
            } else if str_eq(f, "nested list depth > 2") {
                str_eq(g, "deep nested list")
            } else if contains(f, "ordered list") {
                str_eq(g, "HWPX ordered list in strict mode")
            } else if str_eq(f, "HWPX core does not support image") {
                str_eq(g, "HWPX image")
            } else if starts_with(f, "HWPX core does not support ") {
                str_eq(g, "HWPX unsupported rich block")
            } else {
                false
            }
        },
        _ => false,
    }
}

} // verus!

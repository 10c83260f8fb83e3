//! The annotation matcher: finds in the text of one source file the group
//! marker, the class declaration and the route-annotated methods.
//!
//! The three markers are regular expressions, and the search for them is
//! the work of the `regex` crate. What it finds is taken as given; how the
//! findings become an [`AnnotationMatch`] is verified, in [`interpret`].

use regex::Regex;
use vstd::prelude::*;

verus! {

/// The group marker: `@backendAPI`, with one string literal between its
/// parentheses. Its first capture group is the group's name.
pub const GROUP_PATTERN: &'static str = "@backendAPI\\(\\s*\"(?P<group_name>[^\"]+)\"\\s*\\)";

/// The class declaration. Its first capture group is the class's name.
pub const CLASS_PATTERN: &'static str = "class\\s+(?P<class_name>\\w+)\\s*";

/// The route marker and the asynchronous method that follows it. The
/// first capture group is the method's name, the second the raw text
/// between its parentheses.
pub const METHOD_PATTERN: &'static str =
    "@route\\(\\s*\\)\\s+async\\s+(?P<method_name>\\w+)\\s*\\((?P<params>[^)]*)\\)";

/// The error with which the `regex` crate refuses a pattern.
#[verifier::external_type_specification]
#[verifier::external_body]
pub struct ExRegexError(regex::Error);

/// Whether `Regex::new` accepts `pattern`.
pub uninterp spec fn pattern_compiles(pattern: Seq<char>) -> bool;

/// What `Regex::captures_iter` yields for the expression compiled from
/// `pattern` on `text`: the successive non-overlapping matches, each with
/// the text of its capture groups by index. Group 0 is the whole match; a
/// group that took no part in the match is `None`.
pub uninterp spec fn matches_of(pattern: Seq<char>, text: Seq<char>) -> Seq<Seq<Option<Seq<char>>>>;

/// Compiles `pattern` with `Regex::new` and collects what
/// `Regex::captures_iter` yields on `text`.
///
/// Trusted: that the call fails exactly where the pattern does not
/// compile, and that what is collected is `matches_of` of the two texts.
/// Each match is copied group by group (`Captures::iter`,
/// `Match::as_str`).
#[verifier::external_body]
fn find_matches(pattern: &str, text: &str) -> (r: Result<Vec<Vec<Option<String>>>, regex::Error>)
    ensures
        r is Ok <==> pattern_compiles(pattern@),
        r matches Ok(found) ==> found.deep_view() == matches_of(pattern@, text@),
{
    let re = Regex::new(pattern)?;
    Ok(
        re.captures_iter(text).map(
            |found| found.iter().map(|group| group.map(|m| m.as_str().to_string())).collect(),
        ).collect(),
    )
}

/// Which of the three patterns did not compile.
#[derive(Clone, Copy, Debug, PartialEq, Eq, Structural)]
pub enum PatternError {
    GroupMarker,
    ClassDeclaration,
    MethodMarker,
}

/// A method declared in a source file.
#[derive(Clone, Debug, PartialEq, Eq)]
pub struct MethodDeclaration {
    pub name: String,
    /// The text between the parentheses, as it stands in the file.
    pub raw_params: String,
}

/// The mathematical value of a [`MethodDeclaration`].
pub struct MethodDeclarationView {
    pub name: Seq<char>,
    pub raw_params: Seq<char>,
}

impl View for MethodDeclaration {
    type V = MethodDeclarationView;

    open spec fn view(&self) -> MethodDeclarationView {
        MethodDeclarationView { name: self.name@, raw_params: self.raw_params@ }
    }
}

impl DeepView for MethodDeclaration {
    type V = MethodDeclarationView;

    open spec fn deep_view(&self) -> MethodDeclarationView {
        self@
    }
}

/// What one source file declares.
#[derive(Clone, Debug, PartialEq, Eq)]
pub struct AnnotationMatch {
    pub group: String,
    pub class_name: String,
    /// The methods, in the order in which they stand in the file.
    pub methods: Vec<MethodDeclaration>,
}

/// The mathematical value of an [`AnnotationMatch`].
pub struct AnnotationMatchView {
    pub group: Seq<char>,
    pub class_name: Seq<char>,
    pub methods: Seq<MethodDeclarationView>,
}

impl View for AnnotationMatch {
    type V = AnnotationMatchView;

    open spec fn view(&self) -> AnnotationMatchView {
        AnnotationMatchView {
            group: self.group@,
            class_name: self.class_name@,
            methods: self.methods.deep_view(),
        }
    }
}

/// Why a source file contributes nothing.
#[derive(Clone, Copy, Debug, PartialEq, Eq, Structural)]
pub enum SkipReason {
    /// The file holds no group marker.
    NoGroupMarker,
    /// The file holds a group marker and no class declaration. Methods
    /// that it declares are lost without a diagnostic.
    NoClassDeclaration,
}

/// What the matcher made of one source file.
#[derive(Clone, Debug, PartialEq, Eq)]
pub enum ScanOutcome {
    Matched(AnnotationMatch),
    Skipped(SkipReason),
}

/// The mathematical value of a [`ScanOutcome`].
pub enum ScanView {
    Matched(AnnotationMatchView),
    Skipped(SkipReason),
}

impl View for ScanOutcome {
    type V = ScanView;

    open spec fn view(&self) -> ScanView {
        match self {
            ScanOutcome::Matched(m) => ScanView::Matched(m@),
            ScanOutcome::Skipped(reason) => ScanView::Skipped(*reason),
        }
    }
}

/// The text of capture group `i` of one match, where the match has such a
/// group and the group took part.
pub open spec fn capture_at(groups: Seq<Option<Seq<char>>>, i: int) -> Option<Seq<char>> {
    if 0 <= i < groups.len() {
        groups[i]
    } else {
        None
    }
}

/// The text of capture group 1 of the first match.
pub open spec fn first_capture(found: Seq<Seq<Option<Seq<char>>>>) -> Option<Seq<char>> {
    if found.len() > 0 {
        capture_at(found[0], 1)
    } else {
        None
    }
}

/// The method that one match of the method pattern declares: group 1 is
/// its name and group 2 its raw parameter list. A match that lacks one of
/// them declares nothing.
pub open spec fn method_of(groups: Seq<Option<Seq<char>>>) -> Option<MethodDeclarationView> {
    match (capture_at(groups, 1), capture_at(groups, 2)) {
        (Some(name), Some(raw_params)) => Some(MethodDeclarationView { name, raw_params }),
        _ => None,
    }
}

/// The methods that the matches of the method pattern declare, all of
/// them, in the order of the matches.
pub open spec fn methods_of(found: Seq<Seq<Option<Seq<char>>>>) -> Seq<MethodDeclarationView>
    decreases found.len(),
{
    if found.len() == 0 {
        Seq::empty()
    } else {
        let init = methods_of(found.drop_last());
        match method_of(found.last()) {
            Some(m) => init.push(m),
            None => init,
        }
    }
}

/// What a file declares, given what each of the three patterns found in
/// it. Without a group name the file is skipped; with a group name and no
/// class name it is skipped too.
pub open spec fn outcome_of(
    group_found: Seq<Seq<Option<Seq<char>>>>,
    class_found: Seq<Seq<Option<Seq<char>>>>,
    method_found: Seq<Seq<Option<Seq<char>>>>,
) -> ScanView {
    match first_capture(group_found) {
        None => ScanView::Skipped(SkipReason::NoGroupMarker),
        Some(group) => match first_capture(class_found) {
            None => ScanView::Skipped(SkipReason::NoClassDeclaration),
            Some(class_name) => ScanView::Matched(
                AnnotationMatchView { group, class_name, methods: methods_of(method_found) },
            ),
        },
    }
}

/// The first of the three patterns that does not compile, in the order
/// group marker, class declaration, route marker.
pub open spec fn pattern_failure() -> Option<PatternError> {
    if !pattern_compiles(GROUP_PATTERN@) {
        Some(PatternError::GroupMarker)
    } else if !pattern_compiles(CLASS_PATTERN@) {
        Some(PatternError::ClassDeclaration)
    } else if !pattern_compiles(METHOD_PATTERN@) {
        Some(PatternError::MethodMarker)
    } else {
        None
    }
}

/// What scanning `text` gives: where the three patterns compile, what the
/// file declares according to what they find in it.
pub open spec fn scan_of(text: Seq<char>) -> Result<ScanView, PatternError> {
    match pattern_failure() {
        Some(e) => Err(e),
        None => Ok(
            outcome_of(
                matches_of(GROUP_PATTERN@, text),
                matches_of(CLASS_PATTERN@, text),
                matches_of(METHOD_PATTERN@, text),
            ),
        ),
    }
}

/// The view of a scan's result.
pub open spec fn scan_view(r: Result<ScanOutcome, PatternError>) -> Result<ScanView, PatternError> {
    match r {
        Ok(outcome) => Ok(outcome@),
        Err(e) => Err(e),
    }
}

/// The name that a pattern captured: group 1 of its first match.
pub fn first_name(found: &Vec<Vec<Option<String>>>) -> (r: Option<String>)
    ensures
        r.deep_view() == first_capture(found.deep_view()),
{
    if found.len() > 0 && found[0].len() > 1 {
        assert(found.deep_view()[0] == found@[0].deep_view());
        assert(found@[0].deep_view()[1] == found@[0]@[1].deep_view());
        match &found[0][1] {
            Some(name) => Some(name.clone()),
            None => None,
        }
    } else {
        proof {
            if found.len() > 0 {
                assert(found.deep_view()[0] == found@[0].deep_view());
            }
        }
        None
    }
}

/// The method that one match of the method pattern declares.
pub fn method_declaration(groups: &Vec<Option<String>>) -> (r: Option<MethodDeclaration>)
    ensures
        r.deep_view() == method_of(groups.deep_view()),
{
    if groups.len() > 2 {
        assert(groups.deep_view()[1] == groups@[1].deep_view());
        assert(groups.deep_view()[2] == groups@[2].deep_view());
        match (&groups[1], &groups[2]) {
            (Some(name), Some(raw_params)) => Some(
                MethodDeclaration { name: name.clone(), raw_params: raw_params.clone() },
            ),
            _ => None,
        }
    } else {
        proof {
            if groups.len() > 1 {
                assert(groups.deep_view()[1] == groups@[1].deep_view());
            }
        }
        None
    }
}

/// The methods that the matches of the method pattern declare.
pub fn method_declarations(found: &Vec<Vec<Option<String>>>) -> (r: Vec<MethodDeclaration>)
    ensures
        r.deep_view() == methods_of(found.deep_view()),
{
    let mut methods: Vec<MethodDeclaration> = Vec::new();
    let ghost all = found.deep_view();
    for i in 0..found.len()
        invariant
            all == found.deep_view(),
            methods.deep_view() == methods_of(all.take(i as int)),
    {
        let ghost before = methods.deep_view();
        proof {
            assert(all.take(i + 1).drop_last() =~= all.take(i as int));
            assert(all.take(i + 1).last() == found@[i as int].deep_view());
        }
        match method_declaration(&found[i]) {
            Some(m) => {
                methods.push(m);
                assert(methods.deep_view() =~= before.push(m@));
            },
            None => {},
        }
    }
    proof {
        assert(all.take(found.len() as int) =~= all);
    }
    methods
}

/// What a file declares, given what each of the three patterns found in
/// it.
pub fn interpret(
    group_found: &Vec<Vec<Option<String>>>,
    class_found: &Vec<Vec<Option<String>>>,
    method_found: &Vec<Vec<Option<String>>>,
) -> (r: ScanOutcome)
    ensures
        r@ == outcome_of(
            group_found.deep_view(),
            class_found.deep_view(),
            method_found.deep_view(),
        ),
{
    match first_name(group_found) {
        None => ScanOutcome::Skipped(SkipReason::NoGroupMarker),
        Some(group) => match first_name(class_found) {
            None => ScanOutcome::Skipped(SkipReason::NoClassDeclaration),
            Some(class_name) => ScanOutcome::Matched(
                AnnotationMatch { group, class_name, methods: method_declarations(method_found) },
            ),
        },
    }
}

/// Scans the text of one source file for the three markers.
///
/// A file without a group marker, or with one and without a class
/// declaration, is skipped; that is no error. The only error is a pattern
/// that the `regex` crate does not accept, and it does not depend on the
/// text.
pub fn scan(text: &str) -> (r: Result<ScanOutcome, PatternError>)
    ensures
        scan_view(r) == scan_of(text@),
{
    let group_found = match find_matches(GROUP_PATTERN, text) {
        Ok(found) => found,
        Err(_) => {
            return Err(PatternError::GroupMarker);
        },
    };
    let class_found = match find_matches(CLASS_PATTERN, text) {
        Ok(found) => found,
        Err(_) => {
            return Err(PatternError::ClassDeclaration);
        },
    };
    let method_found = match find_matches(METHOD_PATTERN, text) {
        Ok(found) => found,
        Err(_) => {
            return Err(PatternError::MethodMarker);
        },
    };
    Ok(interpret(&group_found, &class_found, &method_found))
}

} // verus!

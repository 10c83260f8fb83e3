//! One pass: source files are added in the order of the directory walk,
//! and the registry that they fill is rendered when all have been added.

use crate::emitter::{render, rendered};
use crate::matcher::{
    scan, scan_of, AnnotationMatch, MethodDeclarationView, PatternError, ScanOutcome, ScanView,
};
use crate::registry::{
    inserted, well_formed, DuplicateError, DuplicateView, GroupView, Registry,
};
use crate::signature::{parse_signature, signature_of};
use vstd::prelude::*;

verus! {

/// The extension of the files that a pass reads.
pub const SOURCE_EXTENSION: &'static str = "ts";

/// Whether a file with the extension `extension` is a source file.
pub fn is_source_extension(extension: &str) -> (r: bool)
    ensures
        r == (extension@ == SOURCE_EXTENSION@),
{
    let given = extension.to_owned();
    let expected = SOURCE_EXTENSION.to_owned();
    given == expected
}

/// Where a pass stands.
#[derive(Clone, Copy, Debug, PartialEq, Eq, Structural)]
pub enum PassState {
    /// Nothing has been done yet.
    Idle,
    /// The directory walk is looking for the next source file.
    Walking,
    /// A source file has been read and is being taken in.
    Validating,
    /// The walk has ended and the module is being written.
    Emitting,
    /// The module has been written.
    Done,
    /// The pass was abandoned.
    Failed,
}

/// What happens in the course of a pass.
#[derive(Clone, Copy, Debug, PartialEq, Eq, Structural)]
pub enum PassEvent {
    /// The walk begins.
    Started,
    /// The walk has read a source file.
    FileRead,
    /// A source file could not be read.
    ReadFailed,
    /// The file was taken in.
    FileAccepted,
    /// The file was refused.
    FileRefused,
    /// The walk has no more files.
    WalkEnded,
    /// The module was written.
    OutputWritten,
    /// The module could not be written.
    WriteFailed,
}

/// The state that follows `state` on `event`, where `state` has such a
/// step. A pass fails while it reads, validates or writes; once done or
/// failed it takes no further step.
pub open spec fn next_state(state: PassState, event: PassEvent) -> Option<PassState> {
    match (state, event) {
        (PassState::Idle, PassEvent::Started) => Some(PassState::Walking),
        (PassState::Walking, PassEvent::FileRead) => Some(PassState::Validating),
        (PassState::Walking, PassEvent::ReadFailed) => Some(PassState::Failed),
        (PassState::Walking, PassEvent::WalkEnded) => Some(PassState::Emitting),
        (PassState::Validating, PassEvent::FileAccepted) => Some(PassState::Walking),
        (PassState::Validating, PassEvent::FileRefused) => Some(PassState::Failed),
        (PassState::Emitting, PassEvent::OutputWritten) => Some(PassState::Done),
        (PassState::Emitting, PassEvent::WriteFailed) => Some(PassState::Failed),
        _ => None,
    }
}

/// The state that follows `state` on `event`, or `None` where `state`
/// has no such step.
pub fn advance(state: PassState, event: PassEvent) -> (r: Option<PassState>)
    ensures
        r == next_state(state, event),
{
    match (state, event) {
        (PassState::Idle, PassEvent::Started) => Some(PassState::Walking),
        (PassState::Walking, PassEvent::FileRead) => Some(PassState::Validating),
        (PassState::Walking, PassEvent::ReadFailed) => Some(PassState::Failed),
        (PassState::Walking, PassEvent::WalkEnded) => Some(PassState::Emitting),
        (PassState::Validating, PassEvent::FileAccepted) => Some(PassState::Walking),
        (PassState::Validating, PassEvent::FileRefused) => Some(PassState::Failed),
        (PassState::Emitting, PassEvent::OutputWritten) => Some(PassState::Done),
        (PassState::Emitting, PassEvent::WriteFailed) => Some(PassState::Failed),
        _ => None,
    }
}

/// A pass that is done or has failed takes no further step; a pass
/// fails only while it walks, validates or emits; and it is done only
/// when the module has been written.
pub proof fn lemma_pass_ends(state: PassState, event: PassEvent)
    ensures
        state == PassState::Done || state == PassState::Failed ==> next_state(state, event)
            is None,
        next_state(state, event) == Some(PassState::Failed) ==> state == PassState::Walking
            || state == PassState::Validating || state == PassState::Emitting,
        next_state(state, event) == Some(PassState::Done) ==> state == PassState::Emitting
            && event == PassEvent::OutputWritten,
{
}

/// Why a pass was abandoned.
#[derive(Clone, Debug, PartialEq, Eq)]
pub enum PassError {
    /// One of the matcher's patterns did not compile.
    Pattern(PatternError),
    /// A method was declared twice in one group.
    Duplicate(DuplicateError),
}

/// The mathematical value of a [`PassError`].
pub enum PassErrorView {
    Pattern(PatternError),
    Duplicate(DuplicateView),
}

impl View for PassError {
    type V = PassErrorView;

    open spec fn view(&self) -> PassErrorView {
        match self {
            PassError::Pattern(e) => PassErrorView::Pattern(*e),
            PassError::Duplicate(e) => PassErrorView::Duplicate(e@),
        }
    }
}

/// The registry after the methods of one class have been inserted in
/// their order, or the first duplicate among them.
pub open spec fn with_methods(
    groups: Seq<GroupView>,
    group: Seq<char>,
    class_name: Seq<char>,
    methods: Seq<MethodDeclarationView>,
) -> Result<Seq<GroupView>, DuplicateView>
    decreases methods.len(),
{
    if methods.len() == 0 {
        Ok(groups)
    } else {
        match inserted(
            groups,
            group,
            methods[0].name,
            signature_of(methods[0].raw_params),
            class_name,
        ) {
            Ok(next) => with_methods(next, group, class_name, methods.drop_first()),
            Err(e) => Err(e),
        }
    }
}

/// The registry after one file has been taken in. A skipped file leaves
/// it as it was.
pub open spec fn with_outcome(groups: Seq<GroupView>, outcome: ScanView) -> Result<
    Seq<GroupView>,
    DuplicateView,
> {
    match outcome {
        ScanView::Matched(m) => with_methods(groups, m.group, m.class_name, m.methods),
        ScanView::Skipped(_) => Ok(groups),
    }
}

/// The registry after the file with the text `text` has been scanned and
/// taken in.
pub open spec fn with_text(groups: Seq<GroupView>, text: Seq<char>) -> Result<
    Seq<GroupView>,
    PassErrorView,
> {
    match scan_of(text) {
        Err(e) => Err(PassErrorView::Pattern(e)),
        Ok(outcome) => match with_outcome(groups, outcome) {
            Ok(next) => Ok(next),
            Err(e) => Err(PassErrorView::Duplicate(e)),
        },
    }
}

/// The registry after the files with the texts `texts` have been taken in
/// in their order, or the first failure.
pub open spec fn with_texts(groups: Seq<GroupView>, texts: Seq<Seq<char>>) -> Result<
    Seq<GroupView>,
    PassErrorView,
>
    decreases texts.len(),
{
    if texts.len() == 0 {
        Ok(groups)
    } else {
        match with_text(groups, texts[0]) {
            Ok(next) => with_texts(next, texts.drop_first()),
            Err(e) => Err(e),
        }
    }
}

/// The module generated from the files with the texts `texts`, or the
/// failure of the pass.
pub open spec fn generated(texts: Seq<Seq<char>>) -> Result<Seq<char>, PassErrorView> {
    match with_texts(Seq::empty(), texts) {
        Ok(groups) => Ok(rendered(groups)),
        Err(e) => Err(e),
    }
}

/// A pass depends on the texts of its files and on their order, and on
/// nothing else: the same texts in the same order give the same module,
/// or the same failure.
pub proof fn lemma_same_texts_same_module(a: Seq<Seq<char>>, b: Seq<Seq<char>>)
    requires
        a.len() == b.len(),
        forall|i: int| 0 <= i < a.len() ==> a[i] == b[i],
    ensures
        generated(a) == generated(b),
{
    assert(a =~= b);
}

/// The view of a pass that went on or failed.
pub open spec fn pass_view(r: Result<Pass, PassError>) -> Result<Seq<GroupView>, PassErrorView> {
    match r {
        Ok(pass) => Ok(pass@),
        Err(e) => Err(e@),
    }
}

/// The view of a registry that was filled or refused a method.
pub open spec fn filled_view(r: Result<Registry, DuplicateError>) -> Result<
    Seq<GroupView>,
    DuplicateView,
> {
    match r {
        Ok(registry) => Ok(registry@),
        Err(e) => Err(e@),
    }
}

/// The view of a generated module or the failure of its pass.
pub open spec fn output_view(r: Result<String, PassError>) -> Result<Seq<char>, PassErrorView> {
    match r {
        Ok(text) => Ok(text@),
        Err(e) => Err(e@),
    }
}

/// Inserts the methods that one file declares, in their order, and stops
/// at the first that its group holds already.
pub fn add_match(registry: Registry, found: &AnnotationMatch) -> (r: Result<
    Registry,
    DuplicateError,
>)
    ensures
        filled_view(r) == with_methods(
            registry@,
            found@.group,
            found@.class_name,
            found@.methods,
        ),
{
    let mut filled = registry;
    let ghost all = found@.methods;
    proof {
        assert(all.skip(0) =~= all);
    }
    for i in 0..found.methods.len()
        invariant
            all == found@.methods,
            with_methods(registry@, found@.group, found@.class_name, all) == with_methods(
                filled@,
                found@.group,
                found@.class_name,
                all.skip(i as int),
            ),
    {
        let declared = &found.methods[i];
        let signature = parse_signature(declared.raw_params.as_str());
        proof {
            assert(all.skip(i as int)[0] == declared@);
            assert(all.skip(i as int).drop_first() =~= all.skip(i + 1));
        }
        match filled.insert(
            found.group.as_str(),
            declared.name.as_str(),
            &signature,
            found.class_name.as_str(),
        ) {
            Ok(()) => {},
            Err(e) => {
                return Err(e);
            },
        }
    }
    proof {
        assert(all.skip(found.methods.len() as int) =~= Seq::<MethodDeclarationView>::empty());
    }
    Ok(filled)
}

/// A pass in progress. It holds the registry that the files added so far
/// have filled. A pass that fails is used up: the next one starts empty.
pub struct Pass {
    registry: Registry,
}

impl View for Pass {
    type V = Seq<GroupView>;

    closed spec fn view(&self) -> Seq<GroupView> {
        self.registry@
    }
}

impl Pass {
    /// A pass that has seen no file.
    pub fn new() -> (r: Pass)
        ensures
            r@ == Seq::<GroupView>::empty(),
    {
        Pass { registry: Registry::new() }
    }

    /// The registry as the files added so far have filled it.
    pub fn registry(&self) -> (r: &Registry)
        ensures
            r@ == self@,
    {
        &self.registry
    }

    /// Takes in what the matcher made of one file.
    pub fn add_outcome(self, outcome: &ScanOutcome) -> (r: Result<Pass, DuplicateError>)
        ensures
            match with_outcome(self@, outcome@) {
                Ok(groups) => r is Ok && r->Ok_0@ == groups,
                Err(e) => r is Err && r->Err_0@ == e,
            },
            well_formed(self@),
            r matches Ok(next) ==> well_formed(next@),
    {
        proof {
            use_type_invariant(&self.registry);
        }
        match outcome {
            ScanOutcome::Matched(found) => {
                match add_match(self.registry, found) {
                    Ok(registry) => {
                        proof {
                            use_type_invariant(&registry);
                        }
                        Ok(Pass { registry })
                    },
                    Err(e) => Err(e),
                }
            },
            ScanOutcome::Skipped(_) => Ok(self),
        }
    }

    /// Scans the text of one source file and takes in what it declares.
    pub fn add_file(self, text: &str) -> (r: Result<Pass, PassError>)
        ensures
            pass_view(r) == with_text(self@, text@),
    {
        match scan(text) {
            Err(e) => Err(PassError::Pattern(e)),
            Ok(outcome) => match self.add_outcome(&outcome) {
                Ok(next) => Ok(next),
                Err(e) => Err(PassError::Duplicate(e)),
            },
        }
    }

    /// Ends the pass and renders the generated module.
    pub fn finish(self) -> (r: String)
        ensures
            r@ == rendered(self@),
    {
        render(&self.registry)
    }
}

/// Runs one pass over the texts of the source files, in their order, and
/// renders the generated module. Nothing is rendered where the pass
/// fails.
pub fn generate(texts: &Vec<String>) -> (r: Result<String, PassError>)
    ensures
        output_view(r) == generated(texts.deep_view()),
{
    let mut pass = Pass::new();
    let ghost all = texts.deep_view();
    proof {
        assert(all.skip(0) =~= all);
    }
    for i in 0..texts.len()
        invariant
            all == texts.deep_view(),
            with_texts(Seq::empty(), all) == with_texts(pass@, all.skip(i as int)),
    {
        proof {
            assert(all.skip(i as int)[0] == texts@[i as int]@);
            assert(all.skip(i as int).drop_first() =~= all.skip(i + 1));
        }
        match pass.add_file(texts[i].as_str()) {
            Ok(next) => {
                pass = next;
            },
            Err(e) => {
                return Err(e);
            },
        }
    }
    proof {
        assert(all.skip(texts.len() as int) =~= Seq::<Seq<char>>::empty());
    }
    Ok(pass.finish())
}

} // verus!

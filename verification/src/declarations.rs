//! What a pass depends on: the methods that the files declare. A pass
//! succeeds exactly where no method is declared twice in its group, and
//! then holds each declared method, whatever the order of the files.

use crate::matcher::{
    first_capture, matches_of, outcome_of, pattern_failure, scan_of, MethodDeclarationView,
    PatternError, ScanView, GROUP_PATTERN,
};
use crate::pass::{with_methods, with_outcome, with_text, with_texts, PassErrorView};
use crate::registry::{
    group_names, inserted, lemma_with_record_well_formed, lookup, method_names, record_of,
    well_formed, with_record, DuplicateView, GroupView, MethodView,
};
use crate::signature::signature_of;
use crate::text::{first_index, lemma_first_index, lemma_first_index_is};
use vstd::prelude::*;

verus! {

/// One method as a file declares it.
pub struct Declaration {
    pub group: Seq<char>,
    pub method: Seq<char>,
    pub raw_params: Seq<char>,
    pub class_name: Seq<char>,
}

/// The declarations of one file, given what the matcher made of it.
pub open spec fn declarations_of(outcome: ScanView) -> Seq<Declaration> {
    match outcome {
        ScanView::Matched(m) => m.methods.map_values(
            |d: MethodDeclarationView|
                Declaration {
                    group: m.group,
                    method: d.name,
                    raw_params: d.raw_params,
                    class_name: m.class_name,
                },
        ),
        ScanView::Skipped(_) => Seq::empty(),
    }
}

/// The declarations of the file with the text `text`.
pub open spec fn file_declarations(text: Seq<char>) -> Seq<Declaration> {
    match scan_of(text) {
        Ok(outcome) => declarations_of(outcome),
        Err(_) => Seq::empty(),
    }
}

/// The declarations of the files with the texts `texts`, in the order of
/// the files.
pub open spec fn walk_declarations(texts: Seq<Seq<char>>) -> Seq<Declaration>
    decreases texts.len(),
{
    if texts.len() == 0 {
        Seq::empty()
    } else {
        file_declarations(texts[0]) + walk_declarations(texts.drop_first())
    }
}

/// The record that a registry holds for `d`.
pub open spec fn record_for(d: Declaration) -> MethodView {
    record_of(d.group, d.method, signature_of(d.raw_params), d.class_name)
}

/// The registry after `decls` have been inserted in their order, or the
/// first duplicate.
pub open spec fn declared(groups: Seq<GroupView>, decls: Seq<Declaration>) -> Result<
    Seq<GroupView>,
    DuplicateView,
>
    decreases decls.len(),
{
    if decls.len() == 0 {
        Ok(groups)
    } else {
        let d = decls[0];
        match inserted(groups, d.group, d.method, signature_of(d.raw_params), d.class_name) {
            Ok(next) => declared(next, decls.drop_first()),
            Err(e) => Err(e),
        }
    }
}

/// Whether `d` declares `method` in `group`.
pub open spec fn declares(d: Declaration, group: Seq<char>, method: Seq<char>) -> bool {
    d.group == group && d.method == method
}

/// How often `decls` declare `method` in `group`.
pub open spec fn times_declared(decls: Seq<Declaration>, group: Seq<char>, method: Seq<char>) -> nat
    decreases decls.len(),
{
    if decls.len() == 0 {
        0
    } else {
        (if declares(decls[0], group, method) {
            1nat
        } else {
            0nat
        }) + times_declared(decls.drop_first(), group, method)
    }
}

/// The first of `decls` that declares `method` in `group`.
pub open spec fn first_declaration(
    decls: Seq<Declaration>,
    group: Seq<char>,
    method: Seq<char>,
) -> Option<Declaration>
    decreases decls.len(),
{
    if decls.len() == 0 {
        None
    } else if declares(decls[0], group, method) {
        Some(decls[0])
    } else {
        first_declaration(decls.drop_first(), group, method)
    }
}

/// One where the registry holds `method` in `group`, else zero.
pub open spec fn held(groups: Seq<GroupView>, group: Seq<char>, method: Seq<char>) -> nat {
    if lookup(groups, group, method) is Some {
        1
    } else {
        0
    }
}

/// The sum of `f` over the items of `s`.
pub open spec fn total<A>(s: Seq<A>, f: spec_fn(A) -> nat) -> nat
    decreases s.len(),
{
    if s.len() == 0 {
        0
    } else {
        f(s[0]) + total(s.drop_first(), f)
    }
}

/// A record added to a group is found under its own name, and every
/// other lookup gives what it gave before.
pub proof fn lemma_lookup_with_record(
    groups: Seq<GroupView>,
    group: Seq<char>,
    record: MethodView,
    g: Seq<char>,
    m: Seq<char>,
)
    requires
        lookup(groups, group, record.name) is None,
    ensures
        lookup(with_record(groups, group, record), g, m) == if g == group && m == record.name {
            Some(record)
        } else {
            lookup(groups, g, m)
        },
{
    let names = group_names(groups);
    let after = with_record(groups, group, record);
    let names_after = group_names(after);
    let i = first_index(names, group);
    let ig = first_index(names, g);
    lemma_first_index(names, group);
    lemma_first_index(names, g);
    if 0 <= i < groups.len() {
        assert(names[i] == group);
        assert(names_after =~= names);
        if g == group {
            let methods = groups[i].methods;
            let grown = methods.push(record);
            let mn = method_names(methods);
            let mn_after = method_names(grown);
            assert(after[i].methods == grown);
            assert(mn_after =~= mn.push(record.name));
            lemma_first_index(mn, m);
            lemma_first_index(mn, record.name);
            let j = first_index(mn, m);
            if j < methods.len() {
                assert(mn[j] == m);
                lemma_first_index_is(mn_after, m, j);
            } else if m == record.name {
                lemma_first_index_is(mn_after, m, methods.len() as int);
            } else {
                lemma_first_index_is(mn_after, m, mn_after.len() as int);
            }
        } else {
            if ig < groups.len() {
                assert(names[ig] == g);
                assert(after[ig] == groups[ig]);
            }
        }
    } else {
        assert(names_after =~= names.push(group));
        if g == group {
            lemma_first_index_is(names_after, g, names.len() as int);
            let mn_after = method_names(seq![record]);
            assert(after[names.len() as int].methods == seq![record]);
            assert(mn_after =~= seq![record.name]);
            if m == record.name {
                lemma_first_index_is(mn_after, m, 0);
            } else {
                lemma_first_index_is(mn_after, m, 1);
            }
        } else {
            if ig < groups.len() {
                assert(names[ig] == g);
                lemma_first_index_is(names_after, g, ig);
                assert(after[ig] == groups[ig]);
            } else {
                lemma_first_index_is(names_after, g, names_after.len() as int);
            }
        }
    }
}

/// Inserting `x` and then `y` is inserting `x + y`.
pub proof fn lemma_declared_append(groups: Seq<GroupView>, x: Seq<Declaration>, y: Seq<Declaration>)
    ensures
        declared(groups, x + y) == match declared(groups, x) {
            Ok(next) => declared(next, y),
            Err(e) => Err(e),
        },
    decreases x.len(),
{
    if x.len() == 0 {
        assert(x + y =~= y);
    } else {
        let d = x[0];
        assert((x + y)[0] == d);
        assert((x + y).drop_first() =~= x.drop_first() + y);
        match inserted(groups, d.group, d.method, signature_of(d.raw_params), d.class_name) {
            Ok(next) => {
                lemma_declared_append(next, x.drop_first(), y);
            },
            Err(_) => {},
        }
    }
}

/// Taking in what the matcher made of a file is inserting the file's
/// declarations.
pub proof fn lemma_outcome_declared(groups: Seq<GroupView>, outcome: ScanView)
    ensures
        with_outcome(groups, outcome) == declared(groups, declarations_of(outcome)),
{
    match outcome {
        ScanView::Matched(m) => {
            lemma_methods_declared(groups, m.group, m.class_name, m.methods);
        },
        ScanView::Skipped(_) => {},
    }
}

/// Inserting the methods of one class is inserting their declarations.
proof fn lemma_methods_declared(
    groups: Seq<GroupView>,
    group: Seq<char>,
    class_name: Seq<char>,
    methods: Seq<MethodDeclarationView>,
)
    ensures
        with_methods(groups, group, class_name, methods) == declared(
            groups,
            methods.map_values(
                |d: MethodDeclarationView|
                    Declaration { group, method: d.name, raw_params: d.raw_params, class_name },
            ),
        ),
    decreases methods.len(),
{
    let f = |d: MethodDeclarationView|
        Declaration { group, method: d.name, raw_params: d.raw_params, class_name };
    let decls = methods.map_values(f);
    if methods.len() > 0 {
        assert(decls[0] == f(methods[0]));
        assert(decls.drop_first() =~= methods.drop_first().map_values(f));
        match inserted(
            groups,
            group,
            methods[0].name,
            signature_of(methods[0].raw_params),
            class_name,
        ) {
            Ok(next) => {
                lemma_methods_declared(next, group, class_name, methods.drop_first());
            },
            Err(_) => {},
        }
    }
}

/// A pass over files is the insertion of all their declarations, where
/// every file can be scanned.
pub proof fn lemma_pass_declared(groups: Seq<GroupView>, texts: Seq<Seq<char>>)
    ensures
        with_texts(groups, texts) is Ok <==> (forall|i: int|
            0 <= i < texts.len() ==> (#[trigger] scan_of(texts[i])) is Ok) && declared(
            groups,
            walk_declarations(texts),
        ) is Ok,
        with_texts(groups, texts) matches Ok(filled) ==> declared(
            groups,
            walk_declarations(texts),
        ) == Ok::<Seq<GroupView>, DuplicateView>(filled),
        with_texts(groups, texts) matches Err(PassErrorView::Duplicate(e)) ==> declared(
            groups,
            walk_declarations(texts),
        ) == Err::<Seq<GroupView>, DuplicateView>(e),
        with_texts(groups, texts) matches Err(PassErrorView::Pattern(e)) ==> exists|i: int|
            0 <= i < texts.len() && #[trigger] scan_of(texts[i]) == Err::<ScanView, PatternError>(e),
    decreases texts.len(),
{
    if texts.len() > 0 {
        let rest = texts.drop_first();
        match scan_of(texts[0]) {
            Err(e) => {
                assert(scan_of(texts[0]) == Err::<ScanView, PatternError>(e));
            },
            Ok(outcome) => {
                lemma_outcome_declared(groups, outcome);
                lemma_declared_append(groups, file_declarations(texts[0]), walk_declarations(rest));
                match with_outcome(groups, outcome) {
                    Err(_) => {},
                    Ok(next) => {
                        lemma_pass_declared(next, rest);
                        if let Err(PassErrorView::Pattern(e)) = with_texts(next, rest) {
                            let i = choose|i: int|
                                0 <= i < rest.len() && #[trigger] scan_of(rest[i]) == Err::<
                                    ScanView,
                                    PatternError,
                                >(e);
                            assert(texts[i + 1] == rest[i]);
                        }
                        if forall|i: int| 0 <= i < rest.len() ==> (#[trigger] scan_of(rest[i])) is Ok {
                            assert forall|i: int| 0 <= i < texts.len() implies (#[trigger] scan_of(
                                texts[i],
                            )) is Ok by {
                                if i > 0 {
                                    assert(texts[i] == rest[i - 1]);
                                }
                            }
                        }
                        if forall|i: int|
                            0 <= i < texts.len() ==> (#[trigger] scan_of(texts[i])) is Ok {
                            assert forall|i: int| 0 <= i < rest.len() implies (#[trigger] scan_of(
                                rest[i],
                            )) is Ok by {
                                assert(rest[i] == texts[i + 1]);
                            }
                        }
                    },
                }
            },
        }
    }
}

/// Inserting declarations succeeds exactly where no method is held or
/// declared more than once in all. The registry then holds what it held
/// before and, for every other method declared, the record of its
/// declaration; and it stays well formed.
pub proof fn lemma_declared_once(groups: Seq<GroupView>, decls: Seq<Declaration>)
    ensures
        declared(groups, decls) is Ok <==> (forall|g: Seq<char>, m: Seq<char>|
            held(groups, g, m) + #[trigger] times_declared(decls, g, m) <= 1),
        declared(groups, decls) matches Ok(filled) ==> {
            &&& well_formed(groups) ==> well_formed(filled)
            &&& forall|g: Seq<char>, m: Seq<char>| #[trigger]
                lookup(filled, g, m) == match lookup(groups, g, m) {
                    Some(r) => Some(r),
                    None => match first_declaration(decls, g, m) {
                        Some(d) => Some(record_for(d)),
                        None => None,
                    },
                }
        },
    decreases decls.len(),
{
    if decls.len() > 0 {
        let d = decls[0];
        let rest = decls.drop_first();
        match lookup(groups, d.group, d.method) {
            Some(_) => {
                assert(held(groups, d.group, d.method) + times_declared(decls, d.group, d.method)
                    >= 2);
            },
            None => {
                let next = with_record(groups, d.group, record_for(d));
                lemma_declared_once(next, rest);
                if well_formed(groups) {
                    lemma_with_record_well_formed(
                        groups,
                        d.group,
                        d.method,
                        signature_of(d.raw_params),
                        d.class_name,
                    );
                }
                assert forall|g: Seq<char>, m: Seq<char>|
                    held(next, g, m) + #[trigger] times_declared(rest, g, m) == held(groups, g, m)
                        + times_declared(decls, g, m) by {
                    lemma_lookup_with_record(groups, d.group, record_for(d), g, m);
                }
                assert forall|g: Seq<char>, m: Seq<char>|
                    held(groups, g, m) + #[trigger] times_declared(decls, g, m) == held(next, g, m)
                        + times_declared(rest, g, m) by {
                    lemma_lookup_with_record(groups, d.group, record_for(d), g, m);
                }
                match declared(next, rest) {
                    Ok(filled) => {
                        assert forall|g: Seq<char>, m: Seq<char>| #[trigger]
                            lookup(filled, g, m) == match lookup(groups, g, m) {
                                Some(r) => Some(r),
                                None => match first_declaration(decls, g, m) {
                                    Some(d) => Some(record_for(d)),
                                    None => None,
                                },
                            } by {
                            lemma_lookup_with_record(groups, d.group, record_for(d), g, m);
                        }
                    },
                    Err(_) => {},
                }
            },
        }
    }
}

/// Where inserting declarations fails, one of them is the first that
/// fails after the ones before it went in.
proof fn lemma_first_failure(groups: Seq<GroupView>, decls: Seq<Declaration>) -> (j: int)
    requires
        declared(groups, decls) is Err,
    ensures
        0 <= j < decls.len(),
        declared(groups, decls.take(j)) is Ok,
        inserted(
            declared(groups, decls.take(j))->Ok_0,
            decls[j].group,
            decls[j].method,
            signature_of(decls[j].raw_params),
            decls[j].class_name,
        ) == Err::<Seq<GroupView>, DuplicateView>(declared(groups, decls)->Err_0),
    decreases decls.len(),
{
    let d = decls[0];
    match inserted(groups, d.group, d.method, signature_of(d.raw_params), d.class_name) {
        Ok(next) => {
            let rest = decls.drop_first();
            let k = lemma_first_failure(next, rest);
            assert(decls.take(k + 1)[0] == d);
            assert(decls.take(k + 1).drop_first() =~= rest.take(k));
            assert(decls[k + 1] == rest[k]);
            k + 1
        },
        Err(_) => {
            assert(decls.take(0) =~= Seq::<Declaration>::empty());
            0
        },
    }
}

/// The first declaration of a method is one of the declarations and
/// declares that method; there is none exactly where the method is never
/// declared.
pub proof fn lemma_first_declaration(decls: Seq<Declaration>, group: Seq<char>, method: Seq<char>)
    ensures
        first_declaration(decls, group, method) matches Some(d) ==> declares(d, group, method)
            && exists|i: int| 0 <= i < decls.len() && decls[i] == d,
        first_declaration(decls, group, method) is None <==> times_declared(decls, group, method)
            == 0,
    decreases decls.len(),
{
    if decls.len() > 0 {
        if declares(decls[0], group, method) {
            assert(decls[0] == decls[0]);
        } else {
            let rest = decls.drop_first();
            lemma_first_declaration(rest, group, method);
            if let Some(d) = first_declaration(rest, group, method) {
                let i = choose|i: int| 0 <= i < rest.len() && rest[i] == d;
                assert(decls[i + 1] == d);
            }
        }
    }
}

/// A method that is declared at most once has its one declaration for
/// its first.
pub proof fn lemma_only_declaration(
    decls: Seq<Declaration>,
    group: Seq<char>,
    method: Seq<char>,
    i: int,
)
    requires
        times_declared(decls, group, method) <= 1,
        0 <= i < decls.len(),
        declares(decls[i], group, method),
    ensures
        first_declaration(decls, group, method) == Some(decls[i]),
    decreases decls.len(),
{
    let rest = decls.drop_first();
    if i > 0 {
        assert(rest[i - 1] == decls[i]);
        if declares(decls[0], group, method) {
            lemma_first_declaration(rest, group, method);
            lemma_only_declaration(rest, group, method, i - 1);
        } else {
            lemma_only_declaration(rest, group, method, i - 1);
        }
    }
}

/// A pass that fails on a duplicate names two declarations of one
/// method: an earlier one, which the registry held, and the later one,
/// which it refused. The error lists the classes of both, in this order.
pub proof fn lemma_duplicate_names_both(decls: Seq<Declaration>)
    ensures
        declared(Seq::empty(), decls) matches Err(e) ==> exists|i: int, j: int|
            0 <= i < j < decls.len() && declares(#[trigger] decls[i], e.group, e.method)
                && declares(#[trigger] decls[j], e.group, e.method) && e.sources
                == seq![decls[i].class_name, decls[j].class_name],
{
    let empty = Seq::<GroupView>::empty();
    if let Err(e) = declared(empty, decls) {
        let j = lemma_first_failure(empty, decls);
        let before = decls.take(j);
        let held_then = declared(empty, before)->Ok_0;
        lemma_declared_once(empty, before);
        assert(group_names(empty) =~= Seq::<Seq<char>>::empty());
        assert(lookup(empty, decls[j].group, decls[j].method) is None);
        let known = lookup(held_then, decls[j].group, decls[j].method);
        assert(known is Some);
        lemma_first_declaration(before, decls[j].group, decls[j].method);
        let first = first_declaration(before, decls[j].group, decls[j].method)->Some_0;
        let i = choose|i: int| 0 <= i < before.len() && before[i] == first;
        assert(decls[i] == first);
        assert(known == Some(record_for(first)));
        assert(e.sources =~= seq![decls[i].class_name, decls[j].class_name]);
    }
}

/// The count over two runs of declarations is the sum of the counts.
proof fn lemma_times_declared_append(
    x: Seq<Declaration>,
    y: Seq<Declaration>,
    group: Seq<char>,
    method: Seq<char>,
)
    ensures
        times_declared(x + y, group, method) == times_declared(x, group, method) + times_declared(
            y,
            group,
            method,
        ),
    decreases x.len(),
{
    if x.len() == 0 {
        assert(x + y =~= y);
    } else {
        assert((x + y)[0] == x[0]);
        assert((x + y).drop_first() =~= x.drop_first() + y);
        lemma_times_declared_append(x.drop_first(), y, group, method);
    }
}

/// How often each file declares `method` in `group`.
pub open spec fn file_count(group: Seq<char>, method: Seq<char>) -> spec_fn(Seq<char>) -> nat {
    |text: Seq<char>| times_declared(file_declarations(text), group, method)
}

/// A method is declared in a walk as often as in all its files together.
pub proof fn lemma_walk_count(texts: Seq<Seq<char>>, group: Seq<char>, method: Seq<char>)
    ensures
        times_declared(walk_declarations(texts), group, method) == total(
            texts,
            file_count(group, method),
        ),
    decreases texts.len(),
{
    if texts.len() > 0 {
        lemma_times_declared_append(
            file_declarations(texts[0]),
            walk_declarations(texts.drop_first()),
            group,
            method,
        );
        lemma_walk_count(texts.drop_first(), group, method);
    }
}

/// The sum over a sequence is the sum without one item, and that item.
proof fn lemma_total_remove<A>(s: Seq<A>, f: spec_fn(A) -> nat, i: int)
    requires
        0 <= i < s.len(),
    ensures
        total(s, f) == total(s.remove(i), f) + f(s[i]),
    decreases s.len(),
{
    if i == 0 {
        assert(s.remove(0) =~= s.drop_first());
    } else {
        assert(s.remove(i)[0] == s[0]);
        assert(s.remove(i).drop_first() =~= s.drop_first().remove(i - 1));
        lemma_total_remove(s.drop_first(), f, i - 1);
    }
}

/// Sequences with the same items, each as often, hold the same items.
proof fn lemma_shared_item<A>(a: Seq<A>, b: Seq<A>, x: A)
    requires
        a.to_multiset() == b.to_multiset(),
        a.contains(x),
    ensures
        b.contains(x),
{
    a.to_multiset_ensures();
    b.to_multiset_ensures();
    assert(a.to_multiset().count(x) > 0);
    assert(b.to_multiset().count(x) > 0);
}

/// The sum over a sequence does not depend on the order of its items.
pub proof fn lemma_total_order<A>(a: Seq<A>, b: Seq<A>, f: spec_fn(A) -> nat)
    requires
        a.to_multiset() == b.to_multiset(),
    ensures
        total(a, f) == total(b, f),
    decreases a.len(),
{
    a.to_multiset_ensures();
    b.to_multiset_ensures();
    if a.len() > 0 {
        let x = a[0];
        assert(a.contains(x));
        lemma_shared_item(a, b, x);
        let i = b.lemma_contains_to_index(x);
        let shorter_a = a.remove(0);
        let shorter_b = b.remove(i);
        assert(shorter_a.to_multiset() =~= shorter_b.to_multiset());
        lemma_total_order(shorter_a, shorter_b, f);
        lemma_total_remove(a, f, 0);
        lemma_total_remove(b, f, i);
    }
}

/// What a file declares, the walk declares.
proof fn lemma_walk_holds(texts: Seq<Seq<char>>, k: int, d: Declaration) -> (i: int)
    requires
        0 <= k < texts.len(),
        file_declarations(texts[k]).contains(d),
    ensures
        0 <= i < walk_declarations(texts).len(),
        walk_declarations(texts)[i] == d,
    decreases texts.len(),
{
    let head = file_declarations(texts[0]);
    let tail = walk_declarations(texts.drop_first());
    if k == 0 {
        head.lemma_contains_to_index(d)
    } else {
        assert(texts.drop_first()[k - 1] == texts[k]);
        let i = lemma_walk_holds(texts.drop_first(), k - 1, d);
        head.len() + i
    }
}

/// What the walk declares, one of its files declares.
proof fn lemma_walk_source(texts: Seq<Seq<char>>, i: int) -> (k: int)
    requires
        0 <= i < walk_declarations(texts).len(),
    ensures
        0 <= k < texts.len(),
        file_declarations(texts[k]).contains(walk_declarations(texts)[i]),
    decreases texts.len(),
{
    let head = file_declarations(texts[0]);
    if i < head.len() {
        assert(head[i] == walk_declarations(texts)[i]);
        0
    } else {
        let k = lemma_walk_source(texts.drop_first(), i - head.len());
        assert(texts.drop_first()[k] == texts[k + 1]);
        k + 1
    }
}

/// The files of a walk in another order give a pass that succeeds or
/// fails as the first does, and, where both succeed, a registry that
/// holds the same record for every method of every group. Only the
/// order in which groups and methods are emitted may differ.
pub proof fn lemma_walk_order(a: Seq<Seq<char>>, b: Seq<Seq<char>>)
    requires
        a.to_multiset() == b.to_multiset(),
    ensures
        with_texts(Seq::empty(), a) is Ok <==> with_texts(Seq::empty(), b) is Ok,
        with_texts(Seq::empty(), a) matches Ok(x) ==> with_texts(Seq::empty(), b) matches Ok(y)
            ==> forall|g: Seq<char>, m: Seq<char>| #[trigger] lookup(x, g, m) == lookup(y, g, m),
{
    let empty = Seq::<GroupView>::empty();
    let da = walk_declarations(a);
    let db = walk_declarations(b);
    a.to_multiset_ensures();
    b.to_multiset_ensures();
    lemma_pass_declared(empty, a);
    lemma_pass_declared(empty, b);
    lemma_declared_once(empty, da);
    lemma_declared_once(empty, db);
    assert forall|g: Seq<char>, m: Seq<char>| #[trigger]
        times_declared(da, g, m) == times_declared(db, g, m) by {
        lemma_walk_count(a, g, m);
        lemma_walk_count(b, g, m);
        lemma_total_order(a, b, file_count(g, m));
    }
    assert forall|g: Seq<char>, m: Seq<char>|
        held(empty, g, m) + #[trigger] times_declared(db, g, m) == held(empty, g, m)
            + times_declared(da, g, m) by {}
    lemma_scans_order(a, b);
    lemma_scans_order(b, a);
    if let Ok(x) = with_texts(empty, a) {
        if let Ok(y) = with_texts(empty, b) {
            assert(group_names(empty) =~= Seq::<Seq<char>>::empty());
            assert forall|g: Seq<char>, m: Seq<char>| #[trigger]
                lookup(x, g, m) == lookup(y, g, m) by {
                assert(lookup(empty, g, m) is None);
                assert(held(empty, g, m) + times_declared(da, g, m) <= 1);
                assert(held(empty, g, m) + times_declared(db, g, m) <= 1);
                lemma_first_declaration(da, g, m);
                lemma_first_declaration(db, g, m);
                if let Some(d) = first_declaration(da, g, m) {
                    let i = choose|i: int| 0 <= i < da.len() && da[i] == d;
                    let k = lemma_walk_source(a, i);
                    assert(a.contains(a[k]));
                    lemma_shared_item(a, b, a[k]);
                    let n = b.lemma_contains_to_index(a[k]);
                    let j = lemma_walk_holds(b, n, d);
                    lemma_only_declaration(db, g, m, j);
                }
            }
        }
    }
}

/// Every pass keeps to one record for each method of a group. One that
/// succeeds has met no method twice, and its registry is well formed and
/// holds for each method the record of its one declaration. One that
/// fails on a duplicate has met two declarations of one method, and its
/// error lists the classes of both.
pub proof fn lemma_pass_unique(texts: Seq<Seq<char>>)
    ensures
        match with_texts(Seq::empty(), texts) {
            Ok(filled) => {
                &&& well_formed(filled)
                &&& forall|g: Seq<char>, m: Seq<char>| #[trigger]
                    times_declared(walk_declarations(texts), g, m) <= 1
                &&& forall|g: Seq<char>, m: Seq<char>| #[trigger]
                    lookup(filled, g, m) == match first_declaration(
                        walk_declarations(texts),
                        g,
                        m,
                    ) {
                        Some(d) => Some(record_for(d)),
                        None => None,
                    }
            },
            Err(PassErrorView::Duplicate(e)) => exists|i: int, j: int|
                0 <= i < j < walk_declarations(texts).len() && declares(
                    #[trigger] walk_declarations(texts)[i],
                    e.group,
                    e.method,
                ) && declares(#[trigger] walk_declarations(texts)[j], e.group, e.method)
                    && e.sources == seq![
                    walk_declarations(texts)[i].class_name,
                    walk_declarations(texts)[j].class_name,
                ],
            Err(PassErrorView::Pattern(e)) => exists|i: int|
                0 <= i < texts.len() && #[trigger] scan_of(texts[i]) == Err::<
                    ScanView,
                    PatternError,
                >(e),
        },
{
    let empty = Seq::<GroupView>::empty();
    let decls = walk_declarations(texts);
    lemma_pass_declared(empty, texts);
    lemma_declared_once(empty, decls);
    lemma_duplicate_names_both(decls);
    assert(group_names(empty) =~= Seq::<Seq<char>>::empty());
    if let Ok(filled) = with_texts(empty, texts) {
        assert forall|g: Seq<char>, m: Seq<char>| #[trigger]
            times_declared(decls, g, m) <= 1 by {
            assert(held(empty, g, m) + times_declared(decls, g, m) <= 1);
        }
        assert forall|g: Seq<char>, m: Seq<char>| #[trigger]
            lookup(filled, g, m) == match first_declaration(decls, g, m) {
                Some(d) => Some(record_for(d)),
                None => None,
            } by {
            assert(lookup(empty, g, m) is None);
        }
    }
}

/// A file without a group marker adds nothing to the registry and fails
/// nothing, whatever else it declares.
pub proof fn lemma_file_without_group(
    groups: Seq<GroupView>,
    group_found: Seq<Seq<Option<Seq<char>>>>,
    class_found: Seq<Seq<Option<Seq<char>>>>,
    method_found: Seq<Seq<Option<Seq<char>>>>,
    text: Seq<char>,
)
    ensures
        first_capture(group_found) is None ==> with_outcome(
            groups,
            outcome_of(group_found, class_found, method_found),
        ) == Ok::<Seq<GroupView>, DuplicateView>(groups),
        pattern_failure() is None && first_capture(matches_of(GROUP_PATTERN@, text)) is None
            ==> with_text(groups, text) == Ok::<Seq<GroupView>, PassErrorView>(groups),
{
}

/// Where every file of a walk can be scanned, so can every file of the
/// same walk in another order.
proof fn lemma_scans_order(a: Seq<Seq<char>>, b: Seq<Seq<char>>)
    requires
        a.to_multiset() == b.to_multiset(),
    ensures
        (forall|i: int| 0 <= i < a.len() ==> (#[trigger] scan_of(a[i])) is Ok) ==> (forall|i: int|
            0 <= i < b.len() ==> (#[trigger] scan_of(b[i])) is Ok),
{
    a.to_multiset_ensures();
    b.to_multiset_ensures();
    if forall|i: int| 0 <= i < a.len() ==> (#[trigger] scan_of(a[i])) is Ok {
        assert forall|i: int| 0 <= i < b.len() implies (#[trigger] scan_of(b[i])) is Ok by {
            assert(b.contains(b[i]));
            lemma_shared_item(b, a, b[i]);
            let k = a.lemma_contains_to_index(b[i]);
            assert(scan_of(a[k]) is Ok);
        }
    }
}

} // verus!

//! The registry: the methods of one pass, by group, each admitted once.

use crate::signature::{Signature, SignatureView};
use crate::text::{first_index, lemma_first_index, lemma_first_index_is};
use vstd::prelude::*;

verus! {

/// What the emitter needs to print one forwarding function.
#[derive(Clone, Debug, PartialEq, Eq)]
pub struct RegistryEntry {
    /// The parameter list of the function.
    pub definitions: String,
    /// The argument list of the forwarded call.
    pub names: String,
    /// The name of the channel: the group, a hyphen and the method.
    pub route: String,
}

/// The mathematical value of a [`RegistryEntry`].
pub struct EntryView {
    pub definitions: Seq<char>,
    pub names: Seq<char>,
    pub route: Seq<char>,
}

impl View for RegistryEntry {
    type V = EntryView;

    open spec fn view(&self) -> EntryView {
        EntryView { definitions: self.definitions@, names: self.names@, route: self.route@ }
    }
}

/// One method of a group, with the classes that declared it.
#[derive(Clone, Debug, PartialEq, Eq)]
pub struct MethodRecord {
    pub name: String,
    pub entry: RegistryEntry,
    /// The names of the declaring classes, in the order of discovery.
    pub sources: Vec<String>,
}

/// The mathematical value of a [`MethodRecord`].
pub struct MethodView {
    pub name: Seq<char>,
    pub entry: EntryView,
    pub sources: Seq<Seq<char>>,
}

impl View for MethodRecord {
    type V = MethodView;

    open spec fn view(&self) -> MethodView {
        MethodView { name: self.name@, entry: self.entry@, sources: self.sources.deep_view() }
    }
}

impl DeepView for MethodRecord {
    type V = MethodView;

    open spec fn deep_view(&self) -> MethodView {
        self@
    }
}

/// One group with its methods, in the order of discovery.
#[derive(Clone, Debug, PartialEq, Eq)]
pub struct GroupRecord {
    pub name: String,
    pub methods: Vec<MethodRecord>,
}

/// The mathematical value of a [`GroupRecord`].
pub struct GroupView {
    pub name: Seq<char>,
    pub methods: Seq<MethodView>,
}

impl View for GroupRecord {
    type V = GroupView;

    open spec fn view(&self) -> GroupView {
        GroupView { name: self.name@, methods: self.methods.deep_view() }
    }
}

impl DeepView for GroupRecord {
    type V = GroupView;

    open spec fn deep_view(&self) -> GroupView {
        self@
    }
}

/// A method was declared a second time in its group.
#[derive(Clone, Debug, PartialEq, Eq)]
pub struct DuplicateError {
    pub group: String,
    pub method: String,
    /// Every class that declared the method: those recorded before, then
    /// the one that was refused.
    pub sources: Vec<String>,
}

/// The mathematical value of a [`DuplicateError`].
pub struct DuplicateView {
    pub group: Seq<char>,
    pub method: Seq<char>,
    pub sources: Seq<Seq<char>>,
}

impl View for DuplicateError {
    type V = DuplicateView;

    open spec fn view(&self) -> DuplicateView {
        DuplicateView { group: self.group@, method: self.method@, sources: self.sources.deep_view() }
    }
}

/// The names of `groups`, in their order.
pub open spec fn group_names(groups: Seq<GroupView>) -> Seq<Seq<char>> {
    groups.map_values(|g: GroupView| g.name)
}

/// The names of `methods`, in their order.
pub open spec fn method_names(methods: Seq<MethodView>) -> Seq<Seq<char>> {
    methods.map_values(|m: MethodView| m.name)
}

/// The record of `method` in `group`, where there is one.
pub open spec fn lookup(groups: Seq<GroupView>, group: Seq<char>, method: Seq<char>) -> Option<
    MethodView,
> {
    let i = first_index(group_names(groups), group);
    if 0 <= i < groups.len() {
        let methods = groups[i].methods;
        let j = first_index(method_names(methods), method);
        if 0 <= j < methods.len() {
            Some(methods[j])
        } else {
            None
        }
    } else {
        None
    }
}

/// The name of the channel of `method` in `group`.
pub open spec fn route_of(group: Seq<char>, method: Seq<char>) -> Seq<char> {
    group + "-"@ + method
}

/// The record of a method that `class_name` declares.
pub open spec fn record_of(
    group: Seq<char>,
    method: Seq<char>,
    signature: SignatureView,
    class_name: Seq<char>,
) -> MethodView {
    MethodView {
        name: method,
        entry: EntryView {
            definitions: signature.definitions,
            names: signature.names,
            route: route_of(group, method),
        },
        sources: seq![class_name],
    }
}

/// `groups` with `record` added to `group`: at the end of the group's
/// methods, or, where the group is new, as the only method of a group at
/// the end.
pub open spec fn with_record(groups: Seq<GroupView>, group: Seq<char>, record: MethodView) -> Seq<
    GroupView,
> {
    let i = first_index(group_names(groups), group);
    if 0 <= i < groups.len() {
        groups.update(i, GroupView { name: group, methods: groups[i].methods.push(record) })
    } else {
        groups.push(GroupView { name: group, methods: seq![record] })
    }
}

/// What an insertion gives: the registry with the new record, or, where
/// the group holds the method already, the classes that declared it and
/// the one that comes too late.
pub open spec fn inserted(
    groups: Seq<GroupView>,
    group: Seq<char>,
    method: Seq<char>,
    signature: SignatureView,
    class_name: Seq<char>,
) -> Result<Seq<GroupView>, DuplicateView> {
    match lookup(groups, group, method) {
        Some(known) => Err(
            DuplicateView { group, method, sources: known.sources.push(class_name) },
        ),
        None => Ok(with_record(groups, group, record_of(group, method, signature, class_name))),
    }
}

/// The invariant of a registry: no two groups share a name, no group is
/// empty, no two methods of a group share a name, every method has one
/// declaring class, and every route is made of its group and method.
pub open spec fn well_formed(groups: Seq<GroupView>) -> bool {
    &&& forall|i: int, j: int|
        0 <= i < j < groups.len() ==> (#[trigger] groups[i]).name != (#[trigger] groups[j]).name
    &&& forall|i: int| 0 <= i < groups.len() ==> well_formed_group(#[trigger] groups[i])
}

/// The invariant of one group of a registry.
pub open spec fn well_formed_group(g: GroupView) -> bool {
    &&& g.methods.len() > 0
    &&& forall|a: int, b: int|
        0 <= a < b < g.methods.len() ==> (#[trigger] g.methods[a]).name != (
        #[trigger] g.methods[b]).name
    &&& forall|a: int|
        0 <= a < g.methods.len() ==> {
            &&& (#[trigger] g.methods[a]).sources.len() == 1
            &&& g.methods[a].entry.route == route_of(g.name, g.methods[a].name)
        }
}

/// Adding the record of a method that its group does not hold keeps the
/// registry well formed.
pub proof fn lemma_with_record_well_formed(
    groups: Seq<GroupView>,
    group: Seq<char>,
    method: Seq<char>,
    signature: SignatureView,
    class_name: Seq<char>,
)
    requires
        well_formed(groups),
        lookup(groups, group, method) is None,
    ensures
        well_formed(with_record(groups, group, record_of(group, method, signature, class_name))),
{
    let record = record_of(group, method, signature, class_name);
    let after = with_record(groups, group, record);
    let names = group_names(groups);
    let i = first_index(names, group);
    lemma_first_index(names, group);
    if 0 <= i < groups.len() {
        let methods = groups[i].methods;
        let grown = methods.push(record);
        let j = first_index(method_names(methods), method);
        lemma_first_index(method_names(methods), method);
        assert(names[i] == group);
        assert forall|a: int, b: int| 0 <= a < b < grown.len() implies (#[trigger] grown[a]).name != (
        #[trigger] grown[b]).name by {
            if b == methods.len() {
                assert(method_names(methods)[a] != method);
            } else {
                assert(methods[a].name != methods[b].name);
            }
        }
        assert forall|a: int| 0 <= a < grown.len() implies {
            &&& (#[trigger] grown[a]).sources.len() == 1
            &&& grown[a].entry.route == route_of(group, grown[a].name)
        } by {
            if a < methods.len() {
                assert(well_formed_group(groups[i]));
                assert(grown[a] == methods[a]);
            }
        }
        assert(well_formed_group(after[i]));
        assert forall|k: int| 0 <= k < after.len() implies well_formed_group(
            #[trigger] after[k],
        ) by {
            if k != i {
                assert(after[k] == groups[k]);
            }
        }
        assert forall|a: int, b: int| 0 <= a < b < after.len() implies (#[trigger] after[a]).name != (
        #[trigger] after[b]).name by {
            assert(after[a].name == groups[a].name);
            assert(after[b].name == groups[b].name);
        }
    } else {
        assert forall|a: int, b: int| 0 <= a < b < after.len() implies (#[trigger] after[a]).name != (
        #[trigger] after[b]).name by {
            if b == groups.len() {
                assert(names[a] != group);
            } else {
                assert(groups[a].name != groups[b].name);
            }
        }
        assert forall|k: int| 0 <= k < after.len() implies well_formed_group(
            #[trigger] after[k],
        ) by {
            if k < groups.len() {
                assert(after[k] == groups[k]);
            } else {
                assert(after[k].methods[0] == record);
            }
        }
    }
}

/// The methods of one pass, by group. Groups stand in the order in which
/// they were first seen, and the methods of a group in the order in which
/// they were added, so that the same declarations in the same order
/// always give the same registry.
#[derive(Debug, PartialEq, Eq)]
pub struct Registry {
    groups: Vec<GroupRecord>,
}

impl View for Registry {
    type V = Seq<GroupView>;

    closed spec fn view(&self) -> Seq<GroupView> {
        self.groups.deep_view()
    }
}

impl Registry {
    /// Every registry is well formed.
    #[verifier::type_invariant]
    pub open spec fn inv(self) -> bool {
        well_formed(self@)
    }

    /// A registry without groups.
    pub fn new() -> (r: Registry)
        ensures
            r@ == Seq::<GroupView>::empty(),
            well_formed(r@),
    {
        let r = Registry { groups: Vec::new() };
        assert(r@ =~= Seq::<GroupView>::empty());
        r
    }

    /// The groups, in the order in which they are emitted.
    pub fn groups(&self) -> (r: &Vec<GroupRecord>)
        ensures
            r.deep_view() == self@,
            well_formed(self@),
    {
        proof {
            use_type_invariant(self);
        }
        &self.groups
    }

    /// The position of the group `name`, or the number of groups.
    fn group_position(&self, name: &String) -> (r: usize)
        ensures
            r == first_index(group_names(self@), name@),
            r <= self.groups.len(),
    {
        let mut i: usize = 0;
        while i < self.groups.len()
            invariant
                i <= self.groups.len(),
                forall|k: int| 0 <= k < i ==> group_names(self@)[k] != name@,
            decreases self.groups.len() - i,
        {
            if self.groups[i].name == *name {
                proof {
                    assert(group_names(self@)[i as int] == name@);
                    lemma_first_index_is(group_names(self@), name@, i as int);
                }
                return i;
            }
            assert(group_names(self@)[i as int] != name@);
            i += 1;
        }
        proof {
            lemma_first_index_is(group_names(self@), name@, i as int);
        }
        i
    }

    /// The record of `method` in `group`, where the registry holds one.
    pub fn get(&self, group: &str, method: &str) -> (r: Option<&MethodRecord>)
        ensures
            match r {
                Some(record) => lookup(self@, group@, method@) == Some(record@),
                None => lookup(self@, group@, method@) is None,
            },
    {
        let group_name = group.to_owned();
        let method_name = method.to_owned();
        let i = self.group_position(&group_name);
        if i < self.groups.len() {
            let methods = &self.groups[i].methods;
            let j = method_position(methods, &method_name);
            assert(self@[i as int] == self.groups@[i as int]@);
            if j < methods.len() {
                assert(self@[i as int].methods[j as int] == methods@[j as int]@);
                Some(&methods[j])
            } else {
                None
            }
        } else {
            None
        }
    }

    /// Adds the method `method` of `group`, declared by `class_name` with
    /// `signature`.
    ///
    /// A method that its group holds already is refused: the registry
    /// stays as it was, and the error names the classes that declared the
    /// method before and the one that was refused.
    pub fn insert(
        &mut self,
        group: &str,
        method: &str,
        signature: &Signature,
        class_name: &str,
    ) -> (r: Result<(), DuplicateError>)
        ensures
            well_formed(old(self)@),
            well_formed(final(self)@),
            match inserted(old(self)@, group@, method@, signature@, class_name@) {
                Ok(groups) => r is Ok && final(self)@ == groups,
                Err(e) => r is Err && r->Err_0@ == e && final(self)@ == old(self)@,
            },
    {
        proof {
            use_type_invariant(&*self);
        }
        let group_name = group.to_owned();
        let method_name = method.to_owned();
        let ghost before = self@;
        let ghost record = record_of(group@, method@, signature@, class_name@);
        let i = self.group_position(&group_name);
        if i < self.groups.len() {
            let j = method_position(&self.groups[i].methods, &method_name);
            assert(before[i as int] == self.groups@[i as int]@);
            if j < self.groups[i].methods.len() {
                let known = &self.groups[i].methods[j];
                assert(before[i as int].methods[j as int] == known@);
                let mut sources = known.sources.clone();
                sources.push(class_name.to_owned());
                assert(sources.deep_view() =~= known@.sources.push(class_name@));
                return Err(DuplicateError { group: group_name, method: method_name, sources });
            }
        }
        let mut route = group.to_owned();
        route.append("-");
        route.append(method);
        let mut sources: Vec<String> = Vec::new();
        sources.push(class_name.to_owned());
        assert(sources.deep_view() =~= seq![class_name@]);
        let fresh = MethodRecord {
            name: method_name,
            entry: RegistryEntry {
                definitions: signature.definitions.clone(),
                names: signature.names.clone(),
                route,
            },
            sources,
        };
        assert(fresh@ == record);
        proof {
            lemma_with_record_well_formed(before, group@, method@, signature@, class_name@);
            lemma_first_index(group_names(before), group@);
        }
        let mut groups: Vec<GroupRecord> = Vec::new();
        assert(groups.deep_view() =~= Seq::<GroupView>::empty());
        core::mem::swap(&mut self.groups, &mut groups);
        if i < groups.len() {
            groups[i].methods.push(fresh);
            proof {
                let after = with_record(before, group@, record);
                assert forall|k: int| 0 <= k < after.len() implies groups.deep_view()[k]
                    == after[k] by {
                    assert(groups.deep_view()[k] == groups@[k]@);
                    if k == i {
                        assert(groups@[k]@.methods =~= before[k].methods.push(record));
                    } else {
                        assert(before[k] == old(self).groups@[k]@);
                    }
                }
            }
        } else {
            let mut methods: Vec<MethodRecord> = Vec::new();
            methods.push(fresh);
            assert(methods.deep_view() =~= seq![record]);
            groups.push(GroupRecord { name: group_name, methods });
        }
        assert(groups.deep_view() =~= with_record(before, group@, record));
        self.groups = groups;
        Ok(())
    }
}

/// The position of the method `name` in `methods`, or their number.
fn method_position(methods: &Vec<MethodRecord>, name: &String) -> (r: usize)
    ensures
        r == first_index(method_names(methods.deep_view()), name@),
        r <= methods.len(),
{
    let ghost names = method_names(methods.deep_view());
    let mut i: usize = 0;
    while i < methods.len()
        invariant
            i <= methods.len(),
            names == method_names(methods.deep_view()),
            forall|k: int| 0 <= k < i ==> names[k] != name@,
        decreases methods.len() - i,
    {
        if methods[i].name == *name {
            proof {
                assert(names[i as int] == name@);
                lemma_first_index_is(names, name@, i as int);
            }
            return i;
        }
        assert(names[i as int] != name@);
        i += 1;
    }
    proof {
        lemma_first_index_is(names, name@, i as int);
    }
    i
}

} // verus!

//! The emitter: renders a registry as the text of the generated module.

use crate::registry::{GroupRecord, GroupView, MethodRecord, MethodView, Registry};
use vstd::prelude::*;

verus! {

/// The first lines of every generated module: the import of the
/// invocation primitive and the opening of the exported object.
pub const HEADER: &'static str =
    "import { ipcRenderer } from \"electron\";\n\nexport const api = {\n";

/// The last line of every generated module.
pub const FOOTER: &'static str = "};\n";

/// The forwarding function of one method.
pub open spec fn rendered_method(m: MethodView) -> Seq<char> {
    "    "@ + m.name + ": async ("@ + m.entry.definitions
        + ") => {\n      return await ipcRenderer.invoke(\""@ + m.entry.route + "\", "@
        + m.entry.names + ");\n    },\n"@
}

/// The forwarding functions of `methods`, in their order.
pub open spec fn rendered_methods(methods: Seq<MethodView>) -> Seq<char>
    decreases methods.len(),
{
    if methods.len() == 0 {
        Seq::empty()
    } else {
        rendered_methods(methods.drop_last()) + rendered_method(methods.last())
    }
}

/// The object of one group.
pub open spec fn rendered_group(g: GroupView) -> Seq<char> {
    "  "@ + g.name + ": {\n"@ + rendered_methods(g.methods) + "  },\n"@
}

/// The objects of `groups`, in their order.
pub open spec fn rendered_groups(groups: Seq<GroupView>) -> Seq<char>
    decreases groups.len(),
{
    if groups.len() == 0 {
        Seq::empty()
    } else {
        rendered_groups(groups.drop_last()) + rendered_group(groups.last())
    }
}

/// The generated module for `groups`.
pub open spec fn rendered(groups: Seq<GroupView>) -> Seq<char> {
    HEADER@ + rendered_groups(groups) + FOOTER@
}

/// Appends the forwarding function of `m` to `out`.
fn render_method(out: &mut String, m: &MethodRecord)
    ensures
        final(out)@ == old(out)@ + rendered_method(m@),
{
    out.append("    ");
    out.append(m.name.as_str());
    out.append(": async (");
    out.append(m.entry.definitions.as_str());
    out.append(") => {\n      return await ipcRenderer.invoke(\"");
    out.append(m.entry.route.as_str());
    out.append("\", ");
    out.append(m.entry.names.as_str());
    out.append(");\n    },\n");
    assert(out@ =~= old(out)@ + rendered_method(m@));
}

/// Appends the object of `g` to `out`.
fn render_group(out: &mut String, g: &GroupRecord)
    ensures
        final(out)@ == old(out)@ + rendered_group(g@),
{
    out.append("  ");
    out.append(g.name.as_str());
    out.append(": {\n");
    let ghost head = out@;
    let ghost methods = g.methods.deep_view();
    for i in 0..g.methods.len()
        invariant
            methods == g.methods.deep_view(),
            out@ == head + rendered_methods(methods.take(i as int)),
    {
        let ghost prev = out@;
        render_method(out, &g.methods[i]);
        proof {
            assert(methods.take(i + 1).drop_last() =~= methods.take(i as int));
            assert(methods.take(i + 1).last() == g.methods@[i as int]@);
            assert(out@ =~= head + rendered_methods(methods.take(i + 1)));
        }
    }
    out.append("  },\n");
    proof {
        assert(methods.take(g.methods.len() as int) =~= methods);
        assert(out@ =~= old(out)@ + rendered_group(g@));
    }
}

/// Renders the registry as the generated module: the header, one object
/// for each group with one forwarding function for each of its methods,
/// and the footer. Groups and methods come in the registry's order.
pub fn render(registry: &Registry) -> (r: String)
    ensures
        r@ == rendered(registry@),
{
    let groups = registry.groups();
    let mut out = String::new();
    out.append(HEADER);
    let ghost all = groups.deep_view();
    for i in 0..groups.len()
        invariant
            all == groups.deep_view(),
            out@ == HEADER@ + rendered_groups(all.take(i as int)),
    {
        render_group(&mut out, &groups[i]);
        proof {
            assert(all.take(i + 1).drop_last() =~= all.take(i as int));
            assert(all.take(i + 1).last() == groups@[i as int]@);
            assert(out@ =~= HEADER@ + rendered_groups(all.take(i + 1)));
        }
    }
    out.append(FOOTER);
    proof {
        assert(all.take(groups.len() as int) =~= all);
    }
    out
}

} // verus!

//! The signature parser: from the raw text between a method's parentheses
//! to its parameters and the two lists that the emitter prints.

use crate::text::{find, first_index, join, split, trim, trimmed};
use vstd::prelude::*;

verus! {

/// One parameter of a method: its name and its type annotation.
#[derive(Clone, Debug, PartialEq, Eq)]
pub struct ParsedParam {
    pub name: String,
    pub annotation: String,
}

/// The mathematical value of a [`ParsedParam`].
pub struct ParamView {
    pub name: Seq<char>,
    pub annotation: Seq<char>,
}

impl View for ParsedParam {
    type V = ParamView;

    open spec fn view(&self) -> ParamView {
        ParamView { name: self.name@, annotation: self.annotation@ }
    }
}

impl DeepView for ParsedParam {
    type V = ParamView;

    open spec fn deep_view(&self) -> ParamView {
        self@
    }
}

/// What became of one entry of a parameter list.
#[derive(Clone, Debug, PartialEq, Eq)]
pub enum ParamOutcome {
    /// The entry is a name, a colon and a type annotation.
    Parsed(ParsedParam),
    /// The entry has no colon, or nothing on one side of it.
    Dropped,
}

impl View for ParamOutcome {
    type V = Option<ParamView>;

    open spec fn view(&self) -> Option<ParamView> {
        match self {
            ParamOutcome::Parsed(p) => Some(p@),
            ParamOutcome::Dropped => None,
        }
    }
}

/// A parsed parameter list.
#[derive(Clone, Debug, PartialEq, Eq)]
pub struct Signature {
    /// The parameters, in the order of their declaration.
    pub params: Vec<ParsedParam>,
    /// The parameters as `name: type`, joined by a comma and a space.
    pub definitions: String,
    /// The bare names, joined by a comma and a space.
    pub names: String,
}

/// The mathematical value of a [`Signature`].
pub struct SignatureView {
    pub params: Seq<ParamView>,
    pub definitions: Seq<char>,
    pub names: Seq<char>,
}

impl View for Signature {
    type V = SignatureView;

    open spec fn view(&self) -> SignatureView {
        SignatureView {
            params: self.params.deep_view(),
            definitions: self.definitions@,
            names: self.names@,
        }
    }
}

/// The parameter that `entry` declares. The entry is cut at its first
/// colon; the name stands before it and the annotation after it, both
/// trimmed. An entry without a colon, or with an empty side, declares
/// nothing.
pub open spec fn param_of(entry: Seq<char>) -> Option<ParamView> {
    let i = first_index(entry, ':');
    if 0 <= i < entry.len() {
        let name = trimmed(entry.subrange(0, i));
        let annotation = trimmed(entry.subrange(i + 1, entry.len() as int));
        if name.len() > 0 && annotation.len() > 0 {
            Some(ParamView { name, annotation })
        } else {
            None
        }
    } else {
        None
    }
}

/// The parameter that one comma-separated piece contributes: the piece is
/// trimmed, and an empty one contributes nothing.
pub open spec fn param_of_piece(piece: Seq<char>) -> Option<ParamView> {
    let entry = trimmed(piece);
    if entry.len() > 0 {
        param_of(entry)
    } else {
        None
    }
}

/// The parameters that the pieces contribute, in the order of the pieces.
pub open spec fn params_of_pieces(pieces: Seq<Seq<char>>) -> Seq<ParamView>
    decreases pieces.len(),
{
    if pieces.len() == 0 {
        Seq::empty()
    } else {
        let rest = params_of_pieces(pieces.drop_first());
        match param_of_piece(pieces[0]) {
            Some(p) => seq![p] + rest,
            None => rest,
        }
    }
}

/// The parameters of a raw parameter list: it is cut at every comma,
/// without regard to brackets.
pub open spec fn params_of(raw: Seq<char>) -> Seq<ParamView> {
    params_of_pieces(split(raw, ','))
}

/// A parameter as the emitter prints it in a parameter list.
pub open spec fn definition(p: ParamView) -> Seq<char> {
    p.name + ": "@ + p.annotation
}

/// The definition list of `params`.
pub open spec fn definitions_of(params: Seq<ParamView>) -> Seq<char> {
    join(params.map_values(|p: ParamView| definition(p)), ", "@)
}

/// The argument list of `params`.
pub open spec fn names_of(params: Seq<ParamView>) -> Seq<char> {
    join(params.map_values(|p: ParamView| p.name), ", "@)
}

/// The signature that a raw parameter list stands for.
pub open spec fn signature_of(raw: Seq<char>) -> SignatureView {
    let params = params_of(raw);
    SignatureView { params, definitions: definitions_of(params), names: names_of(params) }
}

/// Parses one entry of a parameter list.
pub fn parse_param(entry: &str) -> (r: ParamOutcome)
    ensures
        r@ == param_of(entry@),
{
    let n: usize = entry.unicode_len();
    let i: usize = find(entry, ':');
    if i < n {
        let name = trim(entry.substring_char(0, i));
        let annotation = trim(entry.substring_char(i + 1, n));
        if name.unicode_len() > 0 && annotation.unicode_len() > 0 {
            ParamOutcome::Parsed(
                ParsedParam { name: name.to_owned(), annotation: annotation.to_owned() },
            )
        } else {
            ParamOutcome::Dropped
        }
    } else {
        ParamOutcome::Dropped
    }
}

/// Parses one comma-separated piece of a parameter list.
fn parse_piece(piece: &str) -> (r: ParamOutcome)
    ensures
        r@ == param_of_piece(piece@),
{
    let entry = trim(piece);
    if entry.unicode_len() > 0 {
        parse_param(entry)
    } else {
        ParamOutcome::Dropped
    }
}

/// The parameters of a raw parameter list, in the order of declaration.
pub fn parse_params(raw: &str) -> (r: Vec<ParsedParam>)
    ensures
        r.deep_view() == params_of(raw@),
{
    let mut params: Vec<ParsedParam> = Vec::new();
    let mut rest: &str = raw;
    let mut more: bool = true;
    while more
        invariant
            more ==> params_of(raw@) == params.deep_view() + params_of_pieces(split(rest@, ',')),
            !more ==> params_of(raw@) == params.deep_view(),
        decreases rest@.len() + if more { 1int } else { 0int },
    {
        let n: usize = rest.unicode_len();
        let i: usize = find(rest, ',');
        let ghost before = params.deep_view();
        let ghost pieces = split(rest@, ',');
        let piece = if i < n {
            rest.substring_char(0, i)
        } else {
            rest
        };
        proof {
            assert(pieces[0] == piece@);
        }
        match parse_piece(piece) {
            ParamOutcome::Parsed(p) => {
                params.push(p);
                assert(params.deep_view() =~= before + seq![p@]);
            },
            ParamOutcome::Dropped => {},
        }
        if i < n {
            rest = rest.substring_char(i + 1, n);
            proof {
                assert(pieces.drop_first() =~= split(rest@, ','));
                assert(params_of_pieces(pieces) =~= (match param_of_piece(pieces[0]) {
                    Some(p) => seq![p],
                    None => Seq::empty(),
                }) + params_of_pieces(split(rest@, ',')));
            }
        } else {
            more = false;
            proof {
                assert(pieces.drop_first() =~= Seq::<Seq<char>>::empty());
                assert(params_of_pieces(pieces.drop_first()) =~= Seq::<ParamView>::empty());
            }
        }
    }
    params
}

/// The definition list of `params`: each as `name: type`, joined by a
/// comma and a space.
pub fn render_definitions(params: &Vec<ParsedParam>) -> (r: String)
    ensures
        r@ == definitions_of(params.deep_view()),
{
    let mut out = String::new();
    let ghost parts = params.deep_view().map_values(|p: ParamView| definition(p));
    for i in 0..params.len()
        invariant
            parts == params.deep_view().map_values(|p: ParamView| definition(p)),
            out@ == join(parts.take(i as int), ", "@),
    {
        let ghost prev = out@;
        if i > 0 {
            out.append(", ");
        }
        out.append(params[i].name.as_str());
        out.append(": ");
        out.append(params[i].annotation.as_str());
        proof {
            let now = parts.take(i + 1);
            assert(now.drop_last() =~= parts.take(i as int));
            assert(now.last() == definition(params[i as int]@));
            if i == 0 {
                assert(prev =~= Seq::<char>::empty());
                assert(out@ =~= now[0]);
            } else {
                assert(out@ =~= prev + ", "@ + now.last());
            }
        }
    }
    proof {
        assert(parts.take(params.len() as int) =~= parts);
    }
    out
}

/// The argument list of `params`: the names, joined by a comma and a
/// space.
pub fn render_names(params: &Vec<ParsedParam>) -> (r: String)
    ensures
        r@ == names_of(params.deep_view()),
{
    let mut out = String::new();
    let ghost parts = params.deep_view().map_values(|p: ParamView| p.name);
    for i in 0..params.len()
        invariant
            parts == params.deep_view().map_values(|p: ParamView| p.name),
            out@ == join(parts.take(i as int), ", "@),
    {
        let ghost prev = out@;
        if i > 0 {
            out.append(", ");
        }
        out.append(params[i].name.as_str());
        proof {
            let now = parts.take(i + 1);
            assert(now.drop_last() =~= parts.take(i as int));
            assert(now.last() == params[i as int]@.name);
            if i == 0 {
                assert(prev =~= Seq::<char>::empty());
                assert(out@ =~= now[0]);
            } else {
                assert(out@ =~= prev + ", "@ + now.last());
            }
        }
    }
    proof {
        assert(parts.take(params.len() as int) =~= parts);
    }
    out
}

/// Parses a raw parameter list into its parameters and the two lists
/// derived from them.
pub fn parse_signature(raw: &str) -> (r: Signature)
    ensures
        r@ == signature_of(raw@),
{
    let params = parse_params(raw);
    let definitions = render_definitions(&params);
    let names = render_names(&params);
    Signature { params, definitions, names }
}

} // verus!

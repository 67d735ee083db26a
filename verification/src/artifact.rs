//! The input of the writer: definitions, imports and links, all borrowed.

use vstd::prelude::*;

use crate::target::Target;

verus! {

/// The properties of a definition.
#[derive(Debug, Clone, Copy, PartialEq, Eq)]
pub struct Prop {
    /// The symbol of the definition is visible outside the object file.
    pub global: bool,
    /// The definition is code; otherwise it is data.
    pub function: bool,
}

/// A named payload. The writer never looks into the bytes.
#[derive(Debug, Clone, Copy)]
pub struct Definition<'a> {
    pub name: &'a str,
    pub data: &'a [u8],
    pub prop: Prop,
}

/// What the target of a link was declared as.
#[derive(Debug, Clone, Copy, PartialEq, Eq)]
pub enum Decl {
    Function,
    Data,
    CString,
    FunctionImport,
    DataImport,
}

/// What an import was declared as.
#[derive(Debug, Clone, Copy, PartialEq, Eq)]
pub enum ImportKind {
    Function,
    Data,
}

/// A reference from the definition `from`, at the offset `at` in its
/// payload, to the name `to`.
#[derive(Debug, Clone, Copy)]
pub struct Link<'a> {
    pub from: &'a str,
    pub to: &'a str,
    pub to_decl: Decl,
    pub at: usize,
}

/// Everything that goes into one object file. The order of the definitions,
/// the imports and the links determines the order of what is written.
#[derive(Debug)]
pub struct Artifact<'a> {
    pub target: Target,
    pub definitions: Vec<Definition<'a>>,
    pub imports: Vec<(&'a str, ImportKind)>,
    pub links: Vec<Link<'a>>,
}

/// The definitions that are code (`function` true) or data (`function`
/// false), in their order.
pub open spec fn select<'a>(definitions: Seq<Definition<'a>>, function: bool) -> Seq<
    Definition<'a>,
>
    decreases definitions.len(),
{
    if definitions.len() == 0 {
        Seq::empty()
    } else if definitions.last().prop.function == function {
        select(definitions.drop_last(), function).push(definitions.last())
    } else {
        select(definitions.drop_last(), function)
    }
}

/// The number of payload bytes of a sequence of definitions.
pub open spec fn payload_len<'a>(definitions: Seq<Definition<'a>>) -> nat
    decreases definitions.len(),
{
    if definitions.len() == 0 {
        0
    } else {
        payload_len(definitions.drop_last()) + definitions.last().data@.len()
    }
}

/// The payloads of a sequence of definitions, one after the other.
pub open spec fn payload<'a>(definitions: Seq<Definition<'a>>) -> Seq<u8>
    decreases definitions.len(),
{
    if definitions.len() == 0 {
        Seq::empty()
    } else {
        payload(definitions.drop_last()) + definitions.last().data@
    }
}

/// The concatenated payloads are as long as the payload lengths add up to.
pub proof fn lemma_payload_len<'a>(definitions: Seq<Definition<'a>>)
    ensures
        payload(definitions).len() == payload_len(definitions),
    decreases definitions.len(),
{
    if definitions.len() > 0 {
        lemma_payload_len(definitions.drop_last());
    }
}

/// The payload of a prefix of the definitions is no longer than that of all
/// of them.
pub proof fn lemma_payload_len_prefix<'a>(definitions: Seq<Definition<'a>>, i: int)
    requires
        0 <= i <= definitions.len(),
    ensures
        payload_len(definitions.take(i)) <= payload_len(definitions),
        i < definitions.len() ==> payload_len(definitions.take(i + 1)) == payload_len(
            definitions.take(i),
        ) + definitions[i].data@.len(),
    decreases definitions.len(),
{
    if i == definitions.len() {
        assert(definitions.take(i) =~= definitions);
    } else {
        assert(definitions.take(i + 1).drop_last() =~= definitions.take(i));
        assert(definitions.drop_last().take(i) =~= definitions.take(i));
        lemma_payload_len_prefix(definitions.drop_last(), i);
    }
}

/// Splitting the definitions into code and data loses no payload.
pub proof fn lemma_select_payload_len<'a>(definitions: Seq<Definition<'a>>)
    ensures
        payload_len(select(definitions, true)) + payload_len(select(definitions, false))
            == payload_len(definitions),
        select(definitions, true).len() + select(definitions, false).len() == definitions.len(),
    decreases definitions.len(),
{
    if definitions.len() > 0 {
        let rest = definitions.drop_last();
        lemma_select_payload_len(rest);
        if definitions.last().prop.function {
            assert(select(definitions, true).drop_last() =~= select(rest, true));
        } else {
            assert(select(definitions, false).drop_last() =~= select(rest, false));
        }
    }
}

} // verus!

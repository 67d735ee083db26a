//! A bound on the size of an object file that can be computed before the
//! file is laid out.
//!
//! Laying out an artifact adds up lengths, and the sums must be `usize`
//! values. [`size_bound`] counts every name as if it were new and every link
//! as if it gave a record, so it is at least the length of the file; an
//! artifact whose bound is a `usize` is emittable.

use vstd::prelude::*;
use vstd::utf8::encode_utf8;

use crate::artifact::{
    lemma_payload_len_prefix, lemma_select_payload_len, payload_len, select, Artifact, Definition,
    ImportKind, Link,
};
use crate::image::{image_len, lemma_image_len_bounds, relocation_count};
use crate::mach::{emittable, model_of};
use crate::records::nlist_size;
use crate::relocation::{lemma_text_relocations_len, link_in_range, text_relocations};
use crate::section::{insert_definitions, insert_imports};
use crate::symbol::{
    lemma_ordinal_of, lemma_table_insert_size, strtab_size, table_insert, SectionIndex,
    SymbolEntry, SymbolType,
};

verus! {

/// What the headers, the load commands and the two single bytes of a file
/// take at most.
pub const FIXED_COST: usize = 512;

/// What a symbol takes at most besides the bytes of its name: a symbol
/// table entry, an underscore and a zero byte.
pub const SYMBOL_COST: usize = 18;

/// What the names of the definitions take at most in the symbol table and
/// the string table.
pub open spec fn names_cost<'a>(definitions: Seq<Definition<'a>>) -> nat
    decreases definitions.len(),
{
    if definitions.len() == 0 {
        0
    } else {
        names_cost(definitions.drop_last()) + encode_utf8(definitions.last().name@).len() + 18
    }
}

/// What the names of the imports take at most in the symbol table and the
/// string table.
pub open spec fn imports_cost<'a>(imports: Seq<(&'a str, ImportKind)>) -> nat
    decreases imports.len(),
{
    if imports.len() == 0 {
        0
    } else {
        imports_cost(imports.drop_last()) + encode_utf8(imports.last().0@).len() + 18
    }
}

/// The largest offset that a link has in its payload.
pub open spec fn reach<'a>(links: Seq<Link<'a>>) -> nat
    decreases links.len(),
{
    if links.len() == 0 {
        0
    } else if links.last().at >= reach(links.drop_last()) {
        links.last().at as nat
    } else {
        reach(links.drop_last())
    }
}

/// An upper bound on the length of the object file of an artifact, and on
/// each place that a link relocates.
pub open spec fn size_bound<'a>(artifact: Artifact<'a>) -> nat {
    512 + payload_len(artifact.definitions@) + names_cost(artifact.definitions@) + imports_cost(
        artifact.imports@,
    ) + artifact.links@.len() * 8 + reach(artifact.links@)
}

/// The names of the first definitions cost no more than those of all, and
/// one definition more costs its name more.
proof fn lemma_names_cost_prefix<'a>(definitions: Seq<Definition<'a>>, i: int)
    requires
        0 <= i <= definitions.len(),
    ensures
        names_cost(definitions.take(i)) <= names_cost(definitions),
        i < definitions.len() ==> names_cost(definitions.take(i + 1)) == names_cost(
            definitions.take(i),
        ) + encode_utf8(definitions[i].name@).len() + 18,
    decreases definitions.len(),
{
    if i == definitions.len() {
        assert(definitions.take(i) =~= definitions);
    } else {
        assert(definitions.take(i + 1).drop_last() =~= definitions.take(i));
        assert(definitions.drop_last().take(i) =~= definitions.take(i));
        lemma_names_cost_prefix(definitions.drop_last(), i);
    }
}

/// The names of the first imports cost no more than those of all, and one
/// import more costs its name more.
proof fn lemma_imports_cost_prefix<'a>(imports: Seq<(&'a str, ImportKind)>, i: int)
    requires
        0 <= i <= imports.len(),
    ensures
        imports_cost(imports.take(i)) <= imports_cost(imports),
        i < imports.len() ==> imports_cost(imports.take(i + 1)) == imports_cost(imports.take(i))
            + encode_utf8(imports[i].0@).len() + 18,
    decreases imports.len(),
{
    if i == imports.len() {
        assert(imports.take(i) =~= imports);
    } else {
        assert(imports.take(i + 1).drop_last() =~= imports.take(i));
        assert(imports.drop_last().take(i) =~= imports.take(i));
        lemma_imports_cost_prefix(imports.drop_last(), i);
    }
}

/// No link reaches farther than the farthest, and the farthest of one link
/// more is that link or the farthest before it.
proof fn lemma_reach_prefix<'a>(links: Seq<Link<'a>>, i: int)
    requires
        0 <= i <= links.len(),
    ensures
        reach(links.take(i)) <= reach(links),
        i < links.len() ==> links[i].at <= reach(links),
        i < links.len() ==> reach(links.take(i + 1)) == (if links[i].at >= reach(links.take(i)) {
            links[i].at as nat
        } else {
            reach(links.take(i))
        }),
    decreases links.len(),
{
    if i == links.len() {
        assert(links.take(i) =~= links);
    } else {
        assert(links.take(i + 1).drop_last() =~= links.take(i));
        assert(links.drop_last().take(i) =~= links.take(i));
        lemma_reach_prefix(links.drop_last(), i);
    }
}

/// Splitting the definitions into code and data loses no name.
proof fn lemma_select_names_cost<'a>(definitions: Seq<Definition<'a>>)
    ensures
        names_cost(select(definitions, true)) + names_cost(select(definitions, false))
            == names_cost(definitions),
    decreases definitions.len(),
{
    if definitions.len() > 0 {
        let rest = definitions.drop_last();
        lemma_select_names_cost(rest);
        if definitions.last().prop.function {
            assert(select(definitions, true).drop_last() =~= select(rest, true));
        } else {
            assert(select(definitions, false).drop_last() =~= select(rest, false));
        }
    }
}

/// What a table takes in the symbol table of the widest container and in
/// the string table.
spec fn weight(table: Seq<SymbolEntry>) -> nat {
    table.len() * 16 + strtab_size(table)
}

/// Whether no symbol of a table lies beyond `bound` in its section.
spec fn offsets_within(table: Seq<SymbolEntry>, bound: nat) -> bool {
    forall|i: int| 0 <= i < table.len() ==> (#[trigger] table[i]).symbol.offset <= bound
}

/// An insertion adds at most a symbol table entry and the name with its
/// underscore and its zero byte.
proof fn lemma_insert_weight(table: Seq<SymbolEntry>, name: Seq<char>, kind: SymbolType)
    ensures
        weight(table_insert(table, name, kind)) <= weight(table) + encode_utf8(name).len() + 18,
{
    lemma_table_insert_size(table, name, kind);
}

/// Inserting definitions adds at most the cost of their names, and every
/// symbol that is added lies within the payloads.
proof fn lemma_definitions_weight<'a>(
    table: Seq<SymbolEntry>,
    definitions: Seq<Definition<'a>>,
    section: SectionIndex,
    start: nat,
    bound: nat,
)
    requires
        start + payload_len(definitions) <= bound <= usize::MAX,
        offsets_within(table, bound),
    ensures
        weight(insert_definitions(table, definitions, section, start)) <= weight(table)
            + names_cost(definitions),
        offsets_within(insert_definitions(table, definitions, section, start), bound),
    decreases definitions.len(),
{
    if definitions.len() > 0 {
        let before = definitions.drop_last();
        lemma_definitions_weight(table, before, section, start, bound);
        let prior = insert_definitions(table, before, section, start);
        let kind = SymbolType::Defined {
            section,
            offset: (start + payload_len(before)) as usize,
            global: definitions.last().prop.global,
        };
        lemma_insert_weight(prior, definitions.last().name@, kind);
        lemma_table_insert_size(prior, definitions.last().name@, kind);
        let after = table_insert(prior, definitions.last().name@, kind);
        assert forall|i: int| 0 <= i < after.len() implies (#[trigger] after[i]).symbol.offset
            <= bound by {
            if i < prior.len() {
                assert(after[i] == prior[i]);
            }
        }
    }
}

/// Inserting imports adds at most the cost of their names, and every symbol
/// that is added lies at offset 0.
proof fn lemma_imports_weight<'a>(
    table: Seq<SymbolEntry>,
    imports: Seq<(&'a str, ImportKind)>,
    bound: nat,
)
    requires
        offsets_within(table, bound),
    ensures
        weight(insert_imports(table, imports)) <= weight(table) + imports_cost(imports),
        offsets_within(insert_imports(table, imports), bound),
    decreases imports.len(),
{
    if imports.len() > 0 {
        let before = imports.drop_last();
        lemma_imports_weight(table, before, bound);
        let prior = insert_imports(table, before);
        lemma_insert_weight(prior, imports.last().0@, SymbolType::Undefined);
        lemma_table_insert_size(prior, imports.last().0@, SymbolType::Undefined);
        let after = table_insert(prior, imports.last().0@, SymbolType::Undefined);
        assert forall|i: int| 0 <= i < after.len() implies (#[trigger] after[i]).symbol.offset
            <= bound by {
            if i < prior.len() {
                assert(after[i] == prior[i]);
            }
        }
    }
}

/// An artifact whose bound is a `usize` is emittable, and its file is
/// shorter than the bound.
pub proof fn lemma_size_bound<'a>(artifact: Artifact<'a>)
    requires
        size_bound(artifact) <= usize::MAX,
    ensures
        emittable(artifact),
        image_len(model_of(artifact)) < size_bound(artifact),
{
    let m = model_of(artifact);
    let code = select(artifact.definitions@, true);
    let data = select(artifact.definitions@, false);
    let total = payload_len(artifact.definitions@);
    lemma_select_payload_len(artifact.definitions@);
    lemma_select_names_cost(artifact.definitions@);
    let empty = Seq::<SymbolEntry>::empty();
    lemma_definitions_weight(empty, code, 0, 0, total);
    let with_code = insert_definitions(empty, code, 0, 0);
    lemma_definitions_weight(with_code, data, 1, payload_len(code), total);
    let with_data = insert_definitions(with_code, data, 1, payload_len(code));
    lemma_imports_weight(with_data, artifact.imports@, total);
    lemma_text_relocations_len(m.symbols, artifact.links@);
    lemma_image_len_bounds(m);
    assert(relocation_count(m.relocations) == text_relocations(m.symbols, artifact.links@).len())
        by {
        assert(m.relocations.drop_last() =~= Seq::<Seq<crate::records::RelocationInfo>>::empty());
        assert(relocation_count(m.relocations.drop_last()) == 0);
        assert(m.relocations.last() == text_relocations(m.symbols, artifact.links@));
    }
    assert(m.symbols.len() * nlist_size(m.ctx) <= m.symbols.len() * 16) by (nonlinear_arith)
        requires
            nlist_size(m.ctx) <= 16,
    ;
    assert forall|i: int| 0 <= i < artifact.links@.len() implies link_in_range(
        m.symbols,
        #[trigger] artifact.links@[i],
    ) by {
        let link = artifact.links@[i];
        lemma_reach_prefix(artifact.links@, i);
        lemma_ordinal_of(m.symbols, link.from@);
    }
}

impl<'a> Artifact<'a> {
    /// Computes the bound on the size of the object file, if it is a
    /// `usize`.
    pub fn size_bound(&self) -> (bound: Option<usize>)
        ensures
            bound == (if size_bound(*self) <= usize::MAX {
                Some(size_bound(*self) as usize)
            } else {
                None
            }),
    {
        let mut bound: usize = FIXED_COST;
        let mut i: usize = 0;
        proof {
            assert(self.definitions@.take(0) =~= Seq::<Definition<'a>>::empty());
        }
        while i < self.definitions.len()
            invariant
                0 <= i <= self.definitions@.len(),
                bound == 512 + payload_len(self.definitions@.take(i as int)) + names_cost(
                    self.definitions@.take(i as int),
                ),
            decreases self.definitions@.len() - i,
        {
            proof {
                lemma_payload_len_prefix(self.definitions@, i as int);
                lemma_payload_len_prefix(self.definitions@, i + 1);
                lemma_names_cost_prefix(self.definitions@, i as int);
                lemma_names_cost_prefix(self.definitions@, i + 1);
            }
            let def = self.definitions[i];
            let with_data = match bound.checked_add(def.data.len()) {
                Some(sum) => sum,
                None => {
                    return None;
                },
            };
            let with_name = match with_data.checked_add(def.name.as_bytes().len()) {
                Some(sum) => sum,
                None => {
                    return None;
                },
            };
            bound = match with_name.checked_add(SYMBOL_COST) {
                Some(sum) => sum,
                None => {
                    return None;
                },
            };
            i += 1;
        }
        proof {
            assert(self.definitions@.take(i as int) =~= self.definitions@);
            assert(self.imports@.take(0) =~= Seq::<(&'a str, ImportKind)>::empty());
        }
        let ghost fixed = bound;
        let mut i: usize = 0;
        while i < self.imports.len()
            invariant
                0 <= i <= self.imports@.len(),
                fixed == 512 + payload_len(self.definitions@) + names_cost(self.definitions@),
                bound == fixed + imports_cost(self.imports@.take(i as int)),
            decreases self.imports@.len() - i,
        {
            proof {
                lemma_imports_cost_prefix(self.imports@, i as int);
                lemma_imports_cost_prefix(self.imports@, i + 1);
            }
            let name = self.imports[i].0;
            let with_name = match bound.checked_add(name.as_bytes().len()) {
                Some(sum) => sum,
                None => {
                    return None;
                },
            };
            bound = match with_name.checked_add(SYMBOL_COST) {
                Some(sum) => sum,
                None => {
                    return None;
                },
            };
            i += 1;
        }
        proof {
            assert(self.imports@.take(i as int) =~= self.imports@);
            assert(self.links@.take(0) =~= Seq::<Link<'a>>::empty());
        }
        let ghost fixed = bound;
        let mut farthest: usize = 0;
        let mut i: usize = 0;
        while i < self.links.len()
            invariant
                0 <= i <= self.links@.len(),
                fixed == 512 + payload_len(self.definitions@) + names_cost(self.definitions@)
                    + imports_cost(self.imports@),
                bound == fixed + i * 8,
                farthest == reach(self.links@.take(i as int)),
            decreases self.links@.len() - i,
        {
            proof {
                lemma_reach_prefix(self.links@, i as int);
                lemma_reach_prefix(self.links@, i + 1);
            }
            let at = self.links[i].at;
            if at >= farthest {
                farthest = at;
            }
            bound = match bound.checked_add(8) {
                Some(sum) => sum,
                None => {
                    return None;
                },
            };
            i += 1;
        }
        proof {
            assert(self.links@.take(i as int) =~= self.links@);
        }
        bound.checked_add(farthest)
    }
}

} // verus!

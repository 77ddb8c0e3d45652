//! The names that a unit imports with `from module import names`, and the
//! byte ranges of those statements.

use crate::seq_facts::lemma_flat_map_add;
use crate::syntax::{
    lemma_parts_stmts_step, lemma_stmts_nodes_step, part_stmts, parts_stmts,
    stmt_nodes, stmts_nodes, Node, Stmt,
};
use vstd::prelude::*;

verus! {

/// One imported name: the module as written and the name taken from it.
#[derive(Clone, Debug, PartialEq, Eq)]
pub struct PythonName {
    pub module: String,
    pub name: String,
}

/// What a [`PythonName`] holds, as sequences of characters.
pub struct PythonNameView {
    pub module: Seq<char>,
    pub name: Seq<char>,
}

impl DeepView for PythonName {
    type V = PythonNameView;

    open spec fn deep_view(&self) -> PythonNameView {
        PythonNameView { module: self.module@, name: self.name@ }
    }
}

/// What one statement imports: for an import that names its module, one
/// entry per imported name, in the order written; nothing for a relative
/// import without a module, and nothing for any other statement.
pub open spec fn imports_of(s: Stmt) -> Seq<PythonNameView> {
    match s {
        Stmt::ImportFrom { module: Some(m), names, .. } => names@.map_values(
            |n: String| PythonNameView { module: m@, name: n@ },
        ),
        _ => Seq::empty(),
    }
}

/// What the statements of `stmts` import, in their order.
pub open spec fn imported_names_in(stmts: Seq<Stmt>) -> Seq<PythonNameView> {
    stmts.flat_map(|s: Stmt| imports_of(s))
}

/// The byte range of an import that names its module; nothing for any other
/// statement.
pub open spec fn import_range_of(s: Stmt) -> Seq<(u32, u32)> {
    match s {
        Stmt::ImportFrom { module: Some(_), range, .. } => seq![(range.start, range.end)],
        _ => Seq::empty(),
    }
}

/// The byte ranges of the imports among `stmts`, in their order.
pub open spec fn import_ranges_in(stmts: Seq<Stmt>) -> Seq<(u32, u32)> {
    stmts.flat_map(|s: Stmt| import_range_of(s))
}

/// What two runs of statements import is what the first imports, then what
/// the second imports.
pub proof fn lemma_imported_names_add(a: Seq<Stmt>, b: Seq<Stmt>)
    ensures
        imported_names_in(a + b) == imported_names_in(a) + imported_names_in(b),
{
    lemma_flat_map_add(a, b, |s: Stmt| imports_of(s));
}

/// The import ranges of two runs of statements are those of the first, then
/// those of the second.
pub proof fn lemma_import_ranges_add(a: Seq<Stmt>, b: Seq<Stmt>)
    ensures
        import_ranges_in(a + b) == import_ranges_in(a) + import_ranges_in(b),
{
    lemma_flat_map_add(a, b, |s: Stmt| import_range_of(s));
}

/// Walks statements and collects the imported names.
pub struct ImportedNamesCollector {
    pub names: Vec<PythonName>,
}

impl ImportedNamesCollector {
    /// Collects what `node` imports, then what the statements nested in it
    /// import.
    pub fn visit_stmt(&mut self, node: &Stmt)
        ensures
            final(self).names.deep_view() == old(self).names.deep_view() + imported_names_in(
                stmt_nodes(*node),
            ),
        decreases node,
    {
        let ghost nested = stmt_nodes(*node).subrange(1, stmt_nodes(*node).len() as int);
        proof {
            lemma_imported_names_add(seq![*node], nested);
            assert(stmt_nodes(*node) =~= seq![*node] + nested);
            seq![*node].lemma_flat_map_singleton(|s: Stmt| imports_of(s));
            assert(imported_names_in(Seq::<Stmt>::empty()) =~= Seq::<PythonNameView>::empty());
        }
        match node {
            Stmt::ImportFrom { module, names, .. } => {
                if let Some(module) = module {
                    let mut i: usize = 0;
                    while i < names.len()
                        invariant
                            i <= names.len(),
                            self.names.deep_view() == old(self).names.deep_view() + names@.take(
                                i as int,
                            ).map_values(
                                |n: String| PythonNameView { module: module@, name: n@ },
                            ),
                        decreases names.len() - i,
                    {
                        let ghost before = self.names.deep_view();
                        self.names.push(
                            PythonName { module: module.clone(), name: names[i].clone() },
                        );
                        proof {
                            let entry = PythonNameView { module: module@, name: names[i as int]@ };
                            names@.lemma_map_take_succ(
                                |n: String| PythonNameView { module: module@, name: n@ },
                                i as int,
                            );
                            assert(self.names.deep_view() =~= before.push(entry));
                            assert(before.push(entry) =~= old(self).names.deep_view() + names@.take(
                                i + 1,
                            ).map_values(
                                |n: String| PythonNameView { module: module@, name: n@ },
                            ));
                        }
                        i += 1;
                    }
                    assert(names@.take(i as int) =~= names@);
                }
                assert(nested =~= Seq::<Stmt>::empty());
            },
            Stmt::FunctionDef { body, .. } => {
                self.visit_body(body);
                assert(nested =~= stmts_nodes(body@));
            },
            Stmt::Other { parts, .. } => {
                self.visit_parts(parts);
                assert(nested =~= parts_stmts(parts@));
            },
            Stmt::Expr { .. } => {
                assert(nested =~= Seq::<Stmt>::empty());
            },
        }
    }

    /// Collects what the statements of `body` import, at any depth.
    pub fn visit_body(&mut self, body: &Vec<Stmt>)
        ensures
            final(self).names.deep_view() == old(self).names.deep_view() + imported_names_in(
                stmts_nodes(body@),
            ),
        decreases body,
    {
        let mut i: usize = 0;
        while i < body.len()
            invariant
                i <= body.len(),
                self.names.deep_view() == old(self).names.deep_view() + imported_names_in(
                    stmts_nodes(body@.take(i as int)),
                ),
            decreases body.len() - i,
        {
            self.visit_stmt(&body[i]);
            proof {
                lemma_stmts_nodes_step(body@, i as int);
                lemma_imported_names_add(
                    stmts_nodes(body@.take(i as int)),
                    stmt_nodes(body[i as int]),
                );
            }
            i += 1;
        }
        assert(body@.take(i as int) =~= body@);
    }

    /// Collects what the statements among the parts of a statement import.
    pub fn visit_parts(&mut self, parts: &Vec<Node>)
        ensures
            final(self).names.deep_view() == old(self).names.deep_view() + imported_names_in(
                parts_stmts(parts@),
            ),
        decreases parts,
    {
        let mut i: usize = 0;
        while i < parts.len()
            invariant
                i <= parts.len(),
                self.names.deep_view() == old(self).names.deep_view() + imported_names_in(
                    parts_stmts(parts@.take(i as int)),
                ),
            decreases parts.len() - i,
        {
            if let Node::Stmt(s) = &parts[i] {
                self.visit_stmt(s);
            }
            proof {
                lemma_parts_stmts_step(parts@, i as int);
                lemma_imported_names_add(
                    parts_stmts(parts@.take(i as int)),
                    part_stmts(parts[i as int]),
                );
                assert(imported_names_in(Seq::<Stmt>::empty()) =~= Seq::<
                    PythonNameView,
                >::empty());
            }
            i += 1;
        }
        assert(parts@.take(i as int) =~= parts@);
    }
}

/// Walks statements and collects the byte ranges of the imports.
#[derive(Debug, PartialEq, Eq)]
pub struct ImportRangesVisitor {
    pub ranges: Vec<(u32, u32)>,
}

impl ImportRangesVisitor {
    /// Collects the range of `node` where it is an import that names its
    /// module, then the ranges of the imports nested in it.
    pub fn visit_stmt(&mut self, node: &Stmt)
        ensures
            final(self).ranges@ == old(self).ranges@ + import_ranges_in(stmt_nodes(*node)),
        decreases node,
    {
        let ghost nested = stmt_nodes(*node).subrange(1, stmt_nodes(*node).len() as int);
        proof {
            lemma_import_ranges_add(seq![*node], nested);
            assert(stmt_nodes(*node) =~= seq![*node] + nested);
            seq![*node].lemma_flat_map_singleton(|s: Stmt| import_range_of(s));
            assert(import_ranges_in(Seq::<Stmt>::empty()) =~= Seq::<(u32, u32)>::empty());
        }
        match node {
            Stmt::ImportFrom { module, range, .. } => {
                if module.is_some() {
                    self.ranges.push((range.start, range.end));
                }
                assert(nested =~= Seq::<Stmt>::empty());
            },
            Stmt::FunctionDef { body, .. } => {
                self.visit_body(body);
                assert(nested =~= stmts_nodes(body@));
            },
            Stmt::Other { parts, .. } => {
                self.visit_parts(parts);
                assert(nested =~= parts_stmts(parts@));
            },
            Stmt::Expr { .. } => {
                assert(nested =~= Seq::<Stmt>::empty());
            },
        }
    }

    /// Collects the ranges of the imports among the statements of `body`,
    /// at any depth.
    pub fn visit_body(&mut self, body: &Vec<Stmt>)
        ensures
            final(self).ranges@ == old(self).ranges@ + import_ranges_in(stmts_nodes(body@)),
        decreases body,
    {
        let mut i: usize = 0;
        while i < body.len()
            invariant
                i <= body.len(),
                self.ranges@ == old(self).ranges@ + import_ranges_in(
                    stmts_nodes(body@.take(i as int)),
                ),
            decreases body.len() - i,
        {
            self.visit_stmt(&body[i]);
            proof {
                lemma_stmts_nodes_step(body@, i as int);
                lemma_import_ranges_add(
                    stmts_nodes(body@.take(i as int)),
                    stmt_nodes(body[i as int]),
                );
            }
            i += 1;
        }
        assert(body@.take(i as int) =~= body@);
    }

    /// Collects the ranges of the imports among the parts of a statement.
    pub fn visit_parts(&mut self, parts: &Vec<Node>)
        ensures
            final(self).ranges@ == old(self).ranges@ + import_ranges_in(parts_stmts(parts@)),
        decreases parts,
    {
        let mut i: usize = 0;
        while i < parts.len()
            invariant
                i <= parts.len(),
                self.ranges@ == old(self).ranges@ + import_ranges_in(
                    parts_stmts(parts@.take(i as int)),
                ),
            decreases parts.len() - i,
        {
            if let Node::Stmt(s) = &parts[i] {
                self.visit_stmt(s);
            }
            proof {
                lemma_parts_stmts_step(parts@, i as int);
                lemma_import_ranges_add(
                    parts_stmts(parts@.take(i as int)),
                    part_stmts(parts[i as int]),
                );
                assert(import_ranges_in(Seq::<Stmt>::empty()) =~= Seq::<(u32, u32)>::empty());
            }
            i += 1;
        }
        assert(parts@.take(i as int) =~= parts@);
    }
}

} // verus!

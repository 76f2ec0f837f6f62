//! Resolves the import directives of a shader to the files they name.
//!
//! A directive binds an identifier, the stem of the file it names, to a
//! path. A path between angle brackets is used as it stands; a path between
//! double quotes is joined to the directory of the importing file and must
//! be canonicalized by the caller, who hands back the canonical path or
//! `None` where the target does not exist. A later binding of an identifier
//! replaces the earlier one.

use crate::paths::{file_stem, join, join_paths, parent, parent_of, stem_of};
use crate::syntax::{node_views, ImportPath, ImportPathView, SyntaxNode, SyntaxNodeView};
use crate::text::same_text;
use vstd::prelude::*;

verus! {

/// An import directive: the identifier it binds and the path it names.
#[derive(Clone, Debug, PartialEq, Eq)]
pub struct ImportDirective {
    pub identifier: String,
    pub path: ImportPath,
}

/// The mathematical model of an `ImportDirective`.
pub ghost struct ImportDirectiveView {
    pub identifier: Seq<char>,
    pub path: ImportPathView,
}

impl View for ImportDirective {
    type V = ImportDirectiveView;

    open spec fn view(&self) -> ImportDirectiveView {
        ImportDirectiveView { identifier: self.identifier@, path: self.path@ }
    }
}

/// An import whose target does not exist.
#[derive(Clone, Debug, PartialEq, Eq)]
pub struct UnresolvedImport {
    /// The path that was looked for.
    pub path: String,
}

/// One binding of an import map.
pub ghost struct Binding {
    pub identifier: Seq<char>,
    pub path: Seq<char>,
}

/// The text of an import path.
pub open spec fn path_text(path: ImportPathView) -> Seq<char> {
    match path {
        ImportPathView::Absolute(text) => text,
        ImportPathView::Relative(text) => text,
    }
}

/// The directive that an include of `path` makes: it binds the stem of the
/// file that the path names.
pub open spec fn directive_of(path: ImportPathView) -> ImportDirectiveView {
    ImportDirectiveView { identifier: file_stem(path_text(path)), path }
}

/// The import directives of a tree, in source order.
pub open spec fn directives_of(nodes: Seq<SyntaxNodeView>) -> Seq<ImportDirectiveView>
    decreases nodes.len(),
{
    if nodes.len() == 0 {
        Seq::empty()
    } else {
        let earlier = directives_of(nodes.drop_last());
        match nodes.last() {
            SyntaxNodeView::Include(path) => earlier.push(directive_of(path)),
            _ => earlier,
        }
    }
}

/// The path that a directive names, seen from the directory `base`.
pub open spec fn target_of(base: Seq<char>, path: ImportPathView) -> Seq<char> {
    match path {
        ImportPathView::Absolute(text) => text,
        ImportPathView::Relative(text) => join(base, text),
    }
}

/// The index of the binding of `identifier`, or -1 where it is not bound.
pub open spec fn binding_index(bindings: Seq<Binding>, identifier: Seq<char>) -> int
    decreases bindings.len(),
{
    if bindings.len() == 0 {
        -1
    } else {
        let earlier = binding_index(bindings.drop_last(), identifier);
        if earlier >= 0 {
            earlier
        } else if bindings.last().identifier == identifier {
            bindings.len() - 1
        } else {
            -1
        }
    }
}

/// No identifier is bound twice.
pub open spec fn unique_identifiers(bindings: Seq<Binding>) -> bool {
    forall|i: int, j: int| 0 <= i < j < bindings.len() ==> bindings[i].identifier != bindings[j].identifier
}

/// The map after `binding` is made: it replaces the binding of the same
/// identifier where there is one, and is appended otherwise.
pub open spec fn bound(bindings: Seq<Binding>, binding: Binding) -> Seq<Binding> {
    let at = binding_index(bindings, binding.identifier);
    if at >= 0 {
        bindings.update(at, binding)
    } else {
        bindings.push(binding)
    }
}

/// The answer of the file system for the directive at `at`: `None` where the
/// caller gave none.
pub open spec fn answer_at(answers: Seq<Option<Seq<char>>>, at: int) -> Option<Seq<char>> {
    if 0 <= at < answers.len() {
        answers[at]
    } else {
        None
    }
}

/// The map after one directive is visited, or the path that was looked for
/// in vain.
pub open spec fn visited(
    bindings: Seq<Binding>,
    base: Seq<char>,
    directive: ImportDirectiveView,
    canonical: Option<Seq<char>>,
) -> Result<Seq<Binding>, Seq<char>> {
    match directive.path {
        ImportPathView::Absolute(text) => Ok(bound(bindings, Binding { identifier: directive.identifier, path: text })),
        ImportPathView::Relative(text) => match canonical {
            Some(path) => Ok(bound(bindings, Binding { identifier: directive.identifier, path })),
            None => Err(join(base, text)),
        },
    }
}

/// The import map of a sequence of directives, or the path of the first
/// relative import whose target does not exist.
pub open spec fn resolved(
    base: Seq<char>,
    directives: Seq<ImportDirectiveView>,
    answers: Seq<Option<Seq<char>>>,
) -> Result<Seq<Binding>, Seq<char>>
    decreases directives.len(),
{
    if directives.len() == 0 {
        Ok(Seq::empty())
    } else {
        match resolved(base, directives.drop_last(), answers) {
            Ok(bindings) => visited(
                bindings,
                base,
                directives.last(),
                answer_at(answers, directives.len() - 1),
            ),
            Err(path) => Err(path),
        }
    }
}

/// `binding_index` names the binding of `identifier`.
pub proof fn lemma_binding_index(bindings: Seq<Binding>, identifier: Seq<char>)
    ensures
        -1 <= binding_index(bindings, identifier) < bindings.len(),
        binding_index(bindings, identifier) >= 0 ==> bindings[binding_index(bindings, identifier)].identifier
            == identifier,
        forall|k: int| 0 <= k < binding_index(bindings, identifier) ==> bindings[k].identifier != identifier,
        binding_index(bindings, identifier) == -1 ==> forall|k: int|
            0 <= k < bindings.len() ==> bindings[k].identifier != identifier,
    decreases bindings.len(),
{
    if bindings.len() > 0 {
        let front = bindings.drop_last();
        lemma_binding_index(front, identifier);
        assert forall|k: int| 0 <= k < binding_index(bindings, identifier) implies bindings[k].identifier
            != identifier by {
            assert(bindings[k] == front[k]);
        }
        if binding_index(bindings, identifier) == -1 {
            assert forall|k: int| 0 <= k < bindings.len() implies bindings[k].identifier != identifier by {
                if k < front.len() {
                    assert(bindings[k] == front[k]);
                }
            }
        }
    }
}

/// A later binding of an identifier replaces the earlier one: after a
/// binding is made, its identifier is bound to its path, once, and every
/// other identifier is bound as before.
pub proof fn lemma_bound(bindings: Seq<Binding>, binding: Binding)
    requires
        unique_identifiers(bindings),
    ensures
        unique_identifiers(bound(bindings, binding)),
        binding_index(bound(bindings, binding), binding.identifier) >= 0,
        bound(bindings, binding)[binding_index(bound(bindings, binding), binding.identifier)] == binding,
        forall|other: Seq<char>|
            other != binding.identifier ==> binding_index(bound(bindings, binding), other) == binding_index(
                bindings,
                other,
            ),
{
    lemma_binding_index(bindings, binding.identifier);
    let after = bound(bindings, binding);
    let at = if binding_index(bindings, binding.identifier) >= 0 {
        binding_index(bindings, binding.identifier)
    } else {
        bindings.len() as int
    };
    assert(after[at] == binding);
    assert forall|i: int, j: int| 0 <= i < j < after.len() implies after[i].identifier != after[j].identifier by {
        if i != at && j != at {
            assert(after[i] == bindings[i] && after[j] == bindings[j]);
        }
    }
    lemma_binding_index(after, binding.identifier);
    assert forall|other: Seq<char>| other != binding.identifier implies binding_index(after, other)
        == binding_index(bindings, other) by {
        lemma_binding_index(after, other);
        lemma_binding_index(bindings, other);
        let a = binding_index(after, other);
        let b = binding_index(bindings, other);
        if a >= 0 {
            assert(a != at);
            assert(after[a] == bindings[a]);
        }
        if b >= 0 {
            assert(b != at);
            assert(after[b] == bindings[b]);
        }
    }
}

/// The bindings of imports, in the order in which their identifiers were
/// first bound.
#[derive(Clone, Debug, PartialEq, Eq)]
pub struct ImportMap {
    entries: Vec<(String, String)>,
}

/// The models of a sequence of entries, in order.
pub open spec fn bindings_of(entries: Seq<(String, String)>) -> Seq<Binding> {
    entries.map_values(|e: (String, String)| Binding { identifier: e.0@, path: e.1@ })
}

impl View for ImportMap {
    type V = Seq<Binding>;

    closed spec fn view(&self) -> Seq<Binding> {
        bindings_of(self.entries@)
    }
}

impl ImportMap {
    /// The invariant of the type: no identifier is bound twice.
    pub open spec fn wf(&self) -> bool {
        unique_identifiers(self@)
    }

    /// The map that binds nothing.
    pub fn new() -> (map: ImportMap)
        ensures
            map.wf(),
            map@ == Seq::<Binding>::empty(),
    {
        let map = ImportMap { entries: Vec::new() };
        assert(map@ =~= Seq::empty());
        map
    }

    /// The index of the binding of `identifier`.
    fn find(&self, identifier: &str) -> (found: Option<usize>)
        ensures
            found is None <==> binding_index(self@, identifier@) == -1,
            found matches Some(i) ==> i == binding_index(self@, identifier@) && i < self.entries@.len(),
    {
        proof {
            lemma_binding_index(self@, identifier@);
        }
        let mut i: usize = 0;
        while i < self.entries.len()
            invariant
                i <= self.entries@.len(),
                forall|k: int| 0 <= k < i ==> self@[k].identifier != identifier@,
            decreases self.entries@.len() - i,
        {
            if same_text(self.entries[i].0.as_str(), identifier) {
                proof {
                    assert(self@[i as int].identifier == identifier@);
                    lemma_binding_index(self@, identifier@);
                }
                return Some(i);
            }
            assert(self@[i as int].identifier != identifier@);
            i = i + 1;
        }
        proof {
            lemma_binding_index(self@, identifier@);
        }
        None
    }

    /// Binds `identifier` to `path`, in place of any earlier binding of it.
    pub fn insert(&mut self, identifier: String, path: String)
        requires
            old(self).wf(),
        ensures
            final(self).wf(),
            final(self)@ == bound(old(self)@, Binding { identifier: identifier@, path: path@ }),
    {
        proof {
            lemma_bound(self@, Binding { identifier: identifier@, path: path@ });
        }
        let ghost binding = Binding { identifier: identifier@, path: path@ };
        match self.find(identifier.as_str()) {
            Some(i) => {
                self.entries.set(i, (identifier, path));
                assert(self@ =~= old(self)@.update(i as int, binding));
            },
            None => {
                self.entries.push((identifier, path));
                assert(self@ =~= old(self)@.push(binding));
            },
        }
    }

    /// The path that `identifier` is bound to.
    pub fn get(&self, identifier: &str) -> (path: Option<&String>)
        ensures
            path is Some <==> binding_index(self@, identifier@) >= 0,
            path matches Some(p) ==> p@ == self@[binding_index(self@, identifier@)].path,
    {
        match self.find(identifier) {
            Some(i) => Some(&self.entries[i].1),
            None => None,
        }
    }

    /// The bindings as pairs of identifier and path, in order.
    pub fn entries(&self) -> (entries: &Vec<(String, String)>)
        ensures
            bindings_of(entries@) == self@,
    {
        &self.entries
    }
}

/// The imports of one file, gathered while its directives are visited.
#[derive(Clone, Debug, PartialEq, Eq)]
pub struct FileImports {
    base_path: String,
    imports: ImportMap,
}

impl FileImports {
    /// The directory of the importing file.
    pub closed spec fn base(&self) -> Seq<char> {
        self.base_path@
    }

    /// The bindings gathered so far.
    pub closed spec fn bindings(&self) -> Seq<Binding> {
        self.imports@
    }

    /// The invariant of the type: no identifier is bound twice.
    pub open spec fn wf(&self) -> bool {
        unique_identifiers(self.bindings())
    }

    /// The imports of the file at `file_path`, before any directive is
    /// visited.
    pub fn new(file_path: &str) -> (imports: FileImports)
        ensures
            imports.wf(),
            imports.base() == parent(file_path@),
            imports.bindings() == Seq::<Binding>::empty(),
    {
        FileImports { base_path: parent_of(file_path), imports: ImportMap::new() }
    }

    /// The path that the caller is to canonicalize for `import`: `None` for
    /// a path that is used as it stands.
    pub fn lookup_path(&self, import: &ImportDirective) -> (path: Option<String>)
        ensures
            path is Some <==> import@.path is Relative,
            path matches Some(p) ==> p@ == target_of(self.base(), import@.path),
    {
        match &import.path {
            ImportPath::Absolute(_) => None,
            ImportPath::Relative(text) => Some(join_paths(self.base_path.as_str(), text.as_str())),
        }
    }

    /// Visits one directive. `canonical` is what the file system answered
    /// for `lookup_path(import)`: the canonical path of the target, or `None`
    /// where the target does not exist.
    pub fn visit_import(&mut self, import: &ImportDirective, canonical: Option<String>) -> (outcome: Result<
        (),
        UnresolvedImport,
    >)
        requires
            old(self).wf(),
        ensures
            final(self).wf(),
            final(self).base() == old(self).base(),
            match visited(old(self).bindings(), old(self).base(), import@, canonical.deep_view()) {
                Ok(bindings) => outcome is Ok && final(self).bindings() == bindings,
                Err(path) => outcome matches Err(e) && e.path@ == path && final(self).bindings() == old(
                    self,
                ).bindings(),
            },
    {
        match &import.path {
            ImportPath::Absolute(text) => {
                self.imports.insert(import.identifier.clone(), text.clone());
                Ok(())
            },
            ImportPath::Relative(text) => match canonical {
                Some(path) => {
                    self.imports.insert(import.identifier.clone(), path);
                    Ok(())
                },
                None => Err(UnresolvedImport { path: join_paths(self.base_path.as_str(), text.as_str()) }),
            },
        }
    }

    /// The import map gathered so far.
    pub fn into_map(self) -> (map: ImportMap)
        requires
            self.wf(),
        ensures
            map.wf(),
            map@ == self.bindings(),
    {
        self.imports
    }
}

/// The directive that an include of `path` makes.
pub fn directive_for(path: &ImportPath) -> (directive: ImportDirective)
    ensures
        directive@ == directive_of(path@),
{
    match path {
        ImportPath::Absolute(text) => ImportDirective {
            identifier: stem_of(text.as_str()),
            path: ImportPath::Absolute(text.clone()),
        },
        ImportPath::Relative(text) => ImportDirective {
            identifier: stem_of(text.as_str()),
            path: ImportPath::Relative(text.clone()),
        },
    }
}

/// The models of a sequence of directives, in order.
pub open spec fn directive_views(directives: Seq<ImportDirective>) -> Seq<ImportDirectiveView> {
    directives.map_values(|d: ImportDirective| d@)
}

/// The import directives of a tree, in source order.
pub fn import_directives(nodes: &Vec<SyntaxNode>) -> (directives: Vec<ImportDirective>)
    ensures
        directive_views(directives@) == directives_of(node_views(nodes@)),
{
    let mut directives: Vec<ImportDirective> = Vec::new();
    let mut i: usize = 0;
    assert(node_views(nodes@).subrange(0, 0) =~= Seq::empty());
    assert(directive_views(directives@) =~= Seq::empty());
    while i < nodes.len()
        invariant
            i <= nodes@.len(),
            directive_views(directives@) == directives_of(node_views(nodes@).subrange(0, i as int)),
        decreases nodes@.len() - i,
    {
        let ghost next = node_views(nodes@).subrange(0, i + 1);
        assert(next.drop_last() =~= node_views(nodes@).subrange(0, i as int));
        assert(next.last() == nodes@[i as int]@);
        match &nodes[i] {
            SyntaxNode::Include(path) => {
                let ghost before = directives@;
                let directive = directive_for(path);
                directives.push(directive);
                assert(directive_views(directives@) =~= directive_views(before).push(directive@));
            },
            _ => {},
        }
        i = i + 1;
    }
    assert(node_views(nodes@).subrange(0, nodes@.len() as int) =~= node_views(nodes@));
    directives
}

/// The views of the answers of the file system, in order.
pub open spec fn answer_views(answers: Seq<Option<String>>) -> Seq<Option<Seq<char>>> {
    answers.map_values(|a: Option<String>| a.deep_view())
}

/// The imports of the file at `file_path`, whose syntax tree is `nodes`.
/// `canonical` holds, for each import directive of the tree in source order,
/// what the file system answered for its lookup path; a missing answer
/// counts as a target that does not exist.
pub fn get_file_imports(nodes: &Vec<SyntaxNode>, file_path: &str, canonical: &Vec<Option<String>>) -> (outcome:
    Result<ImportMap, UnresolvedImport>)
    ensures
        match resolved(parent(file_path@), directives_of(node_views(nodes@)), answer_views(canonical@)) {
            Ok(bindings) => outcome matches Ok(map) && map@ == bindings && map.wf(),
            Err(path) => outcome matches Err(e) && e.path@ == path,
        },
{
    let directives = import_directives(nodes);
    let mut visitor = FileImports::new(file_path);
    let ghost all = directive_views(directives@);
    let ghost answers = answer_views(canonical@);
    let ghost base = parent(file_path@);
    let mut i: usize = 0;
    assert(all.subrange(0, 0) =~= Seq::empty());
    while i < directives.len()
        invariant
            i <= directives@.len(),
            all == directive_views(directives@),
            all == directives_of(node_views(nodes@)),
            base == parent(file_path@),
            answers == answer_views(canonical@),
            visitor.wf(),
            visitor.base() == base,
            resolved(base, all.subrange(0, i as int), answers) == Ok::<Seq<Binding>, Seq<char>>(
                visitor.bindings(),
            ),
        decreases directives@.len() - i,
    {
        let ghost next = all.subrange(0, i + 1);
        assert(next.drop_last() =~= all.subrange(0, i as int));
        assert(next.last() == directives@[i as int]@);
        let answer: Option<String> = if i < canonical.len() {
            canonical[i].clone()
        } else {
            None
        };
        assert(answer.deep_view() == answer_at(answers, i as int));
        assert(resolved(base, next, answers) == visited(
            visitor.bindings(),
            base,
            next.last(),
            answer_at(answers, i as int),
        ));
        match visitor.visit_import(&directives[i], answer) {
            Ok(()) => {},
            Err(error) => {
                proof {
                    lemma_resolved_prefix(base, all, i + 1, answers);
                }
                return Err(error);
            },
        }
        i = i + 1;
    }
    assert(all.subrange(0, all.len() as int) =~= all);
    Ok(visitor.into_map())
}

/// Once a prefix of the directives fails to resolve, the whole fails with
/// the same path.
pub proof fn lemma_resolved_prefix(
    base: Seq<char>,
    directives: Seq<ImportDirectiveView>,
    len: int,
    answers: Seq<Option<Seq<char>>>,
)
    requires
        0 <= len <= directives.len(),
        resolved(base, directives.subrange(0, len), answers) is Err,
    ensures
        resolved(base, directives, answers) == resolved(base, directives.subrange(0, len), answers),
    decreases directives.len() - len,
{
    if len < directives.len() {
        let longer = directives.subrange(0, len + 1);
        assert(longer.drop_last() =~= directives.subrange(0, len));
        lemma_resolved_prefix(base, directives, len + 1, answers);
    } else {
        assert(directives.subrange(0, len) =~= directives);
    }
}

} // verus!

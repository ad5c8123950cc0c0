//! The in-memory context store.
//!
//! IDE integrations report files, symbol structures and diagnostics as
//! context entries; chat callers query them back under a priority and
//! token budget.  The store is a map keyed by entry id; a query filters
//! by workspace, type and minimum priority, orders by priority (highest
//! first, ties keeping store order), and then takes entries while the
//! running token total stays within the budget.

use vstd::prelude::*;

verus! {

/// Where a context entry came from.
#[derive(Debug, PartialEq, Eq)]
pub enum ContextSource {
    Project,
    Workspace,
    Ide,
    UserSelection,
    SemanticRelated,
    History,
    Diagnostics,
}

/// What kind of context an entry holds.
#[derive(Debug, Clone, Copy, PartialEq, Eq, Structural)]
pub enum ContextType {
    File,
    FileStructure,
    Symbol,
    Selection,
    Diagnostics,
    ProjectMeta,
}

/// A place in a file, by line range.
pub struct Location {
    pub path: String,
    pub line_start: u32,
    pub line_end: u32,
    pub column_start: Option<u32>,
    pub column_end: Option<u32>,
}

/// A position in a file.
#[derive(Clone, Copy)]
pub struct Position {
    pub line: u32,
    pub character: u32,
}

/// A span between two positions.
#[derive(Clone, Copy)]
pub struct Range {
    pub start: Position,
    pub end: Position,
}

/// The kind of a code symbol.
#[derive(Debug, Clone, Copy, PartialEq, Eq, Structural)]
pub enum SymbolKind {
    Class,
    Interface,
    Enum,
    Function,
    Method,
    Variable,
    Constant,
    Property,
}

/// A code symbol, possibly with child symbols.
pub struct SymbolInfo {
    pub name: String,
    pub kind: SymbolKind,
    pub location: Location,
    pub documentation: Option<String>,
    pub children: Option<Vec<SymbolInfo>>,
}

/// One diagnostic message.
pub struct Diagnostic {
    pub path: String,
    pub severity: String,
    pub message: String,
    pub range: Range,
    pub code: Option<String>,
    pub source: Option<String>,
}

/// A whole file's text.
pub struct FileContent {
    pub path: String,
    pub content: String,
    pub language: String,
}

/// A file's symbol structure.
pub struct FileStructureContent {
    pub path: String,
    pub symbols: Vec<SymbolInfo>,
    pub summary: Option<String>,
}

/// One symbol's definition.
pub struct SymbolContent {
    pub name: String,
    pub definition: Location,
    pub kind: SymbolKind,
    pub documentation: Option<String>,
    pub signature: Option<String>,
}

/// A selected span of a file.
pub struct SelectionContent {
    pub path: String,
    pub range: Range,
    pub content: String,
    pub context_lines: Option<u32>,
}

/// Counts of diagnostics by severity.
pub struct DiagnosticSummary {
    pub errors: u32,
    pub warnings: u32,
    pub infos: u32,
    pub hints: u32,
}

/// A set of diagnostics, possibly summarized.
pub struct DiagnosticsContent {
    pub path: Option<String>,
    pub items: Vec<Diagnostic>,
    pub summary: Option<DiagnosticSummary>,
}

/// Project-level metadata.
pub struct ProjectMetaContent {
    pub name: String,
    pub root_dir: String,
    pub project_type: String,
    pub languages: Vec<String>,
    pub frameworks: Vec<String>,
}

/// The payload of a context entry.
pub enum ContextContent {
    File(FileContent),
    FileStructure(FileStructureContent),
    Symbol(SymbolContent),
    Selection(SelectionContent),
    Diagnostics(DiagnosticsContent),
    ProjectMeta(ProjectMetaContent),
}

/// The priority of a context entry.
pub type ContextPriority = u8;

/// One stored context entry.
pub struct ContextEntry {
    pub id: String,
    pub source: ContextSource,
    pub type_: ContextType,
    pub priority: ContextPriority,
    pub content: ContextContent,
    pub workspace_id: Option<String>,
    pub created_at: u64,
    pub expires_at: Option<u64>,
    pub estimated_tokens: u32,
}

/// A context query: all bounds are optional.
pub struct ContextQueryRequest {
    pub workspace_id: Option<String>,
    pub types: Option<Vec<ContextType>>,
    pub sources: Option<Vec<ContextSource>>,
    pub max_tokens: Option<u32>,
    pub min_priority: Option<u8>,
    pub current_file: Option<String>,
    pub mentioned_files: Option<Vec<String>>,
}

/// What a query returned.
pub struct ContextQueryResult {
    pub entries: Vec<ContextEntry>,
    pub total_tokens: u32,
    pub summary: ContextSummary,
}

/// Aggregate counts over a query's entries.
pub struct ContextSummary {
    pub file_count: usize,
    pub symbol_count: usize,
    pub workspace_ids: Vec<String>,
    pub languages: Vec<String>,
}

/// The current file as an IDE reports it.
pub struct IdeFileContext {
    pub workspace_id: String,
    pub file_path: String,
    pub content: String,
    pub language: String,
    pub cursor_offset: usize,
    pub selection: Option<Range>,
}

/// A file structure as an IDE reports it.
pub struct IdeFileStructure {
    pub workspace_id: String,
    pub file_path: String,
    pub symbols: Vec<SymbolInfo>,
}

/// Diagnostics as an IDE reports them.
pub struct IdeDiagnostics {
    pub workspace_id: String,
    pub file_path: String,
    pub diagnostics: Vec<Diagnostic>,
}

/// Equivalence of symbol trees, component by component.
pub open spec fn eq_sym(a: SymbolInfo, b: SymbolInfo) -> bool
    decreases a, 1int,
{
    &&& a.name == b.name
    &&& a.kind == b.kind
    &&& a.location == b.location
    &&& a.documentation == b.documentation
    &&& (match (a.children, b.children) {
        (None, None) => true,
        (Some(x), Some(y)) => eq_sym_seq(x@, y@),
        _ => false,
    })
}

/// Equivalence of symbol sequences, element by element.
pub open spec fn eq_sym_seq(x: Seq<SymbolInfo>, y: Seq<SymbolInfo>) -> bool
    decreases x, 0int,
{
    if x.len() != y.len() {
        false
    } else if x.len() == 0 {
        true
    } else {
        eq_sym(x[0], y[0]) && eq_sym_seq(x.drop_first(), y.drop_first())
    }
}

/// The elementwise reading of symbol-sequence equivalence.
pub proof fn lemma_eq_sym_seq(x: Seq<SymbolInfo>, y: Seq<SymbolInfo>)
    requires
        x.len() == y.len(),
        forall|i: int| 0 <= i < x.len() ==> eq_sym(#[trigger] x[i], y[i]),
    ensures
        eq_sym_seq(x, y),
    decreases x.len(),
{
    if x.len() > 0 {
        assert(eq_sym(x[0], y[0]));
        assert forall|i: int| 0 <= i < x.drop_first().len() implies eq_sym(
            #[trigger] x.drop_first()[i], y.drop_first()[i]) by {
            assert(x.drop_first()[i] == x[i + 1]);
            assert(eq_sym(x[i + 1], y[i + 1]));
        }
        lemma_eq_sym_seq(x.drop_first(), y.drop_first());
    }
}

/// Equivalence of entry payloads: equality, with symbol trees and vectors
/// compared element by element.
pub open spec fn eq_content(a: ContextContent, b: ContextContent) -> bool {
    match (a, b) {
        (ContextContent::File(x), ContextContent::File(y)) => x == y,
        (ContextContent::FileStructure(x), ContextContent::FileStructure(y)) => x.path == y.path
            && x.summary == y.summary && eq_sym_seq(x.symbols@, y.symbols@),
        (ContextContent::Symbol(x), ContextContent::Symbol(y)) => x == y,
        (ContextContent::Selection(x), ContextContent::Selection(y)) => x == y,
        (ContextContent::Diagnostics(x), ContextContent::Diagnostics(y)) => x.path == y.path
            && x.items@ == y.items@ && x.summary == y.summary,
        (ContextContent::ProjectMeta(x), ContextContent::ProjectMeta(y)) => x.name == y.name
            && x.root_dir == y.root_dir && x.project_type == y.project_type && x.languages@
            == y.languages@ && x.frameworks@ == y.frameworks@,
        _ => false,
    }
}

/// Equivalence of stored entries.
pub open spec fn eq_entry(a: ContextEntry, b: ContextEntry) -> bool {
    &&& a.id == b.id
    &&& a.source == b.source
    &&& a.type_ == b.type_
    &&& a.priority == b.priority
    &&& eq_content(a.content, b.content)
    &&& a.workspace_id == b.workspace_id
    &&& a.created_at == b.created_at
    &&& a.expires_at == b.expires_at
    &&& a.estimated_tokens == b.estimated_tokens
}

/// A copy of a location.
pub fn clone_location(l: &Location) -> (r: Location)
    ensures
        r == *l,
{
    Location {
        path: l.path.clone(),
        line_start: l.line_start,
        line_end: l.line_end,
        column_start: l.column_start,
        column_end: l.column_end,
    }
}

/// A copy of an optional string.
pub fn clone_opt_string(o: &Option<String>) -> (r: Option<String>)
    ensures
        r == *o,
{
    match o {
        Some(s) => Some(s.clone()),
        None => None,
    }
}

/// A copy of a string vector.
#[verifier::loop_isolation(false)]
pub fn clone_strings(v: &Vec<String>) -> (r: Vec<String>)
    ensures
        r@ == v@,
{
    let mut out: Vec<String> = Vec::new();
    let mut i: usize = 0;
    while i < v.len()
        invariant
            i <= v@.len(),
            out@ == v@.take(i as int),
        decreases v@.len() - i,
    {
        proof {
            assert(v@.take(i + 1 as int) =~= v@.take(i as int).push(v@[i as int]));
        }
        out.push(v[i].clone());
        i = i + 1;
    }
    proof {
        assert(v@.take(v@.len() as int) =~= v@);
    }
    out
}

/// A copy of a symbol tree, equivalent to the original.
#[verifier::loop_isolation(false)]
pub fn clone_symbol(s: &SymbolInfo) -> (r: SymbolInfo)
    ensures
        eq_sym(r, *s),
    decreases *s,
{
    let children: Option<Vec<SymbolInfo>> = match &s.children {
        Some(cs) => {
            let mut out: Vec<SymbolInfo> = Vec::new();
            let mut i: usize = 0;
            while i < cs.len()
                invariant
                    i <= cs@.len(),
                    out@.len() == i,
                    forall|d: int| 0 <= d < i ==> eq_sym(#[trigger] out@[d], cs@[d]),
                decreases cs@.len() - i,
            {
                proof {
                    broadcast use vstd::std_specs::vec::axiom_vec_index_decreases;

                    assert(decreases_to!(*s => s.children));
                    assert(decreases_to!(s.children => s.children->Some_0));
                    assert(s.children->Some_0 == *cs);
                    assert(decreases_to!(*cs => cs@[i as int]));
                    assert(decreases_to!(*s => cs@[i as int]));
                }
                let c = clone_symbol(&cs[i]);
                out.push(c);
                i = i + 1;
            }
            proof {
                lemma_eq_sym_seq(out@, cs@);
            }
            Some(out)
        }
        None => None,
    };
    SymbolInfo {
        name: s.name.clone(),
        kind: s.kind,
        location: clone_location(&s.location),
        documentation: clone_opt_string(&s.documentation),
        children,
    }
}

/// A copy of a symbol vector, equivalent element by element.
#[verifier::loop_isolation(false)]
pub fn clone_symbols(v: &Vec<SymbolInfo>) -> (r: Vec<SymbolInfo>)
    ensures
        eq_sym_seq(r@, v@),
{
    let mut out: Vec<SymbolInfo> = Vec::new();
    let mut i: usize = 0;
    while i < v.len()
        invariant
            i <= v@.len(),
            out@.len() == i,
            forall|d: int| 0 <= d < i ==> eq_sym(#[trigger] out@[d], v@[d]),
        decreases v@.len() - i,
    {
        let c = clone_symbol(&v[i]);
        out.push(c);
        i = i + 1;
    }
    proof {
        lemma_eq_sym_seq(out@, v@);
    }
    out
}

/// A copy of a diagnostic.
pub fn clone_diagnostic(d: &Diagnostic) -> (r: Diagnostic)
    ensures
        r == *d,
{
    Diagnostic {
        path: d.path.clone(),
        severity: d.severity.clone(),
        message: d.message.clone(),
        range: d.range,
        code: clone_opt_string(&d.code),
        source: clone_opt_string(&d.source),
    }
}

/// A copy of a diagnostic vector.
#[verifier::loop_isolation(false)]
pub fn clone_diagnostics(v: &Vec<Diagnostic>) -> (r: Vec<Diagnostic>)
    ensures
        r@ == v@,
{
    let mut out: Vec<Diagnostic> = Vec::new();
    let mut i: usize = 0;
    while i < v.len()
        invariant
            i <= v@.len(),
            out@ == v@.take(i as int),
        decreases v@.len() - i,
    {
        proof {
            assert(v@.take(i + 1 as int) =~= v@.take(i as int).push(v@[i as int]));
        }
        out.push(clone_diagnostic(&v[i]));
        i = i + 1;
    }
    proof {
        assert(v@.take(v@.len() as int) =~= v@);
    }
    out
}

/// A copy of an entry payload, equivalent to the original.
pub fn clone_content(c: &ContextContent) -> (r: ContextContent)
    ensures
        eq_content(r, *c),
{
    match c {
        ContextContent::File(x) => ContextContent::File(
            FileContent {
                path: x.path.clone(),
                content: x.content.clone(),
                language: x.language.clone(),
            },
        ),
        ContextContent::FileStructure(x) => ContextContent::FileStructure(
            FileStructureContent {
                path: x.path.clone(),
                symbols: clone_symbols(&x.symbols),
                summary: clone_opt_string(&x.summary),
            },
        ),
        ContextContent::Symbol(x) => ContextContent::Symbol(
            SymbolContent {
                name: x.name.clone(),
                definition: clone_location(&x.definition),
                kind: x.kind,
                documentation: clone_opt_string(&x.documentation),
                signature: clone_opt_string(&x.signature),
            },
        ),
        ContextContent::Selection(x) => ContextContent::Selection(
            SelectionContent {
                path: x.path.clone(),
                range: x.range,
                content: x.content.clone(),
                context_lines: x.context_lines,
            },
        ),
        ContextContent::Diagnostics(x) => ContextContent::Diagnostics(
            DiagnosticsContent {
                path: clone_opt_string(&x.path),
                items: clone_diagnostics(&x.items),
                summary: match &x.summary {
                    Some(ds) => Some(
                        DiagnosticSummary {
                            errors: ds.errors,
                            warnings: ds.warnings,
                            infos: ds.infos,
                            hints: ds.hints,
                        },
                    ),
                    None => None,
                },
            },
        ),
        ContextContent::ProjectMeta(x) => ContextContent::ProjectMeta(
            ProjectMetaContent {
                name: x.name.clone(),
                root_dir: x.root_dir.clone(),
                project_type: x.project_type.clone(),
                languages: clone_strings(&x.languages),
                frameworks: clone_strings(&x.frameworks),
            },
        ),
    }
}

/// A copy of a stored entry, equivalent to the original.
pub fn clone_entry(e: &ContextEntry) -> (r: ContextEntry)
    ensures
        eq_entry(r, *e),
{
    ContextEntry {
        id: e.id.clone(),
        source: match e.source {
            ContextSource::Project => ContextSource::Project,
            ContextSource::Workspace => ContextSource::Workspace,
            ContextSource::Ide => ContextSource::Ide,
            ContextSource::UserSelection => ContextSource::UserSelection,
            ContextSource::SemanticRelated => ContextSource::SemanticRelated,
            ContextSource::History => ContextSource::History,
            ContextSource::Diagnostics => ContextSource::Diagnostics,
        },
        type_: e.type_,
        priority: e.priority,
        content: clone_content(&e.content),
        workspace_id: clone_opt_string(&e.workspace_id),
        created_at: e.created_at,
        expires_at: e.expires_at,
        estimated_tokens: e.estimated_tokens,
    }
}

/// Does an entry pass a query's filters?  A query filters by workspace,
/// by entry type and by minimum priority; its `sources`, `current_file`
/// and `mentioned_files` fields do not narrow the result.
pub open spec fn matches_query(e: ContextEntry, q: ContextQueryRequest) -> bool {
    &&& (match q.workspace_id {
        Some(w) => match e.workspace_id {
            Some(ew) => ew@ == w@,
            None => false,
        },
        None => true,
    })
    &&& (match q.types {
        Some(ts) => exists|i: int| 0 <= i < ts@.len() && ts@[i] == e.type_,
        None => true,
    })
    &&& (match q.min_priority {
        Some(mp) => e.priority >= mp,
        None => true,
    })
}

/// The entries of `s` that pass the query, in store order.
pub open spec fn filter_query(s: Seq<ContextEntry>, q: ContextQueryRequest) -> Seq<ContextEntry>
    decreases s.len(),
{
    if s.len() == 0 {
        Seq::empty()
    } else if matches_query(s.last(), q) {
        filter_query(s.drop_last(), q).push(s.last())
    } else {
        filter_query(s.drop_last(), q)
    }
}

/// `e` placed into `s` after every entry of priority at least `e`'s:
/// the insertion step of a stable descending sort.
pub open spec fn insert_desc(e: ContextEntry, s: Seq<ContextEntry>) -> Seq<ContextEntry>
    decreases s.len(),
{
    if s.len() > 0 && s[0].priority >= e.priority {
        seq![s[0]] + insert_desc(e, s.drop_first())
    } else {
        seq![e] + s
    }
}

/// `s` stably sorted by priority, highest first: equal priorities keep
/// their relative order.
pub open spec fn sort_desc(s: Seq<ContextEntry>) -> Seq<ContextEntry>
    decreases s.len(),
{
    if s.len() == 0 {
        Seq::empty()
    } else {
        insert_desc(s.last(), sort_desc(s.drop_last()))
    }
}

/// The longest prefix whose running token total stays within `max`,
/// starting from a total of `acc`.
pub open spec fn budget_take(s: Seq<ContextEntry>, acc: int, max: int) -> Seq<ContextEntry>
    decreases s.len(),
{
    if s.len() == 0 {
        Seq::empty()
    } else if acc + s[0].estimated_tokens <= max {
        seq![s[0]] + budget_take(s.drop_first(), acc + s[0].estimated_tokens, max)
    } else {
        Seq::empty()
    }
}

/// The total of the estimated tokens over a sequence of entries.
pub open spec fn sum_tokens(s: Seq<ContextEntry>) -> int
    decreases s.len(),
{
    if s.len() == 0 {
        0
    } else {
        sum_tokens(s.drop_last()) + s.last().estimated_tokens
    }
}

/// The default token budget of a query.
pub const DEFAULT_MAX_TOKENS: u32 = 8000;

/// How many entries of `s` count as files.
pub open spec fn count_files(s: Seq<ContextEntry>) -> int
    decreases s.len(),
{
    if s.len() == 0 {
        0
    } else {
        count_files(s.drop_last()) + (if s.last().type_ == ContextType::File || s.last().type_
            == ContextType::FileStructure {
            1int
        } else {
            0int
        })
    }
}

/// How many entries of `s` are symbols.
pub open spec fn count_symbols(s: Seq<ContextEntry>) -> int
    decreases s.len(),
{
    if s.len() == 0 {
        0
    } else {
        count_symbols(s.drop_last()) + (if s.last().type_ == ContextType::Symbol {
            1int
        } else {
            0int
        })
    }
}

/// The workspace ids named by entries of `s`, first occurrence first.
pub open spec fn workspace_ids_of(s: Seq<ContextEntry>) -> Seq<Seq<char>>
    decreases s.len(),
{
    if s.len() == 0 {
        Seq::empty()
    } else {
        let rest = workspace_ids_of(s.drop_last());
        match s.last().workspace_id {
            Some(w) => if rest.contains(w@) {
                rest
            } else {
                rest.push(w@)
            },
            None => rest,
        }
    }
}

/// The languages of file contents among `s`, first occurrence first.
pub open spec fn languages_of(s: Seq<ContextEntry>) -> Seq<Seq<char>>
    decreases s.len(),
{
    if s.len() == 0 {
        Seq::empty()
    } else {
        let rest = languages_of(s.drop_last());
        match s.last().content {
            ContextContent::File(f) => if rest.contains(f.language@) {
                rest
            } else {
                rest.push(f.language@)
            },
            _ => rest,
        }
    }
}

/// Is `sum` the summary of `s`?
pub open spec fn is_summary_of(sum: ContextSummary, s: Seq<ContextEntry>) -> bool {
    &&& sum.file_count == count_files(s)
    &&& sum.symbol_count == count_symbols(s)
    &&& sum.workspace_ids@.map_values(|w: String| w@) == workspace_ids_of(s)
    &&& sum.languages@.map_values(|w: String| w@) == languages_of(s)
}

/// Equivalence of entry sequences, element by element.
pub open spec fn eq_entry_seq(a: Seq<ContextEntry>, b: Seq<ContextEntry>) -> bool {
    a.len() == b.len() && forall|i: int| 0 <= i < a.len() ==> eq_entry(#[trigger] a[i], b[i])
}

/// Does the sequence hold an entry with this id?
pub open spec fn has_id(s: Seq<ContextEntry>, id: Seq<char>) -> bool {
    exists|i: int| 0 <= i < s.len() && (#[trigger] s[i]).id@ == id
}

/// The in-memory context store: a map from entry id to entry, in
/// insertion order.
pub struct ContextMemoryStore {
    entries: Vec<ContextEntry>,
}

impl ContextMemoryStore {
    /// The stored entries, in insertion order.
    pub closed spec fn entries_view(self) -> Seq<ContextEntry> {
        self.entries@
    }

    /// Entry ids are pairwise distinct.
    pub closed spec fn wf(self) -> bool {
        forall|i: int, j: int|
            0 <= i < j < self.entries@.len() ==> (#[trigger] self.entries@[i]).id@ != (
            #[trigger] self.entries@[j]).id@
    }

    /// An empty store.
    pub fn new() -> (r: ContextMemoryStore)
        ensures
            r.wf(),
            r.entries_view() == Seq::<ContextEntry>::empty(),
    {
        ContextMemoryStore { entries: Vec::new() }
    }

    /// The position of the entry with this id, if any.
    #[verifier::loop_isolation(false)]
    fn find(&self, id: &str) -> (r: Option<usize>)
        ensures
            (match r {
                Some(i) => i < self.entries@.len() && self.entries@[i as int].id@ == id@,
                None => !has_id(self.entries@, id@),
            }),
    {
        let mut i: usize = 0;
        while i < self.entries.len()
            invariant
                i <= self.entries@.len(),
                forall|d: int| 0 <= d < i ==> (#[trigger] self.entries@[d]).id@ != id@,
            decreases self.entries@.len() - i,
        {
            if crate::json::string_eq_str(&self.entries[i].id, id) {
                return Some(i);
            }
            i = i + 1;
        }
        None
    }

    /// Insert the entry, replacing any entry stored under the same id in
    /// place.
    pub fn upsert(&mut self, entry: ContextEntry)
        requires
            old(self).wf(),
        ensures
            final(self).wf(),
            !has_id(old(self).entries_view(), entry.id@) ==> final(self).entries_view() == old(
                self).entries_view().push(entry),
            has_id(old(self).entries_view(), entry.id@) ==> exists|i: int|
                0 <= i < old(self).entries_view().len() && (#[trigger] old(
                self).entries_view()[i]).id@ == entry.id@ && final(self).entries_view() == old(
                self).entries_view().update(i, entry),
    {
        let pos = self.find(entry.id.as_str());
        match pos {
            Some(i) => {
                let ghost pre = self.entries@;
                let ghost idv = entry.id@;
                self.entries.set(i, entry);
                proof {
                    assert(pre[i as int].id@ == idv);
                    assert(has_id(pre, idv));
                    assert forall|a: int, b: int|
                        0 <= a < b < self.entries@.len() implies (
                    #[trigger] self.entries@[a]).id@ != (#[trigger] self.entries@[b]).id@ by {
                        assert(pre[a].id@ != pre[b].id@);
                    }
                }
            }
            None => {
                let ghost pre = self.entries@;
                let ghost idv = entry.id@;
                self.entries.push(entry);
                proof {
                    assert forall|a: int, b: int|
                        0 <= a < b < self.entries@.len() implies (
                    #[trigger] self.entries@[a]).id@ != (#[trigger] self.entries@[b]).id@ by {
                        if b == self.entries@.len() - 1 {
                            assert(pre[a].id@ != idv);
                        } else {
                            assert(pre[a].id@ != pre[b].id@);
                        }
                    }
                }
            }
        }
    }

    /// The entry stored under this id, if any.
    pub fn get(&self, id: &str) -> (r: Option<&ContextEntry>)
        ensures
            (match r {
                Some(e) => exists|i: int|
                    0 <= i < self.entries_view().len() && (#[trigger] self.entries_view()[i]).id@
                        == id@ && *e == self.entries_view()[i],
                None => !has_id(self.entries_view(), id@),
            }),
    {
        match self.find(id) {
            Some(i) => {
                proof {
                    assert(0 <= i < self.entries_view().len() && self.entries_view()[
                        i as int].id@ == id@ && self.entries@[i as int] == self.entries_view()[
                        i as int]);
                }
                Some(&self.entries[i])
            }
            None => None,
        }
    }

    /// Remove and return the entry stored under this id.
    pub fn remove(&mut self, id: &str) -> (r: Option<ContextEntry>)
        requires
            old(self).wf(),
        ensures
            final(self).wf(),
            (match r {
                Some(e) => exists|i: int|
                    0 <= i < old(self).entries_view().len() && (#[trigger] old(
                    self).entries_view()[i]).id@ == id@ && e == old(self).entries_view()[i]
                        && final(self).entries_view() == old(self).entries_view().remove(i),
                None => !has_id(old(self).entries_view(), id@) && *final(self) == *old(self),
            }),
    {
        match self.find(id) {
            Some(i) => {
                let ghost pre = self.entries@;
                let e = self.entries.remove(i);
                proof {
                    assert forall|a: int, b: int|
                        0 <= a < b < self.entries@.len() implies (
                    #[trigger] self.entries@[a]).id@ != (#[trigger] self.entries@[b]).id@ by {
                        if a < i as int {
                            assert(self.entries@[a] == pre[a]);
                        } else {
                            assert(self.entries@[a] == pre[a + 1]);
                        }
                        if b < i as int {
                            assert(self.entries@[b] == pre[b]);
                        } else {
                            assert(self.entries@[b] == pre[b + 1]);
                        }
                    }
                    assert(0 <= i < old(self).entries_view().len() && old(
                        self).entries_view()[i as int].id@ == id@ && e == old(
                        self).entries_view()[i as int] && final(self).entries_view() == old(
                        self).entries_view().remove(i as int));
                }
                Some(e)
            }
            None => None,
        }
    }

    /// Copies of all stored entries, in insertion order.
    #[verifier::loop_isolation(false)]
    pub fn get_all(&self) -> (r: Vec<ContextEntry>)
        ensures
            eq_entry_seq(r@, self.entries_view()),
    {
        let mut out: Vec<ContextEntry> = Vec::new();
        let mut i: usize = 0;
        while i < self.entries.len()
            invariant
                i <= self.entries@.len(),
                out@.len() == i,
                forall|d: int| 0 <= d < i ==> eq_entry(#[trigger] out@[d], self.entries@[d]),
            decreases self.entries@.len() - i,
        {
            let c = clone_entry(&self.entries[i]);
            out.push(c);
            i = i + 1;
        }
        out
    }

    /// Forget every stored entry.
    pub fn clear(&mut self)
        ensures
            final(self).wf(),
            final(self).entries_view() == Seq::<ContextEntry>::empty(),
    {
        self.entries = Vec::new();
    }
}

/// Inserting equivalent entries into equivalent sequences gives
/// equivalent sequences.
proof fn lemma_insert_desc_eq(e1: ContextEntry, s1: Seq<ContextEntry>, e2: ContextEntry, s2: Seq<
    ContextEntry,
>)
    requires
        eq_entry(e1, e2),
        eq_entry_seq(s1, s2),
    ensures
        eq_entry_seq(insert_desc(e1, s1), insert_desc(e2, s2)),
    decreases s1.len(),
{
    if s1.len() > 0 && s1[0].priority >= e1.priority {
        assert(eq_entry(s1[0], s2[0]));
        assert forall|i: int| 0 <= i < s1.drop_first().len() implies eq_entry(
            #[trigger] s1.drop_first()[i], s2.drop_first()[i]) by {
            assert(s1.drop_first()[i] == s1[i + 1] && s2.drop_first()[i] == s2[i + 1]);
            assert(eq_entry(s1[i + 1], s2[i + 1]));
        }
        lemma_insert_desc_eq(e1, s1.drop_first(), e2, s2.drop_first());
        assert forall|i: int| 0 <= i < insert_desc(e1, s1).len() implies eq_entry(
            #[trigger] insert_desc(e1, s1)[i], insert_desc(e2, s2)[i]) by {
            if i > 0 {
                assert(insert_desc(e1, s1)[i] == insert_desc(e1, s1.drop_first())[i - 1]);
                assert(insert_desc(e2, s2)[i] == insert_desc(e2, s2.drop_first())[i - 1]);
            }
        }
    } else {
        assert forall|i: int| 0 <= i < insert_desc(e1, s1).len() implies eq_entry(
            #[trigger] insert_desc(e1, s1)[i], insert_desc(e2, s2)[i]) by {
            if i > 0 {
                assert(insert_desc(e1, s1)[i] == s1[i - 1]);
                assert(insert_desc(e2, s2)[i] == s2[i - 1]);
                assert(eq_entry(s1[i - 1], s2[i - 1]));
            }
        }
    }
}

/// The budget walk treats equivalent sequences alike.
proof fn lemma_budget_eq(s1: Seq<ContextEntry>, s2: Seq<ContextEntry>, acc: int, max: int)
    requires
        eq_entry_seq(s1, s2),
    ensures
        eq_entry_seq(budget_take(s1, acc, max), budget_take(s2, acc, max)),
    decreases s1.len(),
{
    if s1.len() > 0 {
        assert(eq_entry(s1[0], s2[0]));
        assert forall|i: int| 0 <= i < s1.drop_first().len() implies eq_entry(
            #[trigger] s1.drop_first()[i], s2.drop_first()[i]) by {
            assert(s1.drop_first()[i] == s1[i + 1] && s2.drop_first()[i] == s2[i + 1]);
            assert(eq_entry(s1[i + 1], s2[i + 1]));
        }
        lemma_budget_eq(s1.drop_first(), s2.drop_first(), acc + s1[0].estimated_tokens, max);
        if acc + s1[0].estimated_tokens <= max {
            assert forall|i: int| 0 <= i < budget_take(s1, acc, max).len() implies eq_entry(
                #[trigger] budget_take(s1, acc, max)[i], budget_take(s2, acc, max)[i]) by {
                if i > 0 {
                    assert(budget_take(s1, acc, max)[i] == budget_take(s1.drop_first(), acc
                        + s1[0].estimated_tokens, max)[i - 1]);
                    assert(budget_take(s2, acc, max)[i] == budget_take(s2.drop_first(), acc
                        + s2[0].estimated_tokens, max)[i - 1]);
                }
            }
        }
    }
}

/// Where the scan in the sorted vector stops is where the stable
/// insertion places the entry.
proof fn lemma_insert_desc_at(e: ContextEntry, s: Seq<ContextEntry>, j: int)
    requires
        0 <= j <= s.len(),
        forall|d: int| 0 <= d < j ==> (#[trigger] s[d]).priority >= e.priority,
        j < s.len() ==> s[j].priority < e.priority,
    ensures
        insert_desc(e, s) == s.take(j) + seq![e] + s.skip(j),
    decreases s.len(),
{
    if s.len() > 0 && s[0].priority >= e.priority {
        assert(j > 0);
        assert forall|d: int| 0 <= d < j - 1 implies (#[trigger] s.drop_first()[d]).priority
            >= e.priority by {
            assert(s.drop_first()[d] == s[d + 1]);
            assert(s[d + 1].priority >= e.priority);
        }
        if j - 1 < s.drop_first().len() {
            assert(s.drop_first()[j - 1] == s[j]);
        }
        lemma_insert_desc_at(e, s.drop_first(), j - 1);
        assert(insert_desc(e, s) =~= s.take(j) + seq![e] + s.skip(j));
    } else {
        assert(j == 0) by {
            if j > 0 {
                assert(s[0].priority >= e.priority);
            }
        }
        assert(insert_desc(e, s) =~= s.take(0) + seq![e] + s.skip(0));
    }
}

/// Does an entry pass the query's filters?
fn matches_query_exec(e: &ContextEntry, q: &ContextQueryRequest) -> (r: bool)
    ensures
        r == matches_query(*e, *q),
{
    let ws_ok: bool = match &q.workspace_id {
        Some(w) => match &e.workspace_id {
            Some(ew) => *ew == *w,
            None => false,
        },
        None => true,
    };
    if !ws_ok {
        return false;
    }
    let ty_ok: bool = match &q.types {
        Some(ts) => {
            let mut found = false;
            let mut i: usize = 0;
            while i < ts.len()
                invariant
                    i <= ts@.len(),
                    found == exists|d: int| 0 <= d < i && ts@[d] == e.type_,
                decreases ts@.len() - i,
            {
                if ts[i] == e.type_ {
                    found = true;
                }
                i = i + 1;
            }
            found
        }
        None => true,
    };
    if !ty_ok {
        return false;
    }
    match q.min_priority {
        Some(mp) => e.priority >= mp,
        None => true,
    }
}

/// Place a copy into the sorted vector, after every entry of priority at
/// least its own.
#[verifier::loop_isolation(false)]
fn insert_sorted(v: &mut Vec<ContextEntry>, e: ContextEntry)
    ensures
        final(v)@ == insert_desc(e, old(v)@),
{
    let mut j: usize = 0;
    while j < v.len() && v[j].priority >= e.priority
        invariant
            j <= v@.len(),
            forall|d: int| 0 <= d < j ==> (#[trigger] v@[d]).priority >= e.priority,
        decreases v@.len() - j,
    {
        j = j + 1;
    }
    proof {
        lemma_insert_desc_at(e, v@, j as int);
    }
    v.insert(j, e);
    proof {
        assert(v@ =~= old(v)@.take(j as int) + seq![e] + old(v)@.skip(j as int));
    }
}

impl ContextMemoryStore {
    /// Answer a query: the stored entries that pass its filters, ordered
    /// by priority (highest first, ties keeping store order), taken while
    /// the running token total stays within the budget; the total of the
    /// returned entries' tokens; and a summary of what was taken.
    #[verifier::loop_isolation(false)]
    #[verifier::rlimit(60)]
    pub fn query(&self, request: &ContextQueryRequest) -> (r: ContextQueryResult)
        ensures
            ({
                let srt = sort_desc(filter_query(self.entries_view(), *request));
                let maxt = (match request.max_tokens {
                    Some(m) => m as int,
                    None => DEFAULT_MAX_TOKENS as int,
                });
                &&& eq_entry_seq(r.entries@, budget_take(srt, 0, maxt))
                &&& r.total_tokens as int == sum_tokens(r.entries@)
                &&& r.total_tokens <= maxt
                &&& is_summary_of(r.summary, r.entries@)
            }),
    {
        let maxt: u32 = match request.max_tokens {
            Some(m) => m,
            None => DEFAULT_MAX_TOKENS,
        };
        let mut picked: Vec<ContextEntry> = Vec::new();
        let mut k: usize = 0;
        proof {
            assert(self.entries@.take(0) =~= Seq::<ContextEntry>::empty());
        }
        while k < self.entries.len()
            invariant
                k <= self.entries@.len(),
                eq_entry_seq(picked@, sort_desc(filter_query(self.entries@.take(k as int),
                    *request))),
            decreases self.entries@.len() - k,
        {
            let ghost pref = self.entries@.take(k as int);
            proof {
                assert(self.entries@.take(k + 1 as int).drop_last() =~= pref);
                assert(self.entries@.take(k + 1 as int).last() == self.entries@[k as int]);
            }
            if matches_query_exec(&self.entries[k], request) {
                let c = clone_entry(&self.entries[k]);
                let ghost pickedv = picked@;
                insert_sorted(&mut picked, c);
                proof {
                    let f2 = filter_query(self.entries@.take(k + 1 as int), *request);
                    assert(f2 == filter_query(pref, *request).push(self.entries@[k as int]));
                    assert(f2.drop_last() =~= filter_query(pref, *request));
                    assert(f2.last() == self.entries@[k as int]);
                    assert(sort_desc(f2) == insert_desc(self.entries@[k as int], sort_desc(
                        filter_query(pref, *request))));
                    lemma_insert_desc_eq(c, pickedv, self.entries@[k as int], sort_desc(
                        filter_query(pref, *request)));
                }
            } else {
                proof {
                    assert(filter_query(self.entries@.take(k + 1 as int), *request)
                        == filter_query(pref, *request));
                }
            }
            k = k + 1;
        }
        proof {
            assert(self.entries@.take(self.entries@.len() as int) =~= self.entries@);
        }
        let ghost srt = sort_desc(filter_query(self.entries@, *request));
        let mut i: usize = 0;
        let mut acc: u64 = 0;
        let mut stopped = false;
        proof {
            assert(picked@.skip(0) =~= picked@);
            assert(picked@.take(0) =~= Seq::<ContextEntry>::empty());
        }
        while i < picked.len() && !stopped
            invariant
                i <= picked@.len(),
                maxt as int == (match request.max_tokens {
                    Some(m) => m as int,
                    None => DEFAULT_MAX_TOKENS as int,
                }),
                eq_entry_seq(picked@, srt),
                acc <= maxt as u64,
                acc as int == sum_tokens(picked@.take(i as int)),
                !stopped ==> budget_take(picked@, 0, maxt as int) == picked@.take(i as int)
                    + budget_take(picked@.skip(i as int), acc as int, maxt as int),
                stopped ==> budget_take(picked@, 0, maxt as int) == picked@.take(i as int),
            decreases picked@.len() - i + (if stopped { 0int } else { 1int }),
        {
            let t: u64 = picked[i].estimated_tokens as u64;
            proof {
                assert(picked@.skip(i as int)[0] == picked@[i as int]);
                assert(picked@.skip(i as int).drop_first() =~= picked@.skip(i + 1 as int));
            }
            if acc + t <= maxt as u64 {
                proof {
                    assert(picked@.take(i + 1 as int) =~= picked@.take(i as int).push(
                        picked@[i as int]));
                    assert(budget_take(picked@.skip(i as int), acc as int, maxt as int)
                        =~= seq![picked@[i as int]] + budget_take(picked@.skip(i + 1 as int), acc
                        + t, maxt as int));
                    assert(picked@.take(i as int) + budget_take(picked@.skip(i as int),
                        acc as int, maxt as int) =~= picked@.take(i + 1 as int) + budget_take(
                        picked@.skip(i + 1 as int), acc + t, maxt as int));
                    assert(picked@.take(i + 1 as int).drop_last() =~= picked@.take(i as int));
                    assert(picked@.take(i + 1 as int).last() == picked@[i as int]);
                    assert(sum_tokens(picked@.take(i + 1 as int)) == acc + t);
                }
                acc = acc + t;
                i = i + 1;
            } else {
                proof {
                    assert(budget_take(picked@.skip(i as int), acc as int, maxt as int)
                        =~= Seq::<ContextEntry>::empty());
                    assert(budget_take(picked@, 0, maxt as int) =~= picked@.take(i as int));
                }
                stopped = true;
            }
        }
        if !stopped {
            proof {
                assert(picked@.skip(i as int) =~= Seq::<ContextEntry>::empty());
                assert(budget_take(picked@, 0, maxt as int) =~= picked@.take(i as int));
            }
        }
        let total: u32 = acc as u32;
        let n = i;
        let mut selected = picked;
        selected.truncate(n);
        proof {
            lemma_budget_eq(picked@, srt, 0, maxt as int);
            assert(eq_entry_seq(selected@, budget_take(srt, 0, maxt as int))) by {
                assert(selected@ == picked@.take(n as int));
                assert(budget_take(picked@, 0, maxt as int) == picked@.take(n as int));
            }
        }
        let summary = ContextMemoryStore::build_summary(&selected);
        ContextQueryResult { entries: selected, total_tokens: total, summary }
    }

    /// The aggregate summary of a sequence of entries: how many are files
    /// or file structures, how many are symbols, and the distinct
    /// workspace ids and file languages they name, first occurrence first.
    #[verifier::loop_isolation(false)]
    pub fn build_summary(entries: &Vec<ContextEntry>) -> (r: ContextSummary)
        ensures
            is_summary_of(r, entries@),
    {
        let mut file_count: usize = 0;
        let mut symbol_count: usize = 0;
        let mut workspace_ids: Vec<String> = Vec::new();
        let mut languages: Vec<String> = Vec::new();
        let mut i: usize = 0;
        proof {
            assert(entries@.take(0) =~= Seq::<ContextEntry>::empty());
            assert(workspace_ids@.map_values(|w: String| w@) =~= Seq::<Seq<char>>::empty());
            assert(languages@.map_values(|w: String| w@) =~= Seq::<Seq<char>>::empty());
        }
        while i < entries.len()
            invariant
                i <= entries@.len(),
                file_count as int == count_files(entries@.take(i as int)),
                symbol_count as int == count_symbols(entries@.take(i as int)),
                file_count <= i,
                symbol_count <= i,
                workspace_ids@.map_values(|w: String| w@) == workspace_ids_of(entries@.take(
                    i as int)),
                languages@.map_values(|w: String| w@) == languages_of(entries@.take(i as int)),
            decreases entries@.len() - i,
        {
            proof {
                assert(entries@.take(i + 1 as int).drop_last() =~= entries@.take(i as int));
                assert(entries@.take(i + 1 as int).last() == entries@[i as int]);
            }
            let e = &entries[i];
            if e.type_ == ContextType::File || e.type_ == ContextType::FileStructure {
                file_count = file_count + 1;
            } else if e.type_ == ContextType::Symbol {
                symbol_count = symbol_count + 1;
            }
            match &e.workspace_id {
                Some(w) => {
                    let ghost pre = workspace_ids@;
                    if !contains_string(&workspace_ids, w) {
                        workspace_ids.push(w.clone());
                        proof {
                            assert(workspace_ids@.map_values(|x: String| x@) =~= pre.map_values(
                                |x: String| x@).push(w@));
                        }
                    }
                }
                None => {}
            }
            match &e.content {
                ContextContent::File(f) => {
                    let ghost pre = languages@;
                    if !contains_string(&languages, &f.language) {
                        languages.push(f.language.clone());
                        proof {
                            assert(languages@.map_values(|x: String| x@) =~= pre.map_values(
                                |x: String| x@).push(f.language@));
                        }
                    }
                }
                _ => {}
            }
            i = i + 1;
        }
        proof {
            assert(entries@.take(entries@.len() as int) =~= entries@);
        }
        ContextSummary { file_count, symbol_count, workspace_ids, languages }
    }
}

/// Does the vector hold a string with this text?
#[verifier::loop_isolation(false)]
fn contains_string(v: &Vec<String>, w: &String) -> (r: bool)
    ensures
        r == v@.map_values(|x: String| x@).contains(w@),
{
    let ghost m = v@.map_values(|x: String| x@);
    let mut i: usize = 0;
    while i < v.len()
        invariant
            i <= v@.len(),
            forall|d: int| 0 <= d < i ==> m[d] != w@,
        decreases v@.len() - i,
    {
        if v[i] == *w {
            proof {
                assert(m[i as int] == w@);
            }
            return true;
        }
        i = i + 1;
    }
    proof {
        if m.contains(w@) {
            let d = choose|d: int| 0 <= d < m.len() && m[d] == w@;
        }
    }
    false
}

/// An id under the IDE namespace: the given prefix, then the file path.
fn ide_id(prefix: &str, path: &str) -> (r: String)
    ensures
        r@ == prefix@ + path@,
{
    let mut cs = crate::json::str_to_chars(prefix);
    let mut pc = crate::json::str_to_chars(path);
    cs.append(&mut pc);
    proof {
        assert(cs@ =~= prefix@ + path@);
    }
    crate::json::string_from_chars(&cs)
}

/// The entry an IDE's current-file report becomes: keyed by the file
/// path, priority 4, with a flat token estimate.
pub fn entry_from_ide_file(context: IdeFileContext, now: u64) -> (r: ContextEntry)
    ensures
        r.id@ == "ide:current_file:"@ + context.file_path@,
        r.source == ContextSource::Ide,
        r.type_ == ContextType::File,
        r.priority == 4,
        r.content == ContextContent::File(
            FileContent {
                path: context.file_path,
                content: context.content,
                language: context.language,
            },
        ),
        r.workspace_id == Some(context.workspace_id),
        r.created_at == now,
        r.expires_at is None,
        r.estimated_tokens == 500,
{
    let id = ide_id("ide:current_file:", context.file_path.as_str());
    ContextEntry {
        id,
        source: ContextSource::Ide,
        type_: ContextType::File,
        priority: 4,
        content: ContextContent::File(
            FileContent {
                path: context.file_path,
                content: context.content,
                language: context.language,
            },
        ),
        workspace_id: Some(context.workspace_id),
        created_at: now,
        expires_at: None,
        estimated_tokens: 500,
    }
}

/// The entry an IDE's file-structure report becomes: priority 3, with a
/// flat token estimate.
pub fn entry_from_ide_structure(structure: IdeFileStructure, now: u64) -> (r: ContextEntry)
    ensures
        r.id@ == "ide:structure:"@ + structure.file_path@,
        r.source == ContextSource::Ide,
        r.type_ == ContextType::FileStructure,
        r.priority == 3,
        r.content == ContextContent::FileStructure(
            FileStructureContent {
                path: structure.file_path,
                symbols: structure.symbols,
                summary: None,
            },
        ),
        r.workspace_id == Some(structure.workspace_id),
        r.created_at == now,
        r.expires_at is None,
        r.estimated_tokens == 100,
{
    let id = ide_id("ide:structure:", structure.file_path.as_str());
    ContextEntry {
        id,
        source: ContextSource::Ide,
        type_: ContextType::FileStructure,
        priority: 3,
        content: ContextContent::FileStructure(
            FileStructureContent {
                path: structure.file_path,
                symbols: structure.symbols,
                summary: None,
            },
        ),
        workspace_id: Some(structure.workspace_id),
        created_at: now,
        expires_at: None,
        estimated_tokens: 100,
    }
}

/// The entry an IDE's diagnostics report becomes: priority 2, with a
/// flat token estimate.
pub fn entry_from_ide_diagnostics(diagnostics: IdeDiagnostics, now: u64) -> (r: ContextEntry)
    ensures
        r.id@ == "ide:diagnostics:"@ + diagnostics.file_path@,
        r.source == ContextSource::Diagnostics,
        r.type_ == ContextType::Diagnostics,
        r.priority == 2,
        r.content == ContextContent::Diagnostics(
            DiagnosticsContent {
                path: Some(diagnostics.file_path),
                items: diagnostics.diagnostics,
                summary: None,
            },
        ),
        r.workspace_id == Some(diagnostics.workspace_id),
        r.created_at == now,
        r.expires_at is None,
        r.estimated_tokens == 50,
{
    let id = ide_id("ide:diagnostics:", diagnostics.file_path.as_str());
    ContextEntry {
        id,
        source: ContextSource::Diagnostics,
        type_: ContextType::Diagnostics,
        priority: 2,
        content: ContextContent::Diagnostics(
            DiagnosticsContent {
                path: Some(diagnostics.file_path),
                items: diagnostics.diagnostics,
                summary: None,
            },
        ),
        workspace_id: Some(diagnostics.workspace_id),
        created_at: now,
        expires_at: None,
        estimated_tokens: 50,
    }
}

} // verus!

//! The context memory store and its query.

use polaris_core::context::{entry_from_ide_diagnostics, entry_from_ide_file,
    entry_from_ide_structure, ContextContent, ContextEntry, ContextMemoryStore,
    ContextQueryRequest, ContextSource, ContextType, FileContent, IdeDiagnostics,
    IdeFileContext, IdeFileStructure};

fn s(text: &str) -> String {
    text.to_owned()
}

fn entry(id: &str, priority: u8, tokens: u32, workspace: Option<&str>, lang: &str) -> ContextEntry {
    ContextEntry {
        id: s(id),
        source: ContextSource::Ide,
        type_: ContextType::File,
        priority,
        content: ContextContent::File(FileContent {
            path: s("x"),
            content: s("body"),
            language: s(lang),
        }),
        workspace_id: workspace.map(s),
        created_at: 1,
        expires_at: None,
        estimated_tokens: tokens,
    }
}

fn request() -> ContextQueryRequest {
    ContextQueryRequest {
        workspace_id: None,
        types: None,
        sources: None,
        max_tokens: None,
        min_priority: None,
        current_file: None,
        mentioned_files: None,
    }
}

#[test]
fn upsert_get_remove_clear() {
    let mut store = ContextMemoryStore::new();
    store.upsert(entry("a", 1, 10, None, "rust"));
    store.upsert(entry("b", 2, 10, None, "rust"));
    assert_eq!(store.get("a").unwrap().priority, 1);
    assert_eq!(store.get("c").map(|e| e.priority), None);
    store.upsert(entry("a", 5, 10, None, "rust"));
    assert_eq!(store.get("a").unwrap().priority, 5);
    assert_eq!(store.get_all().len(), 2);
    let removed = store.remove("a").unwrap();
    assert_eq!(removed.priority, 5);
    assert!(store.remove("a").is_none());
    store.clear();
    assert!(store.get_all().is_empty());
}

#[test]
fn query_orders_by_priority_and_keeps_ties_stable() {
    let mut store = ContextMemoryStore::new();
    store.upsert(entry("low", 1, 10, None, "rust"));
    store.upsert(entry("high", 5, 10, None, "rust"));
    store.upsert(entry("mid-a", 3, 10, None, "rust"));
    store.upsert(entry("mid-b", 3, 10, None, "rust"));
    let r = store.query(&request());
    let ids: Vec<&str> = r.entries.iter().map(|e| e.id.as_str()).collect();
    assert_eq!(ids, vec!["high", "mid-a", "mid-b", "low"]);
    assert_eq!(r.total_tokens, 40);
}

#[test]
fn query_filters_by_workspace_type_and_priority() {
    let mut store = ContextMemoryStore::new();
    store.upsert(entry("w1", 4, 10, Some("ws-1"), "rust"));
    store.upsert(entry("w2", 4, 10, Some("ws-2"), "rust"));
    store.upsert(entry("nows", 4, 10, None, "rust"));
    let mut q = request();
    q.workspace_id = Some(s("ws-1"));
    let r = store.query(&q);
    assert_eq!(r.entries.len(), 1);
    assert_eq!(r.entries[0].id, s("w1"));

    let mut q = request();
    q.min_priority = Some(5);
    assert!(store.query(&q).entries.is_empty());

    let mut q = request();
    q.types = Some(vec![ContextType::Symbol]);
    assert!(store.query(&q).entries.is_empty());
    let mut q = request();
    q.types = Some(vec![ContextType::File, ContextType::Symbol]);
    assert_eq!(store.query(&q).entries.len(), 3);
}

#[test]
fn query_budget_stops_at_the_first_overrun() {
    let mut store = ContextMemoryStore::new();
    store.upsert(entry("a", 5, 4000, None, "rust"));
    store.upsert(entry("b", 4, 3000, None, "rust"));
    store.upsert(entry("c", 3, 2000, None, "rust"));
    let r = store.query(&request());
    // The default budget is 8000: a and b fit, c overruns and is left
    // out; the total counts the returned entries alone.
    let ids: Vec<&str> = r.entries.iter().map(|e| e.id.as_str()).collect();
    assert_eq!(ids, vec!["a", "b"]);
    assert_eq!(r.total_tokens, 7000);
}

#[test]
fn query_explicit_budget() {
    let mut store = ContextMemoryStore::new();
    store.upsert(entry("a", 5, 100, None, "rust"));
    store.upsert(entry("b", 4, 100, None, "rust"));
    let mut q = request();
    q.max_tokens = Some(150);
    let r = store.query(&q);
    assert_eq!(r.entries.len(), 1);
    assert_eq!(r.entries[0].id, s("a"));
    assert_eq!(r.total_tokens, 100);
}

#[test]
fn summary_counts_and_dedups() {
    let mut store = ContextMemoryStore::new();
    store.upsert(entry("a", 5, 10, Some("ws"), "rust"));
    store.upsert(entry("b", 4, 10, Some("ws"), "toml"));
    store.upsert(entry("c", 3, 10, Some("ws2"), "rust"));
    let r = store.query(&request());
    assert_eq!(r.summary.file_count, 3);
    assert_eq!(r.summary.symbol_count, 0);
    assert_eq!(r.summary.workspace_ids, vec![s("ws"), s("ws2")]);
    assert_eq!(r.summary.languages, vec![s("rust"), s("toml")]);
}

#[test]
fn ide_reports_become_entries() {
    let file = entry_from_ide_file(
        IdeFileContext {
            workspace_id: s("ws"),
            file_path: s("src/x.rs"),
            content: s("fn x() {}"),
            language: s("rust"),
            cursor_offset: 3,
            selection: None,
        },
        77,
    );
    assert_eq!(file.id, s("ide:current_file:src/x.rs"));
    assert_eq!(file.priority, 4);
    assert_eq!(file.estimated_tokens, 500);
    assert_eq!(file.created_at, 77);
    assert_eq!(file.workspace_id, Some(s("ws")));

    let structure = entry_from_ide_structure(
        IdeFileStructure { workspace_id: s("ws"), file_path: s("a.rs"), symbols: vec![] },
        1,
    );
    assert_eq!(structure.id, s("ide:structure:a.rs"));
    assert_eq!(structure.priority, 3);
    assert_eq!(structure.type_, ContextType::FileStructure);

    let diags = entry_from_ide_diagnostics(
        IdeDiagnostics { workspace_id: s("ws"), file_path: s("a.rs"), diagnostics: vec![] },
        1,
    );
    assert_eq!(diags.id, s("ide:diagnostics:a.rs"));
    assert_eq!(diags.priority, 2);
    assert_eq!(diags.source, ContextSource::Diagnostics);
    assert_eq!(diags.estimated_tokens, 50);
}

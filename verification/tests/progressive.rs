use crabclaw::progressive::ProgressiveToolView;
use crabclaw::registry::ToolRegistry;

fn test_registry() -> ToolRegistry {
    let mut registry = ToolRegistry::new();
    registry.register("shell.exec", "Execute shell commands", "builtin");
    registry.register("file.read", "Read file contents", "builtin");
    registry.register("file.write", "Write files", "builtin");
    registry.register("file.list", "List directory contents", "builtin");
    registry
}

#[test]
fn compact_block_contains_all_tools() {
    let view = ProgressiveToolView::new(test_registry());
    let block = view.compact_block();
    assert!(block.contains("<tool_view>"));
    assert!(block.contains("shell.exec"));
    assert!(block.contains("file.read"));
    assert!(block.contains("file.write"));
    assert!(block.contains("file.list"));
    assert!(block.contains("</tool_view>"));
}

#[test]
fn note_hint_expands_one_tool() {
    let mut view = ProgressiveToolView::new(test_registry());
    assert!(view.note_hint("file.write"));
    assert_eq!(view.expanded_count(), 1);
}

#[test]
fn note_hint_case_insensitive() {
    let mut view = ProgressiveToolView::new(test_registry());
    assert!(view.note_hint("FILE.WRITE"));
    assert_eq!(view.expanded_count(), 1);
}

#[test]
fn note_hint_unknown_tool_returns_false() {
    let mut view = ProgressiveToolView::new(test_registry());
    assert!(!view.note_hint("unknown.tool"));
    assert_eq!(view.expanded_count(), 0);
}

#[test]
fn note_hint_duplicate_returns_false() {
    let mut view = ProgressiveToolView::new(test_registry());
    assert!(view.note_hint("file.write"));
    assert!(!view.note_hint("file.write"));
    assert_eq!(view.expanded_count(), 1);
}

#[test]
fn activate_hints_detects_dollar_patterns() {
    let mut view = ProgressiveToolView::new(test_registry());
    let expanded = view.activate_hints("I need to use $file.write and $shell.exec");
    assert_eq!(expanded.len(), 2);
    assert!(expanded.contains(&"file.write".to_string()));
    assert!(expanded.contains(&"shell.exec".to_string()));
    assert_eq!(view.expanded_count(), 2);
}

#[test]
fn activate_hints_ignores_unknown_tools() {
    let mut view = ProgressiveToolView::new(test_registry());
    let expanded = view.activate_hints("$unknown.tool $file.read");
    assert_eq!(expanded.len(), 1);
    assert!(expanded.contains(&"file.read".to_string()));
}

#[test]
fn note_selected_ignores_unregistered_tool() {
    let mut view = ProgressiveToolView::new(test_registry());
    view.note_selected("shell.exec");
    assert_eq!(view.expanded_count(), 1);
    view.note_selected("not.registered");
    assert_eq!(view.expanded_count(), 1);
}

#[test]
fn reset_clears_expanded_count() {
    let mut view = ProgressiveToolView::new(test_registry());
    view.note_hint("file.write");
    view.note_hint("shell.exec");
    assert_eq!(view.expanded_count(), 2);
    view.reset();
    assert_eq!(view.expanded_count(), 0);
}

#[test]
fn tool_definitions_returns_all_when_none_expanded() {
    let view = ProgressiveToolView::new(test_registry());
    let defs = view.tool_definitions();
    assert_eq!(defs.len(), 4);
}

#[test]
fn tool_definitions_returns_only_expanded() {
    let mut view = ProgressiveToolView::new(test_registry());
    view.note_selected("file.write");
    let defs = view.tool_definitions();
    assert_eq!(defs.len(), 1);
    assert_eq!(defs[0].function.name, "file.write");
}

#[test]
fn all_tools_returns_names() {
    let view = ProgressiveToolView::new(test_registry());
    let names = view.all_tools();
    assert_eq!(names.len(), 4);
    assert!(names.contains(&"shell.exec".to_string()));
}

#[test]
fn activate_hints_adjacent_and_repeated_hints() {
    let mut view = ProgressiveToolView::new(test_registry());
    let expanded = view.activate_hints("$file.read$FILE.READ $ $file.list, $$shell.exec");
    assert_eq!(expanded, vec!["file.read", "file.list", "shell.exec"]);
    assert_eq!(view.expanded_count(), 3);
}

#[test]
fn compact_block_exact_format() {
    let mut reg = ToolRegistry::new();
    reg.register("a", "A tool", "builtin");
    let view = ProgressiveToolView::new(reg);
    assert_eq!(view.compact_block(), "<tool_view>\n  - a: A tool [builtin]\n</tool_view>");
}

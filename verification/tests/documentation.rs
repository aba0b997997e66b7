//! The static command documentation and the reference generators.
use escpos2mqtt::program::doc_macros::{get_registered_commands, register_command};
use escpos2mqtt::program::documentation::{
    all_commands, generate_markdown, generate_text, CommandCategory, CommandDoc,
};

#[test]
fn test_command_doc_structure() {
    let doc = CommandDoc {
        name: "example",
        syntax: "example <arg>",
        description: "An example command",
        category: CommandCategory::Text,
        examples: vec!["example test", "example foo"],
    };

    assert_eq!(doc.name, "example");
    assert_eq!(doc.syntax, "example <arg>");
    assert_eq!(doc.description, "An example command");
    assert_eq!(doc.category, CommandCategory::Text);
    assert_eq!(doc.examples.len(), 2);
    assert_eq!(doc.examples[0], "example test");
}

#[test]
fn test_registry_functions_exist() {
    let registry: Vec<CommandDoc> = Vec::new();
    let commands = get_registered_commands(&registry);
    let _ = commands.len();
}

#[test]
fn test_documentation_registered() {
    let mut registry: Vec<CommandDoc> = Vec::new();
    register_command(
        &mut registry,
        CommandDoc {
            name: "foo",
            syntax: "foo",
            description: "Test foo command",
            category: CommandCategory::Special,
            examples: vec!["foo"],
        },
    );
    register_command(
        &mut registry,
        CommandDoc {
            name: "bar",
            syntax: "bar",
            description: "Test bar command",
            category: CommandCategory::Special,
            examples: vec!["bar"],
        },
    );

    let commands = get_registered_commands(&registry);
    assert!(!commands.is_empty(), "No commands registered");

    let has_foo = commands.iter().any(|cmd| cmd.name == "foo");
    let has_bar = commands.iter().any(|cmd| cmd.name == "bar");
    assert!(has_foo || has_bar, "Test commands not found in registry");
}

#[test]
fn test_all_commands_not_empty() {
    let commands = all_commands();
    assert!(!commands.is_empty(), "No commands were registered. Make sure parser is loaded.");
}

#[test]
fn test_generate_markdown() {
    let markdown = generate_markdown();
    assert!(markdown.contains("# ESC/POS DSL Reference"));
    assert!(markdown.contains("write"));
    assert!(markdown.contains("bold"));
    assert!(markdown.contains("qr_code"));
}

#[test]
fn test_generate_text() {
    let text = generate_text();
    assert!(text.contains("ESC/POS DSL COMMAND REFERENCE"));
    assert!(text.contains("WRITE"));
    assert!(text.contains("BOLD"));
}

#[test]
fn test_all_categories_present() {
    let commands = all_commands();
    let categories: std::collections::HashSet<_> = commands.iter().map(|cmd| &cmd.category).collect();

    assert!(categories.contains(&CommandCategory::Text));
    assert!(categories.contains(&CommandCategory::Formatting));
    assert!(categories.contains(&CommandCategory::Barcodes));
    assert!(categories.contains(&CommandCategory::Layout));
    assert!(categories.contains(&CommandCategory::Special));
}

#[test]
fn markdown_lists_every_command_exactly() {
    let markdown = generate_markdown();
    for doc in all_commands() {
        assert!(markdown.contains(&format!("### `{}`", doc.name)));
        assert!(markdown.contains(&format!("**Syntax:** `{}`", doc.syntax)));
    }
    assert!(markdown.contains("## Complete Example"));
}

#[test]
fn text_reference_uppercases_names() {
    let text = generate_text();
    assert!(text.contains("DOUBLE_STRIKE"));
    assert!(text.contains("  Syntax: size <width>,<height>"));
    assert!(text.contains("    feed 10"));
}

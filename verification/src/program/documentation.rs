//! Command documentation for the printing DSL, kept as one static table.
//!
//! The table is plain data, independent of the parser's control flow; the
//! parser is checked against it by the test suite, never the other way
//! around.
use vstd::prelude::*;

use crate::text::push_char;

verus! {

/// Documentation for one DSL command.
#[derive(Debug, Clone)]
pub struct CommandDoc {
    pub name: &'static str,
    pub syntax: &'static str,
    pub description: &'static str,
    pub examples: Vec<&'static str>,
    pub category: CommandCategory,
}

/// Mathematical model of a documentation record.
#[verifier::ext_equal]
pub struct CommandDocModel {
    pub name: Seq<char>,
    pub syntax: Seq<char>,
    pub description: Seq<char>,
    pub examples: Seq<Seq<char>>,
    pub category: CommandCategory,
}

impl View for CommandDoc {
    type V = CommandDocModel;

    open spec fn view(&self) -> CommandDocModel {
        CommandDocModel {
            name: self.name@,
            syntax: self.syntax@,
            description: self.description@,
            examples: self.examples@.map_values(|e: &'static str| e@),
            category: self.category,
        }
    }
}

impl CommandDoc {
    /// A field-for-field copy of this record.
    pub fn duplicate(&self) -> (r: CommandDoc)
        ensures
            r@ == self@,
    {
        let mut examples: Vec<&'static str> = Vec::new();
        let mut i: usize = 0;
        while i < self.examples.len()
            invariant
                i <= self.examples@.len(),
                examples@ == self.examples@.take(i as int),
            decreases self.examples@.len() - i,
        {
            examples.push(self.examples[i]);
            proof {
                assert(examples@ =~= self.examples@.take(i + 1 as int));
            }
            i += 1;
        }
        proof {
            assert(self.examples@.take(self.examples@.len() as int) =~= self.examples@);
        }
        let r = CommandDoc {
            name: self.name,
            syntax: self.syntax,
            description: self.description,
            examples,
            category: self.category,
        };
        proof {
            assert(r@.examples =~= self@.examples);
        }
        r
    }
}

/// The models of a sequence of documentation records.
pub open spec fn docs_view(docs: Seq<CommandDoc>) -> Seq<CommandDocModel> {
    docs.map_values(|d: CommandDoc| d@)
}

/// The group a command is documented under.
#[derive(Debug, Clone, Copy, PartialEq, Eq, Structural, Hash)]
pub enum CommandCategory {
    Text,
    Formatting,
    Barcodes,
    Layout,
    Special,
}

impl CommandCategory {
    /// The human-readable heading for this category.
    pub fn name(&self) -> (r: &'static str)
        ensures
            r@ == category_heading(*self),
    {
        match self {
            CommandCategory::Text => "Text Output",
            CommandCategory::Formatting => "Text Formatting",
            CommandCategory::Barcodes => "Barcodes & QR Codes",
            CommandCategory::Layout => "Layout & Spacing",
            CommandCategory::Special => "Special Commands",
        }
    }
}

/// The heading shown for each category.
pub open spec fn category_heading(c: CommandCategory) -> Seq<char> {
    match c {
        CommandCategory::Text => "Text Output"@,
        CommandCategory::Formatting => "Text Formatting"@,
        CommandCategory::Barcodes => "Barcodes & QR Codes"@,
        CommandCategory::Layout => "Layout & Spacing"@,
        CommandCategory::Special => "Special Commands"@,
    }
}


/// The full documented command set, as models.
pub open spec fn all_commands_spec() -> Seq<CommandDocModel> {
    seq![
        CommandDocModel {
            name: "write"@,
            syntax: "write \"<text>\""@,
            description: "Outputs text to the printer without a line break at the end"@,
            examples: seq!["write \"Hello World\""@, "write \"Price: $19.99\""@],
            category: CommandCategory::Text,
        },
        CommandDocModel {
            name: "writeln"@,
            syntax: "writeln \"<text>\""@,
            description: "Outputs text to the printer followed by a line break"@,
            examples: seq!["writeln \"Hello World\""@, "writeln \"Order #12345\""@],
            category: CommandCategory::Text,
        },
        CommandDocModel {
            name: "bold"@,
            syntax: "bold <true|false>"@,
            description: "Enables or disables bold text"@,
            examples: seq!["bold true"@, "bold false"@],
            category: CommandCategory::Formatting,
        },
        CommandDocModel {
            name: "underline"@,
            syntax: "underline <none|single|double>"@,
            description: "Sets the underline mode for text"@,
            examples: seq!["underline none"@, "underline single"@, "underline double"@],
            category: CommandCategory::Formatting,
        },
        CommandDocModel {
            name: "double_strike"@,
            syntax: "double_strike <true|false>"@,
            description: "Enables or disables double-strike for text"@,
            examples: seq!["double_strike true"@, "double_strike false"@],
            category: CommandCategory::Formatting,
        },
        CommandDocModel {
            name: "font"@,
            syntax: "font <a|b|c>"@,
            description: "Sets the font type. Available fonts depend on printer model and might fallback to another font if unavailable."@,
            examples: seq!["font a"@, "font b"@, "font c"@],
            category: CommandCategory::Formatting,
        },
        CommandDocModel {
            name: "flip"@,
            syntax: "flip <true|false>"@,
            description: "Flips text 180 degrees"@,
            examples: seq!["flip true"@, "flip false"@],
            category: CommandCategory::Formatting,
        },
        CommandDocModel {
            name: "justify"@,
            syntax: "justify <left|center|right>"@,
            description: "Sets text justification/alignment"@,
            examples: seq!["justify left"@, "justify center"@, "justify right"@],
            category: CommandCategory::Layout,
        },
        CommandDocModel {
            name: "reverse"@,
            syntax: "reverse <true|false>"@,
            description: "Enables or disables inverted text colors (white text on black background)"@,
            examples: seq!["reverse true"@, "reverse false"@],
            category: CommandCategory::Formatting,
        },
        CommandDocModel {
            name: "feed"@,
            syntax: "feed <lines>"@,
            description: "Feeds paper forward by the specified number of lines"@,
            examples: seq!["feed 1"@, "feed 3"@, "feed 10"@],
            category: CommandCategory::Layout,
        },
        CommandDocModel {
            name: "feed"@,
            syntax: "feed"@,
            description: "Feeds paper forward by 1 line (default)"@,
            examples: seq!["feed"@],
            category: CommandCategory::Layout,
        },
        CommandDocModel {
            name: "ean13"@,
            syntax: "ean13 <12-13 digits>"@,
            description: "Prints an EAN-13 barcode (12 or 13 digits)"@,
            examples: seq!["ean13 1234567890123"@, "ean13 123456789012"@],
            category: CommandCategory::Barcodes,
        },
        CommandDocModel {
            name: "ean8"@,
            syntax: "ean8 <7-8 digits>"@,
            description: "Prints an EAN-8 barcode (7 or 8 digits)"@,
            examples: seq!["ean8 12345678"@, "ean8 1234567"@],
            category: CommandCategory::Barcodes,
        },
        CommandDocModel {
            name: "qr_code"@,
            syntax: "qr_code \"<data>\""@,
            description: "Prints a QR code with the specified data"@,
            examples: seq!["qr_code \"https://example.com\""@, "qr_code \"Hello World\""@],
            category: CommandCategory::Barcodes,
        },
        CommandDocModel {
            name: "size"@,
            syntax: "size <width>,<height>"@,
            description: "Sets character size multiplier (1-8 for both width and height)"@,
            examples: seq!["size 1,1"@, "size 2,2"@, "size 3,1"@],
            category: CommandCategory::Formatting,
        },
        CommandDocModel {
            name: "reset_size"@,
            syntax: "reset_size"@,
            description: "Resets text size to default (1,1)"@,
            examples: seq!["reset_size"@],
            category: CommandCategory::Formatting,
        },
        CommandDocModel {
            name: "sudoku"@,
            syntax: "sudoku"@,
            description: "Generates and prints a random Sudoku puzzle"@,
            examples: seq!["sudoku"@],
            category: CommandCategory::Special,
        },
        CommandDocModel {
            name: "minicrossword"@,
            syntax: "minicrossword"@,
            description: "Generates and prints a mini crossword puzzle"@,
            examples: seq!["minicrossword"@],
            category: CommandCategory::Special,
        },
        CommandDocModel {
            name: "cut"@,
            syntax: "cut"@,
            description: "Cuts the paper (if printer has auto-cutter)"@,
            examples: seq!["cut"@],
            category: CommandCategory::Special,
        },
        CommandDocModel {
            name: "todo"@,
            syntax: "todo \"<task>\""@,
            description: "Adds a line rendered as a todo item"@,
            examples: seq!["todo \"Buy groceries\""@, "todo \"Call dentist\""@],
            category: CommandCategory::Special,
        },
    ]
}

/// The full documented command set: one record per command form, in the
/// order the parser tries them.
pub fn all_commands() -> (r: Vec<CommandDoc>)
    ensures
        docs_view(r@) == all_commands_spec(),
{
    let mut r: Vec<CommandDoc> = Vec::new();
    r.push(CommandDoc {
        name: "write",
        syntax: "write \"<text>\"",
        description: "Outputs text to the printer without a line break at the end",
        examples: vec!["write \"Hello World\"", "write \"Price: $19.99\""],
        category: CommandCategory::Text,
    });
    r.push(CommandDoc {
        name: "writeln",
        syntax: "writeln \"<text>\"",
        description: "Outputs text to the printer followed by a line break",
        examples: vec!["writeln \"Hello World\"", "writeln \"Order #12345\""],
        category: CommandCategory::Text,
    });
    r.push(CommandDoc {
        name: "bold",
        syntax: "bold <true|false>",
        description: "Enables or disables bold text",
        examples: vec!["bold true", "bold false"],
        category: CommandCategory::Formatting,
    });
    r.push(CommandDoc {
        name: "underline",
        syntax: "underline <none|single|double>",
        description: "Sets the underline mode for text",
        examples: vec!["underline none", "underline single", "underline double"],
        category: CommandCategory::Formatting,
    });
    r.push(CommandDoc {
        name: "double_strike",
        syntax: "double_strike <true|false>",
        description: "Enables or disables double-strike for text",
        examples: vec!["double_strike true", "double_strike false"],
        category: CommandCategory::Formatting,
    });
    r.push(CommandDoc {
        name: "font",
        syntax: "font <a|b|c>",
        description: "Sets the font type. Available fonts depend on printer model and might fallback to another font if unavailable.",
        examples: vec!["font a", "font b", "font c"],
        category: CommandCategory::Formatting,
    });
    r.push(CommandDoc {
        name: "flip",
        syntax: "flip <true|false>",
        description: "Flips text 180 degrees",
        examples: vec!["flip true", "flip false"],
        category: CommandCategory::Formatting,
    });
    r.push(CommandDoc {
        name: "justify",
        syntax: "justify <left|center|right>",
        description: "Sets text justification/alignment",
        examples: vec!["justify left", "justify center", "justify right"],
        category: CommandCategory::Layout,
    });
    r.push(CommandDoc {
        name: "reverse",
        syntax: "reverse <true|false>",
        description: "Enables or disables inverted text colors (white text on black background)",
        examples: vec!["reverse true", "reverse false"],
        category: CommandCategory::Formatting,
    });
    r.push(CommandDoc {
        name: "feed",
        syntax: "feed <lines>",
        description: "Feeds paper forward by the specified number of lines",
        examples: vec!["feed 1", "feed 3", "feed 10"],
        category: CommandCategory::Layout,
    });
    r.push(CommandDoc {
        name: "feed",
        syntax: "feed",
        description: "Feeds paper forward by 1 line (default)",
        examples: vec!["feed"],
        category: CommandCategory::Layout,
    });
    r.push(CommandDoc {
        name: "ean13",
        syntax: "ean13 <12-13 digits>",
        description: "Prints an EAN-13 barcode (12 or 13 digits)",
        examples: vec!["ean13 1234567890123", "ean13 123456789012"],
        category: CommandCategory::Barcodes,
    });
    r.push(CommandDoc {
        name: "ean8",
        syntax: "ean8 <7-8 digits>",
        description: "Prints an EAN-8 barcode (7 or 8 digits)",
        examples: vec!["ean8 12345678", "ean8 1234567"],
        category: CommandCategory::Barcodes,
    });
    r.push(CommandDoc {
        name: "qr_code",
        syntax: "qr_code \"<data>\"",
        description: "Prints a QR code with the specified data",
        examples: vec!["qr_code \"https://example.com\"", "qr_code \"Hello World\""],
        category: CommandCategory::Barcodes,
    });
    r.push(CommandDoc {
        name: "size",
        syntax: "size <width>,<height>",
        description: "Sets character size multiplier (1-8 for both width and height)",
        examples: vec!["size 1,1", "size 2,2", "size 3,1"],
        category: CommandCategory::Formatting,
    });
    r.push(CommandDoc {
        name: "reset_size",
        syntax: "reset_size",
        description: "Resets text size to default (1,1)",
        examples: vec!["reset_size"],
        category: CommandCategory::Formatting,
    });
    r.push(CommandDoc {
        name: "sudoku",
        syntax: "sudoku",
        description: "Generates and prints a random Sudoku puzzle",
        examples: vec!["sudoku"],
        category: CommandCategory::Special,
    });
    r.push(CommandDoc {
        name: "minicrossword",
        syntax: "minicrossword",
        description: "Generates and prints a mini crossword puzzle",
        examples: vec!["minicrossword"],
        category: CommandCategory::Special,
    });
    r.push(CommandDoc {
        name: "cut",
        syntax: "cut",
        description: "Cuts the paper (if printer has auto-cutter)",
        examples: vec!["cut"],
        category: CommandCategory::Special,
    });
    r.push(CommandDoc {
        name: "todo",
        syntax: "todo \"<task>\"",
        description: "Adds a line rendered as a todo item",
        examples: vec!["todo \"Buy groceries\"", "todo \"Call dentist\""],
        category: CommandCategory::Special,
    });
    proof {
        assert(r@.len() == 20);
        assert(docs_view(r@).len() == 20);
        assert(docs_view(r@) =~~= all_commands_spec());
    }
    r
}


/// The fixed opening of the markdown reference.
pub open spec fn markdown_header() -> Seq<char> {
    "# ESC/POS DSL Reference\n\nThis document describes the Domain Specific Language (DSL) used to send printing commands to ESC/POS-compatible printers.\n\n## Overview\n\nThe DSL consists of commands that are executed sequentially. Each command must be on its own line.\nEmpty lines are ignored. String arguments must be enclosed in double quotes.\n\n"@
}

/// The worked example that closes the markdown reference.
pub open spec fn markdown_trailer() -> Seq<char> {
    "## Complete Example\n\n```\njustify center\nbold true\nsize 2,2\nwriteln \"RECEIPT\"\nreset_size\nbold false\nfeed 1\njustify left\nwriteln \"Item 1          $10.00\"\nwriteln \"Item 2          $15.00\"\nunderline single\nwriteln \"Total:          $25.00\"\nunderline none\nfeed 2\njustify center\nqr_code \"https://example.com/receipt/12345\"\nfeed 2\ncut\n```\n"@
}

/// The example lines of one command, each on its own line, from `i` on.
pub open spec fn md_examples(ex: Seq<Seq<char>>, i: int) -> Seq<char>
    decreases ex.len() - i,
{
    if i < 0 || i >= ex.len() {
        Seq::empty()
    } else {
        ex[i] + "\n"@ + md_examples(ex, i + 1)
    }
}

/// The examples section of one command, absent when it has none.
pub open spec fn md_example_block(ex: Seq<Seq<char>>) -> Seq<char> {
    if ex.len() == 0 {
        Seq::empty()
    } else {
        "**Examples:**\n\n```\n"@ + md_examples(ex, 0) + "```\n\n"@
    }
}

/// One command's markdown section.
pub open spec fn md_doc(d: CommandDocModel) -> Seq<char> {
    "### `"@ + d.name + "`\n\n**Syntax:** `"@ + d.syntax + "`\n\n"@ + d.description + "\n\n"@
        + md_example_block(d.examples)
}

/// The sections of every command of one category, in table order, from `i`
/// on.
pub open spec fn md_category_docs(docs: Seq<CommandDocModel>, cat: CommandCategory, i: int) -> Seq<
    char,
>
    decreases docs.len() - i,
{
    if i < 0 || i >= docs.len() {
        Seq::empty()
    } else {
        (if docs[i].category == cat {
            md_doc(docs[i])
        } else {
            Seq::empty()
        }) + md_category_docs(docs, cat, i + 1)
    }
}

/// One category's heading and its commands.
pub open spec fn md_category_section(docs: Seq<CommandDocModel>, cat: CommandCategory) -> Seq<
    char,
> {
    "## "@ + category_heading(cat) + "\n\n"@ + md_category_docs(docs, cat, 0)
}

/// The whole markdown reference for a command table.
pub open spec fn markdown_spec(docs: Seq<CommandDocModel>) -> Seq<char> {
    markdown_header() + md_category_section(docs, CommandCategory::Text) + md_category_section(
        docs,
        CommandCategory::Formatting,
    ) + md_category_section(docs, CommandCategory::Layout) + md_category_section(
        docs,
        CommandCategory::Barcodes,
    ) + md_category_section(docs, CommandCategory::Special) + markdown_trailer()
}

/// Append a literal piece.
fn app(out: &mut String, s: &str)
    ensures
        final(out)@ == old(out)@ + s@,
{
    out.append(s);
}

/// Append one command's markdown section.
#[verifier::loop_isolation(false)]
fn append_md_doc(out: &mut String, d: &CommandDoc)
    ensures
        final(out)@ == old(out)@ + md_doc(d@),
{
    app(out, "### `");
    app(out, d.name);
    app(out, "`\n\n**Syntax:** `");
    app(out, d.syntax);
    app(out, "`\n\n");
    app(out, d.description);
    app(out, "\n\n");
    let ghost ex = d@.examples;
    proof {
        assert(ex.len() == d.examples@.len());
    }
    if d.examples.len() > 0 {
        app(out, "**Examples:**\n\n```\n");
        let ghost base = out@;
        let n = d.examples.len();
        let mut i: usize = 0;
        while i < n
            invariant
                i <= n,
                n == d.examples@.len(),
                ex == d@.examples,
                base + md_examples(ex, 0) == out@ + md_examples(ex, i as int),
            decreases n - i,
        {
            let ghost before = out@;
            app(out, d.examples[i]);
            app(out, "\n");
            proof {
                assert(ex[i as int] == d.examples@[i as int]@);
                assert(out@ =~= before + (ex[i as int] + "\n"@));
                assert(before + (ex[i as int] + "\n"@ + md_examples(ex, i + 1 as int)) =~= (before
                    + (ex[i as int] + "\n"@)) + md_examples(ex, i + 1 as int));
            }
            i += 1;
        }
        proof {
            assert(md_examples(ex, n as int) =~= Seq::<char>::empty());
            assert(out@ + Seq::<char>::empty() =~= out@);
        }
        app(out, "```\n\n");
        proof {
            assert(out@ =~= old(out)@ + md_doc(d@));
        }
    } else {
        proof {
            assert(out@ =~= old(out)@ + md_doc(d@));
        }
    }
}

/// Append one category's heading and commands.
#[verifier::loop_isolation(false)]
fn append_md_category(out: &mut String, commands: &Vec<CommandDoc>, cat: CommandCategory)
    ensures
        final(out)@ == old(out)@ + md_category_section(docs_view(commands@), cat),
{
    let ghost docs = docs_view(commands@);
    proof {
        assert(docs.len() == commands@.len());
    }
    app(out, "## ");
    app(out, cat.name());
    app(out, "\n\n");
    let ghost base = out@;
    let n = commands.len();
    let mut i: usize = 0;
    while i < n
        invariant
            i <= n,
            n == commands@.len(),
            docs == docs_view(commands@),
            base + md_category_docs(docs, cat, 0) == out@ + md_category_docs(docs, cat, i as int),
        decreases n - i,
    {
        let ghost before = out@;
        proof {
            assert(docs[i as int] == commands@[i as int]@);
        }
        if commands[i].category == cat {
            append_md_doc(out, &commands[i]);
        }
        proof {
            assert(before + ((if docs[i as int].category == cat {
                md_doc(docs[i as int])
            } else {
                Seq::<char>::empty()
            }) + md_category_docs(docs, cat, i + 1 as int)) =~= out@ + md_category_docs(
                docs,
                cat,
                i + 1 as int,
            ));
        }
        i += 1;
    }
    proof {
        assert(md_category_docs(docs, cat, n as int) =~= Seq::<char>::empty());
        assert(out@ + Seq::<char>::empty() =~= out@);
        assert(out@ =~= old(out)@ + md_category_section(docs, cat));
    }
}

/// The markdown reference for a given command table.
pub fn generate_markdown_with_commands(commands: Vec<CommandDoc>) -> (r: String)
    ensures
        r@ == markdown_spec(docs_view(commands@)),
{
    let mut out = String::new();
    app(&mut out, "# ESC/POS DSL Reference\n\nThis document describes the Domain Specific Language (DSL) used to send printing commands to ESC/POS-compatible printers.\n\n## Overview\n\nThe DSL consists of commands that are executed sequentially. Each command must be on its own line.\nEmpty lines are ignored. String arguments must be enclosed in double quotes.\n\n");
    proof {
        assert(out@ =~= markdown_header());
    }
    append_md_category(&mut out, &commands, CommandCategory::Text);
    append_md_category(&mut out, &commands, CommandCategory::Formatting);
    append_md_category(&mut out, &commands, CommandCategory::Layout);
    append_md_category(&mut out, &commands, CommandCategory::Barcodes);
    append_md_category(&mut out, &commands, CommandCategory::Special);
    app(&mut out, "## Complete Example\n\n```\njustify center\nbold true\nsize 2,2\nwriteln \"RECEIPT\"\nreset_size\nbold false\nfeed 1\njustify left\nwriteln \"Item 1          $10.00\"\nwriteln \"Item 2          $15.00\"\nunderline single\nwriteln \"Total:          $25.00\"\nunderline none\nfeed 2\njustify center\nqr_code \"https://example.com/receipt/12345\"\nfeed 2\ncut\n```\n");
    proof {
        assert(out@ =~= markdown_spec(docs_view(commands@)));
    }
    out
}

/// The markdown reference for the full documented command set.
pub fn generate_markdown() -> (r: String)
    ensures
        r@ == markdown_spec(all_commands_spec()),
{
    generate_markdown_with_commands(all_commands())
}

/// A character in upper case, for ASCII letters.
pub open spec fn upper_char(c: char) -> char {
    if 'a' <= c && c <= 'z' {
        ((c as u8) - 32) as char
    } else {
        c
    }
}

/// A string in upper case, character by character.
pub open spec fn upper_seq(s: Seq<char>) -> Seq<char> {
    s.map_values(|c: char| upper_char(c))
}

/// Upper-case the ASCII letters of `s`.
#[verifier::loop_isolation(false)]
fn upper_str(s: &str) -> (r: String)
    ensures
        r@ == upper_seq(s@),
{
    let n = s.unicode_len();
    let mut r = String::new();
    let mut i: usize = 0;
    while i < n
        invariant
            i <= n,
            n == s@.len(),
            r@ == upper_seq(s@).take(i as int),
        decreases n - i,
    {
        let c = s.get_char(i);
        let u = if c >= 'a' && c <= 'z' {
            ((c as u8) - 32) as char
        } else {
            c
        };
        push_char(&mut r, u);
        proof {
            assert(r@ =~= upper_seq(s@).take(i + 1 as int));
        }
        i += 1;
    }
    proof {
        assert(upper_seq(s@).take(n as int) =~= upper_seq(s@));
    }
    r
}

/// The example lines of one command in the plain-text format, from `i` on.
pub open spec fn txt_examples(ex: Seq<Seq<char>>, i: int) -> Seq<char>
    decreases ex.len() - i,
{
    if i < 0 || i >= ex.len() {
        Seq::empty()
    } else {
        "    "@ + ex[i] + "\n"@ + txt_examples(ex, i + 1)
    }
}

/// The examples block of one command in the plain-text format.
pub open spec fn txt_example_block(ex: Seq<Seq<char>>) -> Seq<char> {
    if ex.len() == 0 {
        Seq::empty()
    } else {
        "  Examples:\n"@ + txt_examples(ex, 0)
    }
}

/// One command's plain-text section.
pub open spec fn txt_doc(d: CommandDocModel) -> Seq<char> {
    upper_seq(d.name) + "\n  Syntax: "@ + d.syntax + "\n  "@ + d.description + "\n"@
        + txt_example_block(d.examples) + "\n"@
}

/// The plain-text sections of every command from `i` on, in table order.
pub open spec fn txt_docs(docs: Seq<CommandDocModel>, i: int) -> Seq<char>
    decreases docs.len() - i,
{
    if i < 0 || i >= docs.len() {
        Seq::empty()
    } else {
        txt_doc(docs[i]) + txt_docs(docs, i + 1)
    }
}

/// The whole plain-text reference for a command table.
pub open spec fn text_spec(docs: Seq<CommandDocModel>) -> Seq<char> {
    "ESC/POS DSL COMMAND REFERENCE\n==============================\n\n"@ + txt_docs(docs, 0)
}

/// Append one command's plain-text section.
#[verifier::loop_isolation(false)]
fn append_txt_doc(out: &mut String, d: &CommandDoc)
    ensures
        final(out)@ == old(out)@ + txt_doc(d@),
{
    let upper = upper_str(d.name);
    app(out, upper.as_str());
    app(out, "\n  Syntax: ");
    app(out, d.syntax);
    app(out, "\n  ");
    app(out, d.description);
    app(out, "\n");
    let ghost ex = d@.examples;
    proof {
        assert(ex.len() == d.examples@.len());
    }
    if d.examples.len() > 0 {
        app(out, "  Examples:\n");
        let ghost base = out@;
        let n = d.examples.len();
        let mut i: usize = 0;
        while i < n
            invariant
                i <= n,
                n == d.examples@.len(),
                ex == d@.examples,
                base + txt_examples(ex, 0) == out@ + txt_examples(ex, i as int),
            decreases n - i,
        {
            let ghost before = out@;
            app(out, "    ");
            app(out, d.examples[i]);
            app(out, "\n");
            proof {
                assert(ex[i as int] == d.examples@[i as int]@);
                assert(out@ =~= before + ("    "@ + ex[i as int] + "\n"@));
                assert(before + ("    "@ + ex[i as int] + "\n"@ + txt_examples(ex, i + 1 as int))
                    =~= (before + ("    "@ + ex[i as int] + "\n"@)) + txt_examples(
                    ex,
                    i + 1 as int,
                ));
            }
            i += 1;
        }
        proof {
            assert(txt_examples(ex, n as int) =~= Seq::<char>::empty());
            assert(out@ + Seq::<char>::empty() =~= out@);
        }
    }
    app(out, "\n");
    proof {
        assert(out@ =~= old(out)@ + txt_doc(d@));
    }
}

/// The plain-text reference for a given command table.
#[verifier::loop_isolation(false)]
pub fn generate_text_with_commands(commands: Vec<CommandDoc>) -> (r: String)
    ensures
        r@ == text_spec(docs_view(commands@)),
{
    let ghost docs = docs_view(commands@);
    proof {
        assert(docs.len() == commands@.len());
    }
    let mut out = String::new();
    app(&mut out, "ESC/POS DSL COMMAND REFERENCE\n==============================\n\n");
    let ghost base = out@;
    let n = commands.len();
    let mut i: usize = 0;
    while i < n
        invariant
            i <= n,
            n == commands@.len(),
            docs == docs_view(commands@),
            base + txt_docs(docs, 0) == out@ + txt_docs(docs, i as int),
        decreases n - i,
    {
        let ghost before = out@;
        proof {
            assert(docs[i as int] == commands@[i as int]@);
        }
        append_txt_doc(&mut out, &commands[i]);
        proof {
            assert(before + (txt_doc(docs[i as int]) + txt_docs(docs, i + 1 as int)) =~= out@
                + txt_docs(docs, i + 1 as int));
        }
        i += 1;
    }
    proof {
        assert(txt_docs(docs, n as int) =~= Seq::<char>::empty());
        assert(out@ + Seq::<char>::empty() =~= out@);
        assert(out@ =~= text_spec(docs));
    }
    out
}

/// The plain-text reference for the full documented command set.
pub fn generate_text() -> (r: String)
    ensures
        r@ == text_spec(all_commands_spec()),
{
    generate_text_with_commands(all_commands())
}

} // verus!

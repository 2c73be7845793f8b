use clap::{Arg, ArgAction, Command};
use clap_md::markdown;

fn simple_command() -> Command {
    Command::new("simple")
        .about("This is a top-level description")
        .arg(
            Arg::new("flag")
                .short('f')
                .long("flag")
                .action(ArgAction::SetTrue)
                .help("This is a flag"),
        )
        .arg(
            Arg::new("pos")
                .value_name("POS")
                .required(true)
                .action(ArgAction::Set)
                .help("This is a mandatory positional argument"),
        )
        .arg(
            Arg::new("switch")
                .short('s')
                .long("switch")
                .value_name("SWITCH")
                .required(true)
                .action(ArgAction::Set)
                .help("This is a mandatory switched argument"),
        )
        .arg(
            Arg::new("opt_pos")
                .value_name("OPT_POS")
                .action(ArgAction::Set)
                .help("This is an optional positional argument"),
        )
        .arg(
            Arg::new("opt_switch")
                .short('o')
                .long("opt-switch")
                .value_name("OPT_SWITCH")
                .action(ArgAction::Set)
                .help("This is an optional switched argument"),
        )
        .arg(
            Arg::new("default_switch")
                .short('d')
                .long("default-switch")
                .value_name("DEFAULT_SWITCH")
                .default_value("default")
                .action(ArgAction::Set)
                .help("This is a switched argument with a default"),
        )
}

fn cargo_command() -> Command {
    Command::new("cargo")
        .about("Rust's package manager")
        .subcommand_required(true)
        .arg_required_else_help(true)
        .subcommand(
            Command::new("build")
                .about("Compile a local package and all of its dependencies")
                .arg(
                    Arg::new("release")
                        .short('r')
                        .long("release")
                        .action(ArgAction::SetTrue)
                        .help("Build artifacts in release mode, with optimizations"),
                ),
        )
        .subcommand(
            Command::new("run")
                .about("Run a binary or example of the local package")
                .arg(
                    Arg::new("args")
                        .value_name("ARGS")
                        .num_args(1..)
                        .action(ArgAction::Append)
                        .help("Arguments for the binary or example to run"),
                ),
        )
        .subcommand(
            Command::new("clean").about("Remove artifacts that cargo has generated in the past"),
        )
}

#[test]
fn simple() {
    let expected = [
        "# `simple`",
        "```text",
        "This is a top-level description",
        "",
        "Usage: simple [OPTIONS] --switch <SWITCH> <POS> [OPT_POS]",
        "",
        "Arguments:",
        "  <POS>",
        "          This is a mandatory positional argument",
        "",
        "  [OPT_POS]",
        "          This is an optional positional argument",
        "",
        "Options:",
        "  -f, --flag",
        "          This is a flag",
        "",
        "  -s, --switch <SWITCH>",
        "          This is a mandatory switched argument",
        "",
        "  -o, --opt-switch <OPT_SWITCH>",
        "          This is an optional switched argument",
        "",
        "  -d, --default-switch <DEFAULT_SWITCH>",
        "          This is a switched argument with a default",
        "          ",
        "          [default: default]",
        "```",
    ]
    .join("\n");
    assert_eq!(markdown(simple_command()), expected);
}

#[test]
fn readme() {
    let expected = [
        "# `cargo`",
        "```text",
        "Rust's package manager",
        "",
        "Usage: cargo <COMMAND>",
        "",
        "Commands:",
        "  build  Compile a local package and all of its dependencies",
        "  run    Run a binary or example of the local package",
        "  clean  Remove artifacts that cargo has generated in the past",
        "```",
        "",
        "## `cargo` `build`",
        "```text",
        "Compile a local package and all of its dependencies",
        "",
        "Usage: cargo build [OPTIONS]",
        "",
        "Options:",
        "  -r, --release",
        "          Build artifacts in release mode, with optimizations",
        "```",
        "",
        "## `cargo` `run`",
        "```text",
        "Run a binary or example of the local package",
        "",
        "Usage: cargo run [ARGS]...",
        "",
        "Arguments:",
        "  [ARGS]...",
        "          Arguments for the binary or example to run",
        "```",
        "",
        "## `cargo` `clean`",
        "```text",
        "Remove artifacts that cargo has generated in the past",
        "",
        "Usage: cargo clean",
        "```",
    ]
    .join("\n");
    assert_eq!(markdown(cargo_command()), expected);
}

#[test]
fn leaf_is_one_section_without_blank_lines_around_it() {
    let doc = markdown(Command::new("solo"));
    assert_eq!(doc, "# `solo`\n```text\nUsage: solo\n```");
}

#[test]
fn sections_follow_the_walk_in_declaration_order() {
    let tree = Command::new("a")
        .subcommand(Command::new("z").subcommand(Command::new("m")))
        .subcommand(Command::new("b"))
        .subcommand(Command::new("z2"));
    let doc = markdown(tree);
    let headings: Vec<&str> = doc.lines().filter(|line| line.starts_with('#')).collect();
    assert_eq!(
        headings,
        vec!["# `a`", "## `a` `z`", "### `a` `z` `m`", "## `a` `b`", "## `a` `z2`"]
    );
}

#[test]
fn heading_depth_is_tree_depth() {
    let tree = Command::new("one")
        .subcommand(Command::new("two").subcommand(Command::new("three").subcommand(Command::new("four"))));
    let doc = markdown(tree);
    let heading = doc.lines().filter(|line| line.starts_with('#')).last().unwrap();
    assert_eq!(heading, "#### `one` `two` `three` `four`");
    assert_eq!(heading.chars().take_while(|c| *c == '#').count(), 4);
    assert_eq!(heading.matches('`').count(), 8);
}

#[test]
fn sections_are_parted_by_one_blank_line() {
    let doc = markdown(Command::new("top").subcommand(Command::new("sub")));
    assert_eq!(
        doc,
        "# `top`\n```text\nUsage: top [COMMAND]\n\nCommands:\n  sub\n```\n\n## `top` `sub`\n```text\nUsage: top sub\n```"
    );
    assert!(!doc.starts_with('\n'));
    assert!(!doc.ends_with('\n'));
    assert_eq!(doc.matches("\n```\n\n#").count(), 1);
    assert!(!doc.contains("```\n#"));
    assert!(!doc.contains("\n\n\n"));
}

#[test]
fn readme_sections_are_parted_by_one_blank_line() {
    let doc = markdown(cargo_command());
    assert!(doc.starts_with("# `cargo`\n"));
    assert!(doc.contains("\n```\n\n## `cargo` `build`\n"));
    assert!(doc.contains("\n```\n\n## `cargo` `run`\n"));
    assert!(doc.contains("\n```\n\n## `cargo` `clean`\n"));
    assert!(!doc.contains("\n\n\n#"));
    assert!(doc.ends_with("Usage: cargo clean\n```"));
}

#[test]
fn usage_line_starts_with_the_whole_path() {
    let doc = markdown(cargo_command());
    let usages: Vec<&str> = doc.lines().filter(|line| line.starts_with("Usage: ")).collect();
    assert_eq!(
        usages,
        vec![
            "Usage: cargo <COMMAND>",
            "Usage: cargo build [OPTIONS]",
            "Usage: cargo run [ARGS]...",
            "Usage: cargo clean",
        ]
    );
}

#[test]
fn same_name_under_different_parents() {
    let tree = Command::new("git")
        .subcommand(Command::new("remote").subcommand(Command::new("add")))
        .subcommand(Command::new("stash").subcommand(Command::new("add")));
    let doc = markdown(tree);
    assert!(doc.contains("\n```\n\n### `git` `remote` `add`\n```text\nUsage: git remote add\n```"));
    assert!(doc.contains("\n```\n\n### `git` `stash` `add`\n```text\nUsage: git stash add\n```"));
}

#[test]
fn help_scaffolding_is_left_out() {
    let doc = markdown(cargo_command());
    assert!(!doc.contains("--help"));
    assert!(!doc.contains("Print this message"));
    assert!(!doc.contains("`help`"));
}

#[test]
fn the_command_given_is_not_changed() {
    let cmd = Command::new("keep").subcommand(Command::new("sub"));
    let first = markdown(cmd.clone());
    let second = markdown(cmd);
    assert_eq!(first, second);
}

#[test]
fn presentation_switches_help_off_and_sets_the_binary_name() {
    let cmd = Command::new("tool").subcommand(Command::new("sub"));
    let shown = clap_md::presentation(&cmd, String::from("suite tool"));
    assert!(shown.is_disable_help_flag_set());
    assert!(shown.is_disable_help_subcommand_set());
    assert_eq!(shown.get_bin_name(), Some("suite tool"));
    assert_eq!(shown.get_name(), "tool");
    assert!(!cmd.is_disable_help_flag_set());
    assert!(!cmd.is_disable_help_subcommand_set());
    assert_eq!(cmd.get_bin_name(), None);
}

#[test]
fn global_arguments_show_in_the_sections_of_subcommands() {
    let tree = Command::new("top")
        .arg(Arg::new("verbose").long("verbose").global(true).action(ArgAction::SetTrue))
        .subcommand(Command::new("sub"));
    let doc = markdown(tree);
    assert_eq!(
        doc,
        "# `top`\n```text\nUsage: top [OPTIONS] [COMMAND]\n\nCommands:\n  sub  \n\nOptions:\n      --verbose\n```\n\n## `top` `sub`\n```text\nUsage: top sub [OPTIONS]\n\nOptions:\n      --verbose\n```"
    );
}

#[test]
fn a_subcommand_may_refer_to_a_global_argument_of_its_parent() {
    let tree = Command::new("top")
        .arg(Arg::new("config").long("config").global(true).action(ArgAction::Set))
        .subcommand(
            Command::new("sub").arg(
                Arg::new("check")
                    .long("check")
                    .action(ArgAction::SetTrue)
                    .requires("config"),
            ),
        );
    let doc = markdown(tree);
    let usages: Vec<&str> = doc.lines().filter(|line| line.starts_with("Usage: ")).collect();
    assert_eq!(usages, vec!["Usage: top [OPTIONS] [COMMAND]", "Usage: top sub [OPTIONS]"]);
    let sub = &doc[doc.find("## `top` `sub`").unwrap()..];
    assert!(sub.contains("--check"));
    assert!(sub.contains("--config <config>"));
}

#[test]
fn deferred_subcommands_get_their_sections() {
    let tree = Command::new("top")
        .defer(|cmd| cmd.subcommand(Command::new("late").defer(|cmd| cmd.subcommand(Command::new("later")))));
    let doc = markdown(tree);
    let headings: Vec<&str> = doc.lines().filter(|line| line.starts_with('#')).collect();
    assert_eq!(headings, vec!["# `top`", "## `top` `late`", "### `top` `late` `later`"]);
}

#[test]
fn a_propagated_version_shows_in_the_sections_of_subcommands() {
    let tree = Command::new("top")
        .version("1.2.3")
        .propagate_version(true)
        .subcommand(Command::new("sub"));
    let doc = markdown(tree);
    let sub = &doc[doc.find("## `top` `sub`").unwrap()..];
    assert!(sub.contains("-V, --version"));
}

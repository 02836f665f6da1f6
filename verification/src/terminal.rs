//! Commands of a terminal as values, and the program and arguments that
//! each stands for.

use crate::gotest::{all_tags, collect_tags};
use crate::text::{
    clone_strings, join, join_with, lemma_texts_add, lemma_texts_push, texts,
};
use vstd::prelude::*;

verus! {

/// A program and its arguments, ready to be run.
#[derive(Debug)]
pub struct TerminalExecution {
    pub command: String,
    pub args: Vec<String>,
}

/// A line of a terminal: the program, and behind one space the
/// arguments with one space between them, where they hold any text.
pub open spec fn command_line(command: Seq<char>, args: Seq<Seq<char>>) -> Seq<char> {
    let rest = join(args, seq![' ']);
    if rest.len() > 0 {
        command + seq![' '] + rest
    } else {
        command
    }
}

impl TerminalExecution {
    /// The execution of `command` with `args`.
    pub fn new(command: String, args: Vec<String>) -> (execution: Self)
        ensures
            execution.command == command,
            execution.args == args,
    {
        TerminalExecution { command, args }
    }

    /// The execution as a line of a terminal.
    pub fn to_line(&self) -> (line: String)
        ensures
            line@ == command_line(self.command@, texts(self.args@)),
    {
        proof {
            reveal_strlit(" ");
            assert(" "@ =~= seq![' ']);
        }
        let rest = join_with(&self.args, " ");
        let mut line = self.command.clone();
        if !rest.as_str().is_empty() {
            line.append(" ");
            line.append(rest.as_str());
        }
        line
    }
}

/// A command that this library knows how to write.
#[derive(Debug)]
pub enum TerminalCommand {
    /// `which`: where a program is.
    Which { program: String },
    /// `grep`: the lines of files that hold a pattern.
    Grep {
        pattern: String,
        files: Vec<String>,
        invert_match: Option<bool>,
        case_insensitive: Option<bool>,
        show_count: Option<bool>,
        search_directories_recursively: Option<bool>,
    },
    /// `cat`: the text of files.
    Cat { files: Vec<String>, number_lines: Option<bool>, show_ends: Option<bool> },
    /// `go test`.
    GoTest {
        package: Option<String>,
        test_file: Option<String>,
        verbose: Option<bool>,
        test_pattern: Option<String>,
        build_tags: Option<Vec<String>>,
    },
}

/// A `TerminalCommand` over sequences of characters.
pub enum CommandView {
    Which { program: Seq<char> },
    Grep {
        pattern: Seq<char>,
        files: Seq<Seq<char>>,
        invert_match: Option<bool>,
        case_insensitive: Option<bool>,
        show_count: Option<bool>,
        search_directories_recursively: Option<bool>,
    },
    Cat { files: Seq<Seq<char>>, number_lines: Option<bool>, show_ends: Option<bool> },
    GoTest {
        package: Option<Seq<char>>,
        test_file: Option<Seq<char>>,
        verbose: Option<bool>,
        test_pattern: Option<Seq<char>>,
        build_tags: Option<Seq<Seq<char>>>,
    },
}

/// The view of a string that may be missing.
pub open spec fn text_of(s: Option<String>) -> Option<Seq<char>> {
    match s {
        Some(s) => Some(s@),
        None => None,
    }
}

/// The views of strings that may be missing.
pub open spec fn texts_of(v: Option<Vec<String>>) -> Option<Seq<Seq<char>>> {
    match v {
        Some(v) => Some(texts(v@)),
        None => None,
    }
}

impl View for TerminalCommand {
    type V = CommandView;

    open spec fn view(&self) -> CommandView {
        match *self {
            TerminalCommand::Which { program } => CommandView::Which { program: program@ },
            TerminalCommand::Grep {
                pattern,
                files,
                invert_match,
                case_insensitive,
                show_count,
                search_directories_recursively,
            } => CommandView::Grep {
                pattern: pattern@,
                files: texts(files@),
                invert_match,
                case_insensitive,
                show_count,
                search_directories_recursively,
            },
            TerminalCommand::Cat { files, number_lines, show_ends } => CommandView::Cat {
                files: texts(files@),
                number_lines,
                show_ends,
            },
            TerminalCommand::GoTest { package, test_file, verbose, test_pattern, build_tags } => {
                CommandView::GoTest {
                    package: text_of(package),
                    test_file: text_of(test_file),
                    verbose,
                    test_pattern: text_of(test_pattern),
                    build_tags: texts_of(build_tags),
                }
            },
        }
    }
}

/// `[flag]` where `wanted` is set and true, nothing else.
pub open spec fn flag_if(wanted: Option<bool>, flag: Seq<char>) -> Seq<Seq<char>> {
    if wanted == Some(true) {
        seq![flag]
    } else {
        Seq::empty()
    }
}

/// The program that a command runs.
pub open spec fn program_of(command: CommandView) -> Seq<char> {
    match command {
        CommandView::Which { .. } => "which"@,
        CommandView::Grep { .. } => "grep"@,
        CommandView::Cat { .. } => "cat"@,
        CommandView::GoTest { .. } => "go"@,
    }
}

/// What `go test` is run on: the file where there is one, else the
/// package, else all packages.
pub open spec fn gotest_subject(package: Option<Seq<char>>, test_file: Option<Seq<char>>) -> Seq<
    char,
> {
    match (test_file, package) {
        (Some(file), _) => file,
        (None, Some(package)) => package,
        (None, None) => "./..."@,
    }
}

/// The `-tags=` argument for `groups`: all their tags with commas
/// between; no argument where there is no tag.
pub open spec fn tags_flag(groups: Option<Seq<Seq<char>>>) -> Seq<Seq<char>> {
    match groups {
        Some(groups) => if all_tags(groups).len() > 0 {
            seq!["-tags="@ + join(all_tags(groups), seq![','])]
        } else {
            Seq::empty()
        },
        None => Seq::empty(),
    }
}

/// The arguments that a command hands to its program.
///
/// - `which`: the program asked about.
/// - `grep`: `-i`, `-c`, `-r` and `-v` as far as they are set, the
///   pattern, the files.
/// - `cat`: `-n` and `-E` as far as they are set, the files.
/// - `go`: `test`, `-v` if set, `-run` and the pattern if there is one,
///   `-tags=` and the tags if there are any, and what is tested.
pub open spec fn arguments_of(command: CommandView) -> Seq<Seq<char>> {
    match command {
        CommandView::Which { program } => seq![program],
        CommandView::Grep {
            pattern,
            files,
            invert_match,
            case_insensitive,
            show_count,
            search_directories_recursively,
        } => flag_if(case_insensitive, "-i"@) + flag_if(show_count, "-c"@) + flag_if(
            search_directories_recursively,
            "-r"@,
        ) + flag_if(invert_match, "-v"@) + seq![pattern] + files,
        CommandView::Cat { files, number_lines, show_ends } => flag_if(number_lines, "-n"@)
            + flag_if(show_ends, "-E"@) + files,
        CommandView::GoTest { package, test_file, verbose, test_pattern, build_tags } => seq![
            "test"@,
        ] + flag_if(verbose, "-v"@) + (match test_pattern {
            Some(pattern) => seq!["-run"@, pattern],
            None => Seq::empty(),
        }) + tags_flag(build_tags) + seq![gotest_subject(package, test_file)],
    }
}

/// Adds `flag` to `args` where `wanted` is set and true.
fn push_flag(args: &mut Vec<String>, wanted: &Option<bool>, flag: &str)
    ensures
        texts(final(args)@) == texts(old(args)@) + flag_if(*wanted, flag@),
{
    match wanted {
        Some(true) => {
            let flag = flag.to_owned();
            proof {
                lemma_texts_push(args@, flag);
                assert(texts(args@).push(flag@) =~= texts(args@) + seq![flag@]);
            }
            args.push(flag);
        },
        _ => {
            assert(texts(args@) + Seq::<Seq<char>>::empty() =~= texts(args@));
        },
    }
}

/// Adds copies of `more` to `args`.
fn push_all(args: &mut Vec<String>, more: &Vec<String>)
    ensures
        texts(final(args)@) == texts(old(args)@) + texts(more@),
{
    let mut copies = clone_strings(more);
    proof {
        lemma_texts_add(args@, copies@);
    }
    args.append(&mut copies);
}

/// Adds a copy of `one` to `args`.
fn push_one(args: &mut Vec<String>, one: &str)
    ensures
        texts(final(args)@) == texts(old(args)@) + seq![one@],
{
    let one = one.to_owned();
    proof {
        lemma_texts_push(args@, one);
        assert(texts(args@).push(one@) =~= texts(args@) + seq![one@]);
    }
    args.push(one);
}

impl TerminalCommand {
    /// `which program`
    pub fn which(program: String) -> (command: Self)
        ensures
            command@ == (CommandView::Which { program: program@ }),
    {
        TerminalCommand::Which { program }
    }

    /// `grep` for `pattern` in `files`.
    pub fn grep(
        pattern: String,
        files: Vec<String>,
        invert_match: Option<bool>,
        case_insensitive: Option<bool>,
        show_count: Option<bool>,
        search_directories_recursively: Option<bool>,
    ) -> (command: Self)
        ensures
            command@ == (CommandView::Grep {
                pattern: pattern@,
                files: texts(files@),
                invert_match,
                case_insensitive,
                show_count,
                search_directories_recursively,
            }),
    {
        TerminalCommand::Grep {
            pattern,
            files,
            invert_match,
            case_insensitive,
            show_count,
            search_directories_recursively,
        }
    }

    /// `cat files`
    pub fn cat(files: Vec<String>, number_lines: Option<bool>, show_ends: Option<bool>) -> (command:
        Self)
        ensures
            command@ == (CommandView::Cat { files: texts(files@), number_lines, show_ends }),
    {
        TerminalCommand::Cat { files, number_lines, show_ends }
    }

    /// `go test`
    pub fn go_test(
        package: Option<String>,
        test_file: Option<String>,
        verbose: Option<bool>,
        test_pattern: Option<String>,
        build_tags: Option<Vec<String>>,
    ) -> (command: Self)
        ensures
            command@ == (CommandView::GoTest {
                package: text_of(package),
                test_file: text_of(test_file),
                verbose,
                test_pattern: text_of(test_pattern),
                build_tags: texts_of(build_tags),
            }),
    {
        TerminalCommand::GoTest { package, test_file, verbose, test_pattern, build_tags }
    }

    /// The name of the program that finds programs.
    pub fn which_command() -> (name: &'static str)
        ensures
            name@ == "which"@,
    {
        "which"
    }

    /// The name of the program that writes out files.
    pub fn cat_command() -> (name: &'static str)
        ensures
            name@ == "cat"@,
    {
        "cat"
    }

    /// The name of the program that searches files.
    pub fn grep_command() -> (name: &'static str)
        ensures
            name@ == "grep"@,
    {
        "grep"
    }

    /// The name of the program that the command runs.
    pub fn program(&self) -> (name: &'static str)
        ensures
            name@ == program_of(self@),
    {
        match self {
            TerminalCommand::Which { .. } => Self::which_command(),
            TerminalCommand::Grep { .. } => Self::grep_command(),
            TerminalCommand::Cat { .. } => Self::cat_command(),
            TerminalCommand::GoTest { .. } => "go",
        }
    }

    /// The program and the arguments that the command stands for.
    pub fn to_terminal_execution(&self) -> (execution: TerminalExecution)
        ensures
            execution.command@ == program_of(self@),
            texts(execution.args@) == arguments_of(self@),
    {
        let mut args: Vec<String> = Vec::new();
        assert(texts(args@) =~= Seq::empty());
        match self {
            TerminalCommand::Which { program } => {
                push_one(&mut args, program.as_str());
                assert(texts(args@) =~= arguments_of(self@));
            },
            TerminalCommand::Grep {
                pattern,
                files,
                case_insensitive,
                show_count,
                search_directories_recursively,
                invert_match,
            } => {
                push_flag(&mut args, case_insensitive, "-i");
                push_flag(&mut args, show_count, "-c");
                push_flag(&mut args, search_directories_recursively, "-r");
                push_flag(&mut args, invert_match, "-v");
                push_one(&mut args, pattern.as_str());
                push_all(&mut args, files);
                assert(texts(args@) =~= arguments_of(self@));
            },
            TerminalCommand::Cat { files, number_lines, show_ends } => {
                push_flag(&mut args, number_lines, "-n");
                push_flag(&mut args, show_ends, "-E");
                push_all(&mut args, files);
                assert(texts(args@) =~= arguments_of(self@));
            },
            TerminalCommand::GoTest { package, test_file, verbose, test_pattern, build_tags } => {
                push_one(&mut args, "test");
                push_flag(&mut args, verbose, "-v");
                let ghost before_run = texts(args@);
                match test_pattern {
                    Some(pattern) => {
                        push_one(&mut args, "-run");
                        push_one(&mut args, pattern.as_str());
                        assert(texts(args@) =~= before_run + seq!["-run"@, pattern@]);
                    },
                    None => {
                        assert(texts(args@) =~= before_run + Seq::<Seq<char>>::empty());
                    },
                }
                let ghost before_tags = texts(args@);
                match build_tags {
                    Some(groups) => {
                        let tags = collect_tags(groups);
                        if tags.len() > 0 {
                            let mut flag = "-tags=".to_owned();
                            proof {
                                reveal_strlit(",");
                                assert(","@ =~= seq![',']);
                            }
                            flag.append(join_with(&tags, ",").as_str());
                            push_one(&mut args, flag.as_str());
                        } else {
                            assert(texts(args@) =~= before_tags + Seq::<Seq<char>>::empty());
                        }
                    },
                    None => {
                        assert(texts(args@) =~= before_tags + Seq::<Seq<char>>::empty());
                    },
                }
                assert(texts(args@) == before_tags + tags_flag(texts_of(*build_tags)));
                match test_file {
                    Some(file) => {
                        push_one(&mut args, file.as_str());
                    },
                    None => match package {
                        Some(package) => {
                            push_one(&mut args, package.as_str());
                        },
                        None => {
                            push_one(&mut args, "./...");
                        },
                    },
                }
                assert(texts(args@) =~= arguments_of(self@));
            },
        }
        TerminalExecution { command: self.program().to_owned(), args }
    }
}

} // verus!

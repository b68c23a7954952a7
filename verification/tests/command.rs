use currant::command::{command_from_words, parse_command_string, Command, CommandError, Runner};
use currant::currant::standard_out_api::{
    run_commands_stdout_with_options, Color as PlainColor, StandardOutCommand,
};
use currant::standard_out_api::run_commands_stdout;
use currant::{ChannelCommand, Color, ConsoleCommand, InnerCommand, Options, RestartOptions, WriterCommand};

fn strings(words: &[&str]) -> Vec<String> {
    words.iter().map(|w| w.to_string()).collect()
}

#[test]
fn command_not_found() {
    let cmd = ConsoleCommand::from_string("test", "bogus_cmd_not_found", false);

    match cmd {
        Err(CommandError::CommandNotFound(name)) => {
            assert_eq!(&name, "bogus_cmd_not_found",)
        }
        _ => panic!("bogus command didn't return CommandNotFound"),
    }
}

#[test]
fn command_empty() {
    let cmd = ConsoleCommand::from_string("test", "", true);

    match cmd {
        Err(CommandError::EmptyCommand) => {}
        _ => panic!("empty command didn't error out"),
    }
}

#[test]
fn run_commands() {
    let mut runner = Runner::new();
    runner
        .command(ConsoleCommand::from_string("test1", "ls -la .", true).unwrap())
        .command(ConsoleCommand::from_string("test2", "ls -la ..", true).unwrap())
        .command({
            let mut third = ConsoleCommand::from_string("test3", "ls -la ../..", true).unwrap();
            third.cur_dir("..");
            third
        })
        .restart(RestartOptions::Kill);
    let run = run_commands_stdout(&runner);
    assert_eq!(run.num_cmds, 3);
    let (names, workers, control) = run.supervisor.into_parts();
    assert_eq!(names, strings(&["test1", "test2", "test3"]));
    assert_eq!(workers.len(), 3);
    assert_eq!(workers[2].get_command().cur_dir(), &Some("..".to_string()));
    assert_eq!(workers[2].get_command().args(), &strings(&["-la", "../.."]));
    assert!(!control.is_killed());
}

#[test]
fn a_command_line_is_split_into_executable_and_arguments() {
    assert_eq!(
        parse_command_string("ls -la ."),
        Ok(("ls".to_string(), strings(&["-la", "."])))
    );
    assert_eq!(parse_command_string("  true  "), Ok(("true".to_string(), Vec::new())));
}

#[test]
fn quotes_keep_words_together() {
    assert_eq!(
        parse_command_string("echo \"hello, world\" 'a b' c\\ d"),
        Ok(("echo".to_string(), strings(&["hello, world", "a b", "c d"])))
    );
}

#[test]
fn an_unclosed_quote_is_a_parse_error_with_the_line() {
    assert_eq!(
        parse_command_string("echo \"hello"),
        Err(CommandError::ParseError("echo \"hello".to_string()))
    );
    assert_eq!(
        ChannelCommand::from_string("c", "echo 'x", true),
        Err(CommandError::ParseError("echo 'x".to_string()))
    );
}

#[test]
fn a_line_without_words_is_an_empty_command() {
    assert_eq!(parse_command_string(""), Err(CommandError::EmptyCommand));
    assert_eq!(parse_command_string("   \t\n"), Err(CommandError::EmptyCommand));
    assert_eq!(parse_command_string("# only a comment"), Err(CommandError::EmptyCommand));
}

#[test]
fn words_are_taken_apart_into_first_and_rest() {
    assert_eq!(
        command_from_words("a b c", Some(strings(&["a", "b", "c"]))),
        Ok(("a".to_string(), strings(&["b", "c"])))
    );
    assert_eq!(command_from_words("a", Some(strings(&["a"]))), Ok(("a".to_string(), Vec::new())));
    assert_eq!(command_from_words("", Some(Vec::new())), Err(CommandError::EmptyCommand));
    assert_eq!(
        command_from_words("'x", None),
        Err(CommandError::ParseError("'x".to_string()))
    );
}

#[test]
fn from_argv_checks_for_empty_parts_before_the_executable() {
    let args = strings(&["la", "."]);
    let cmd = ConsoleCommand::from_argv("test_cmd", "ls", args.clone(), true).unwrap();
    assert_eq!(cmd.get_command().name(), "test_cmd");
    assert_eq!(cmd.get_command().command(), "ls");
    assert_eq!(cmd.get_command().args(), &args);
    assert_eq!(cmd.get_command().cur_dir(), &None);
    assert_eq!(cmd.get_command().env().len(), 0);
    assert_eq!(cmd.get_color(), Color::Random);

    assert_eq!(
        WriterCommand::from_argv("", "ls", Vec::new(), true),
        Err(CommandError::EmptyCommand)
    );
    assert_eq!(
        WriterCommand::from_argv("name", "", Vec::new(), true),
        Err(CommandError::EmptyCommand)
    );
    assert_eq!(
        WriterCommand::from_argv("name", "", Vec::new(), false),
        Err(CommandError::EmptyCommand)
    );
    assert_eq!(
        WriterCommand::from_argv("name", "nope", Vec::new(), false),
        Err(CommandError::CommandNotFound("nope".to_string()))
    );
}

#[test]
fn from_string_refuses_an_empty_name() {
    assert_eq!(ChannelCommand::from_string("", "ls", true), Err(CommandError::EmptyCommand));
}

#[test]
fn directory_and_environment_are_set_on_the_wrapped_command() {
    let mut cmd = ChannelCommand::from_string("test_cmd", "ls -la .", true).unwrap();
    cmd.cur_dir("path/to/new/dir").env("key", "val").env("other", "1").env("key", "val2");
    let inner = cmd.get_command();
    assert_eq!(inner.cur_dir(), &Some("path/to/new/dir".to_string()));
    assert_eq!(inner.env().len(), 2);
    assert_eq!(inner.env().name_at(0), "key");
    assert_eq!(inner.env().value_at(0), "val2");
    assert_eq!(inner.env().get("other"), Some(&"1".to_string()));
    assert_eq!(inner.env().get("absent"), None);
    assert_eq!(inner.name(), "test_cmd");
    assert_eq!(inner.args(), &strings(&["-la", "."]));
}

#[test]
fn the_color_of_a_console_command_can_be_set() {
    let mut cmd = ConsoleCommand::from_string("test1", "ls -la .", true).unwrap();
    cmd.color(Color::blue()).env("k", "v");
    assert_eq!(cmd.get_color(), Color::RGB(0, 0, 255));
    assert_eq!(cmd.get_command().env().get("k"), Some(&"v".to_string()));
    let same: &ConsoleCommand = cmd.as_ref();
    assert_eq!(same, &cmd);
}

#[test]
fn inner_command_refuses_empty_parts() {
    assert_eq!(InnerCommand::new(String::new(), "ls".to_string(), Vec::new()), None);
    assert_eq!(InnerCommand::new("n".to_string(), String::new(), Vec::new()), None);
    let cmd = InnerCommand::new("n".to_string(), "ls".to_string(), Vec::new()).unwrap();
    assert_eq!(cmd.clone(), cmd);
}

#[test]
fn a_clone_of_a_command_is_equal_to_it() {
    let mut cmd = InnerCommand::new("n".to_string(), "ls".to_string(), strings(&["a"])).unwrap();
    cmd.set_cur_dir("/tmp".to_string());
    cmd.set_env("A".to_string(), "1".to_string());
    let copy = cmd.clone();
    assert_eq!(copy, cmd);
    assert_eq!(copy.env().get("A"), Some(&"1".to_string()));
    assert_eq!(copy.cur_dir(), &Some("/tmp".to_string()));
}

#[test]
fn a_runner_collects_commands_and_options() {
    let mut runner: Runner<ChannelCommand> = Runner::new();
    assert_eq!(runner.len(), 0);
    assert_eq!(runner.to_options(), Options::new());
    runner
        .command(ChannelCommand::from_string("a", "ls", true).unwrap())
        .quiet(true)
        .should_show_file_handle(true)
        .restart(RestartOptions::Restart)
        .command(ChannelCommand::from_string("b", "pwd", true).unwrap());
    assert_eq!(runner.len(), 2);
    assert_eq!(runner.command_at(0).get_command().name(), "a");
    assert_eq!(runner.command_at(1).get_command().command(), "pwd");
    assert_eq!(
        runner.to_options(),
        Options { restart: RestartOptions::Restart, quiet: true, file_handle_flags: true }
    );
    let supervisor = currant::run_commands(&runner);
    let (names, workers, control) = supervisor.into_parts();
    assert_eq!(names, strings(&["a", "b"]));
    assert_eq!(workers.len(), 2);
    assert_eq!(control.len(), 2);
}

#[test]
fn a_default_runner_is_empty() {
    let runner: Runner<WriterCommand> = Runner::default();
    assert_eq!(runner.len(), 0);
}

#[test]
fn plain_commands_are_made_from_lines_too() {
    let cmd = StandardOutCommand::new_command_string("test1", "ls -la .").unwrap();
    assert_eq!(cmd, StandardOutCommand::new("test1", "ls", strings(&["-la", "."])));
    let cmd =
        StandardOutCommand::new_command_string_with_color("t", "echo 'a b'", PlainColor::Red)
            .unwrap();
    assert_eq!(cmd, StandardOutCommand::new_with_color("t", "echo", strings(&["a b"]), PlainColor::Red));
    assert_eq!(
        StandardOutCommand::new_command_string("t", "echo 'a"),
        Err(CommandError::ParseError("echo 'a".to_string()))
    );
    assert_eq!(
        StandardOutCommand::new_command_string_with_color("t", "", PlainColor::Blue),
        Err(CommandError::EmptyCommand)
    );
}

#[test]
fn a_plain_run_lists_each_name_with_its_last_color() {
    let commands = vec![
        StandardOutCommand::new_with_color("a", "ls", Vec::new(), PlainColor::Red),
        StandardOutCommand::new("b", "ls", Vec::new()),
        StandardOutCommand::new_with_color("a", "pwd", Vec::new(), PlainColor::Cyan),
    ];
    let mut options = Options::new();
    options.restart(RestartOptions::Kill);
    let run = run_commands_stdout_with_options(commands, options).unwrap();
    assert_eq!(run.color_map.len(), 2);
    assert_eq!(run.color_map.get("a"), Some(&PlainColor::Cyan));
    assert_eq!(run.color_map.get("b"), Some(&PlainColor::Default));
    let (names, workers, control) = run.supervisor.into_parts();
    assert_eq!(names, strings(&["a", "b", "a"]));
    assert_eq!(workers.len(), 3);
    assert_eq!(control.len(), 3);
}

#[test]
fn a_plain_run_refuses_a_command_without_a_name() {
    let commands = vec![
        StandardOutCommand::new("a", "ls", Vec::new()),
        StandardOutCommand::new("", "ls", Vec::new()),
    ];
    assert!(matches!(
        currant::currant::standard_out_api::run_commands_stdout(commands),
        Err(CommandError::EmptyCommand)
    ));
    let commands = vec![currant::currant::Command::new("a", "", Vec::new())];
    assert!(matches!(
        currant::currant::writer_api::run_commands_writer(commands),
        Err(CommandError::EmptyCommand)
    ));
    let commands = vec![currant::currant::Command::new("a", "ls", strings(&["-l"]))];
    let supervisor = currant::currant::writer_api::run_commands_writer(commands).unwrap();
    let (names, workers, _) = supervisor.into_parts();
    assert_eq!(names, strings(&["a"]));
    assert_eq!(workers[0].get_command().args(), &strings(&["-l"]));
}

//! What is logged, and how verbosely.
use aldis::builder::{
    BuildCommand, CommandError, CommandOutput, CommandPort, CommandStdin,
};
use aldis::failure::IoFailure;
use aldis::logging::{
    display_arguments, shell_token, stderr_level_for, CommandEvent, CommandOutcome, LogLevel,
    LoggingCommandAdapter,
};
use aldis::run_log::{is_stale_log, RunLog, RunLogError};

#[test]
fn verbosity_zero_maps_to_warn_level() {
    assert_eq!(stderr_level_for(0), LogLevel::Warn);
}

#[test]
fn verbosity_one_maps_to_info_level() {
    assert_eq!(stderr_level_for(1), LogLevel::Info);
}

#[test]
fn verbosity_two_or_more_maps_to_debug_level() {
    assert_eq!(stderr_level_for(2), LogLevel::Debug);
    assert_eq!(stderr_level_for(5), LogLevel::Debug);
}

#[test]
fn names_levels_as_filters_do() {
    assert_eq!(LogLevel::Warn.name(), "WARN");
    assert_eq!(LogLevel::Info.name(), "INFO");
    assert_eq!(LogLevel::Debug.name(), "DEBUG");
}

struct FailingRunner;

impl CommandPort for FailingRunner {
    fn run(&mut self, _command: &BuildCommand) -> Result<CommandOutput, CommandError> {
        Ok(CommandOutput {
            success: false,
            stdout: b"configuration output\n".to_vec(),
            stderr: b"invalid Kconfig symbol\n".to_vec(),
        })
    }
}

struct SuccessfulRunner;

impl CommandPort for SuccessfulRunner {
    fn run(&mut self, _command: &BuildCommand) -> Result<CommandOutput, CommandError> {
        Ok(CommandOutput {
            success: true,
            stdout: b"compiled 1 object\n".to_vec(),
            stderr: b"warning: retained for diagnosis\n".to_vec(),
        })
    }
}

struct BrokenRunner;

impl CommandPort for BrokenRunner {
    fn run(&mut self, _command: &BuildCommand) -> Result<CommandOutput, CommandError> {
        Err(CommandError::Spawn(IoFailure {
            message: "no such file".to_owned(),
        }))
    }
}

#[test]
fn emits_one_event_with_the_complete_captured_output_for_a_failed_command() {
    let mut adapter = LoggingCommandAdapter::new(FailingRunner, Vec::<CommandEvent>::new());
    let command = BuildCommand {
        program: "make".to_owned(),
        arguments: vec!["olddefconfig".to_owned()],
        current_dir: Some("/home/pi/klipper".to_owned()),
        stdin: None,
    };

    let output = adapter.run(&command).expect("adapter returns output");

    assert!(!output.success);
    let events = adapter.into_log();
    assert_eq!(events.len(), 1);
    assert_eq!(events[0].program, "make");
    assert!(events[0].args.contains("olddefconfig (cd /home/pi/klipper)"));
    match &events[0].outcome {
        CommandOutcome::Finished {
            exit,
            stdout,
            stderr,
        } => {
            assert_eq!(*exit, "failure");
            assert!(stdout.contains("configuration output"));
            assert!(stderr.contains("invalid Kconfig symbol"));
        }
        CommandOutcome::FailedToStart { .. } => panic!("the command ran"),
    }
}

#[test]
fn emits_one_event_with_the_complete_captured_output_for_a_successful_command() {
    let mut adapter = LoggingCommandAdapter::new(SuccessfulRunner, Vec::<CommandEvent>::new());
    let command = BuildCommand {
        program: "make".to_owned(),
        arguments: vec!["KCONFIG_CONFIG=/tmp/mcu.config".to_owned()],
        current_dir: None,
        stdin: None,
    };

    let output = adapter.run(&command).expect("adapter returns output");

    assert!(output.success);
    let events = adapter.into_log();
    assert_eq!(events.len(), 1);
    assert_eq!(events[0].program, "make");
    assert!(events[0].args.contains("KCONFIG_CONFIG=/tmp/mcu.config"));
    match &events[0].outcome {
        CommandOutcome::Finished {
            exit,
            stdout,
            stderr,
        } => {
            assert_eq!(*exit, "success");
            assert!(stdout.contains("compiled 1 object"));
            assert!(stderr.contains("warning: retained for diagnosis"));
        }
        CommandOutcome::FailedToStart { .. } => panic!("the command ran"),
    }
}

#[test]
fn records_a_command_that_could_not_start() {
    let mut adapter = LoggingCommandAdapter::new(BrokenRunner, Vec::<CommandEvent>::new());
    let command = BuildCommand {
        program: "make".to_owned(),
        arguments: Vec::new(),
        current_dir: None,
        stdin: None,
    };

    assert!(adapter.run(&command).is_err());

    assert_eq!(
        adapter.into_log()[0].outcome,
        CommandOutcome::FailedToStart {
            error: "could not run build command: no such file".to_owned()
        }
    );
}

#[test]
fn never_logs_the_input_of_a_command() {
    let mut adapter = LoggingCommandAdapter::new(SuccessfulRunner, Vec::<CommandEvent>::new());
    let command = BuildCommand {
        program: "sudo".to_owned(),
        arguments: vec!["/usr/bin/install".to_owned()],
        current_dir: None,
        stdin: Some(CommandStdin(b"firmware".to_vec())),
    };

    adapter.run(&command).expect("adapter returns output");

    let event = &adapter.into_log()[0];
    assert!(!format!("{event:?}").contains("firmware"));
    assert_eq!(CommandStdin(b"firmware".to_vec()).describe(), "CommandStdin(8 bytes)");
}

#[test]
fn quotes_only_words_that_need_it() {
    assert_eq!(shell_token("KCONFIG_CONFIG=/tmp/a,b:c"), "KCONFIG_CONFIG=/tmp/a,b:c");
    assert_eq!(shell_token("two words"), "\"two words\"");
    assert_eq!(shell_token(""), "\"\"");
    assert_eq!(
        display_arguments(&BuildCommand {
            program: "make".to_owned(),
            arguments: vec!["a b".to_owned(), "c".to_owned()],
            current_dir: Some("/a b".to_owned()),
            stdin: None,
        }),
        "\"a b\" c (cd \"/a b\")"
    );
}

#[test]
fn begins_a_run_log_with_its_format() {
    let (log, first) = RunLog::create("/runs/1", Ok(()), 12).unwrap();
    assert_eq!(log.path(), "/runs/1/run.log");
    assert_eq!(
        first,
        "[12] action: run started\n\
         log format: actions, commands, complete stdout, complete stderr, and outcomes\n"
    );
    assert_eq!(log.action(34, "flashing"), "[34] action: flashing\n");
}

#[test]
fn names_the_run_log_that_could_not_be_created() {
    let denied = IoFailure {
        message: "denied".to_owned(),
    };
    let error = RunLog::create("/runs/1", Err(denied), 0).unwrap_err();
    assert!(matches!(&error, RunLogError::Create { path, .. } if path == "/runs/1/run.log"));
    let mut messages = Vec::new();
    error.append_chain(&mut messages);
    assert_eq!(
        messages,
        ["could not create run log /runs/1/run.log", "denied"]
    );
}

#[test]
fn removes_only_old_logs_of_its_own() {
    let day = 86_400_000_000_000;
    assert!(is_stale_log("aldis-12.log", Some(day + 1)));
    assert!(!is_stale_log("aldis-12.log", Some(day)));
    assert!(!is_stale_log("aldis-12.log", None));
    assert!(!is_stale_log("other-12.log", Some(day + 1)));
    assert!(!is_stale_log("aldis-12.txt", Some(day + 1)));
}

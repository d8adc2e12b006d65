use module_writer::cffi::CffiAction;
use module_writer::cffi::CffiConfig;
use module_writer::cffi::CffiEvent;
use module_writer::cffi::CffiState;
use module_writer::cffi::ProcessOutput;
use module_writer::cffi::cffi_action;
use module_writer::cffi::cffi_step;
use module_writer::cffi::missing_module_line;
use module_writer::cffi::probe_script;
use module_writer::cffi::reader_script;

fn config() -> CffiConfig {
    CffiConfig {
        python: "/venv/bin/python".to_owned(),
        user_header: "/target/header.h".to_owned(),
    }
}

fn failure_missing_module() -> ProcessOutput {
    ProcessOutput {
        success: false,
        status: "exit status: 1".to_owned(),
        stdout: String::new(),
        stderr: "Traceback (most recent call last):\n  File \"<string>\", line 2, in <module>\nModuleNotFoundError: No module named 'cffi'\n"
            .to_owned(),
    }
}

fn success_output() -> ProcessOutput {
    ProcessOutput {
        success: true,
        status: "exit status: 0".to_owned(),
        stdout: String::new(),
        stderr: "a warning\n".to_owned(),
    }
}

#[test]
fn install_and_retry_happen_exactly_once() {
    // A missing-module failure whose probe reports an isolated environment
    // leads to exactly one install and exactly one retried generation.
    let config = config();
    let mut installs = 0;
    let mut generations = 0;

    let mut state = CffiState::AwaitHeaderCheck;
    assert!(matches!(cffi_action(&state), Some(CffiAction::CheckUserHeader)));
    state = cffi_step(&config, state, CffiEvent::HeaderChecked { exists: true });

    match cffi_action(&state) {
        Some(CffiAction::RunGeneration { header, attempt }) => {
            assert_eq!(header, "/target/header.h");
            assert_eq!(attempt, 1);
            generations += 1;
        },
        other => panic!("expected a generation run, got {:?}", other.is_some()),
    }
    let failure = failure_missing_module();
    assert!(failure.stderr.trim_end().ends_with(missing_module_line()));
    state = cffi_step(&config, state, CffiEvent::GenerationRan { output: failure });

    assert!(matches!(cffi_action(&state), Some(CffiAction::ProbeInterpreter)));
    let probe = ProcessOutput {
        success: true,
        status: "exit status: 0".to_owned(),
        stdout: "True\n".to_owned(),
        stderr: String::new(),
    };
    state = cffi_step(&config, state, CffiEvent::ProbeRan { output: probe });

    assert!(matches!(cffi_action(&state), Some(CffiAction::InstallModule)));
    installs += 1;
    let install = ProcessOutput {
        success: true,
        status: "exit status: 0".to_owned(),
        stdout: "Installed".to_owned(),
        stderr: String::new(),
    };
    state = cffi_step(&config, state, CffiEvent::InstallRan { output: install });

    match cffi_action(&state) {
        Some(CffiAction::RunGeneration { header, attempt }) => {
            assert_eq!(header, "/target/header.h");
            assert_eq!(attempt, 2);
            generations += 1;
        },
        _ => panic!("expected the retried generation run"),
    }
    state = cffi_step(&config, state, CffiEvent::GenerationRan { output: success_output() });

    assert!(matches!(cffi_action(&state), Some(CffiAction::ReadDeclarations)));
    state = cffi_step(
        &config,
        state,
        CffiEvent::DeclarationsRead { result: Ok("# declarations".to_owned()) },
    );
    match state {
        CffiState::Done { declarations, warnings } => {
            assert_eq!(declarations, "# declarations");
            assert_eq!(warnings, "a warning\n");
        },
        _ => panic!("expected the machine to finish"),
    }
    assert_eq!(installs, 1);
    assert_eq!(generations, 2);
}

#[test]
fn second_missing_module_failure_is_terminal() {
    // After the one retry, another missing-module failure surfaces the full
    // subprocess context instead of installing again.
    let config = config();
    let state = CffiState::AwaitGeneration { header: "/h.h".to_owned(), attempt: 2 };
    let failure = failure_missing_module();
    let state = cffi_step(&config, state, CffiEvent::GenerationRan { output: failure });
    match state {
        CffiState::Failed { message } => {
            assert!(message.starts_with(
                "Failed to generate cffi declarations using /venv/bin/python: exit status: 1"
            ));
            assert!(message.trim_end().ends_with(missing_module_line()));
        },
        _ => panic!("expected a terminal failure"),
    }
    assert_eq!(installs_possible_after_attempt_two(), 0);
}

fn installs_possible_after_attempt_two() -> usize {
    // The machine offers no install action from a second-attempt failure.
    let config = config();
    let state = CffiState::AwaitGeneration { header: "/h.h".to_owned(), attempt: 2 };
    let state = cffi_step(
        &config,
        state,
        CffiEvent::GenerationRan { output: failure_missing_module() },
    );
    match cffi_action(&state) {
        Some(CffiAction::InstallModule) => 1,
        _ => 0,
    }
}

#[test]
fn probe_not_isolated_surfaces_the_original_failure() {
    let config = config();
    let state = CffiState::AwaitGeneration { header: "/h.h".to_owned(), attempt: 1 };
    let state = cffi_step(
        &config,
        state,
        CffiEvent::GenerationRan { output: failure_missing_module() },
    );
    let probe = ProcessOutput {
        success: true,
        status: "exit status: 0".to_owned(),
        stdout: "False\n".to_owned(),
        stderr: String::new(),
    };
    let state = cffi_step(&config, state, CffiEvent::ProbeRan { output: probe });
    match state {
        CffiState::Failed { message } => {
            // The original failure is kept, and the error instructs a manual
            // install.
            assert!(message.contains("--- Stderr:\n"));
            assert!(message.contains(missing_module_line()));
            assert!(message.ends_with("please install cffi yourself."));
        },
        _ => panic!("expected a terminal failure"),
    }
}

#[test]
fn failed_install_asks_for_a_manual_install() {
    let config = config();
    let state = CffiState::AwaitInstall { header: "/h.h".to_owned() };
    let install = ProcessOutput {
        success: false,
        status: "exit status: 1".to_owned(),
        stdout: String::new(),
        stderr: "no network".to_owned(),
    };
    let state = cffi_step(&config, state, CffiEvent::InstallRan { output: install });
    match state {
        CffiState::Failed { message } => {
            assert!(message.starts_with("Installing cffi with `/venv/bin/python -m pip install cffi` failed:"));
            assert!(message.ends_with("Please install cffi yourself."));
        },
        _ => panic!("expected a terminal failure"),
    }
}

#[test]
fn missing_user_header_generates_one() {
    let config = config();
    let state = CffiState::AwaitHeaderCheck;
    let state = cffi_step(&config, state, CffiEvent::HeaderChecked { exists: false });
    assert!(matches!(cffi_action(&state), Some(CffiAction::GenerateHeader)));
    let state = cffi_step(
        &config,
        state,
        CffiEvent::HeaderGenerated { result: Ok("/tmp-h/header.h".to_owned()) },
    );
    match cffi_action(&state) {
        Some(CffiAction::RunGeneration { header, attempt }) => {
            assert_eq!(header, "/tmp-h/header.h");
            assert_eq!(attempt, 1);
        },
        _ => panic!("expected a generation run"),
    }
}

#[test]
fn scripts_carry_the_paths() {
    let script = reader_script("/a/header.h", "/b/ffi.py");
    assert!(script.contains("with open(r\"/a/header.h\") as header:"));
    assert!(script.contains("recompiler.make_py_source(ffi, \"ffi\", r\"/b/ffi.py\")"));
    assert_eq!(probe_script(), "import sys\nprint(sys.base_prefix != sys.prefix)");
}

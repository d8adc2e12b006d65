//! The binding-declaration generator protocol: a recovery state machine that
//! drives an external interpreter to turn a C header into loadable declaration
//! source. The machine decides; the surrounding program performs each action
//! (file checks, header generation, subprocess runs) and feeds the outcome
//! back as an event.
use vstd::prelude::*;
use vstd::string::StringExecFns;
use crate::strutil::last_line;
use crate::strutil::last_line_exec;
use crate::strutil::str_eq;
use crate::strutil::trim_exec;
use crate::strutil::trimmed;

verus! {

/// What a finished subprocess reported.
pub struct ProcessOutput {
    pub success: bool,
    pub status: String,
    pub stdout: String,
    pub stderr: String,
}

/// The fixed configuration of one generation run.
pub struct CffiConfig {
    /// The interpreter to invoke.
    pub python: String,
    /// Where a user-supplied header would sit (`{target_dir}/header.h`).
    pub user_header: String,
}

/// What the surrounding program must do next.
pub enum CffiAction {
    /// Check whether the user-supplied header exists as a file.
    CheckUserHeader,
    /// Run the native header generator against the crate's configuration,
    /// overriding preprocessor defines and the include guard, which the
    /// declaration reader does not support.
    GenerateHeader,
    /// Invoke the interpreter on the declaration-reader script for `header`.
    RunGeneration { header: String, attempt: u8 },
    /// Ask the interpreter whether it runs inside an isolated environment.
    ProbeInterpreter,
    /// Install the declaration-reader module through the interpreter's
    /// package installer.
    InstallModule,
    /// Read the generated declaration source from its temporary path.
    ReadDeclarations,
}

/// The machine's position in the protocol.
pub enum CffiState {
    /// Waiting to learn whether a user-supplied header exists.
    AwaitHeaderCheck,
    /// Waiting for the generated header.
    AwaitHeaderGen,
    /// Waiting for the declaration-reader subprocess.
    AwaitGeneration { header: String, attempt: u8 },
    /// The reader failed for want of its module; waiting for the
    /// isolated-environment probe. The failing output is kept: it is surfaced
    /// verbatim if recovery is not possible.
    AwaitProbe { header: String, failure: ProcessOutput },
    /// Waiting for the module installer.
    AwaitInstall { header: String },
    /// Generation succeeded; waiting for the declaration text. The reader's
    /// standard error is kept as warnings, never swallowed.
    AwaitRead { warnings: String },
    /// The declaration source, with any warnings the reader printed.
    Done { declarations: String, warnings: String },
    /// A terminal failure, with full context.
    Failed { message: String },
}

/// The stderr line that marks the reader module as missing.
pub fn missing_module_line() -> (r: &'static str)
    ensures
        r@ == "ModuleNotFoundError: No module named 'cffi'"@,
{
    "ModuleNotFoundError: No module named 'cffi'"
}

/// The terminal message for a failed generation run, carrying the subprocess's
/// exit status, standard output and standard error verbatim.
pub open spec fn generation_failed_chars(
    python: Seq<char>,
    status: Seq<char>,
    stdout: Seq<char>,
    stderr: Seq<char>,
) -> Seq<char> {
    "Failed to generate cffi declarations using "@ + python + ": "@ + status + "\n--- Stdout:\n"@
        + stdout + "\n--- Stderr:\n"@ + stderr
}

/// The terminal message for a failed module install, asking for a manual
/// install.
pub open spec fn install_failed_chars(
    python: Seq<char>,
    status: Seq<char>,
    stdout: Seq<char>,
    stderr: Seq<char>,
) -> Seq<char> {
    "Installing cffi with `"@ + python + " -m pip install cffi` failed: "@ + status
        + "\n--- Stdout:\n"@ + stdout + "\n--- Stderr:\n"@ + stderr
        + "\n---\nPlease install cffi yourself."@
}

/// The terminal message when the reader module is missing but the
/// interpreter does not run inside an isolated environment: the original
/// failure, verbatim, followed by an instruction to install the module
/// manually.
pub open spec fn manual_install_chars(
    python: Seq<char>,
    status: Seq<char>,
    stdout: Seq<char>,
    stderr: Seq<char>,
) -> Seq<char> {
    generation_failed_chars(python, status, stdout, stderr)
        + "\n---\nThe interpreter does not run inside a virtualenv; please install cffi yourself."@
}

/// The terminal message when the header generator fails.
pub open spec fn header_failed_chars(message: Seq<char>) -> Seq<char> {
    "Failed to generate the C header: "@ + message
}

/// The terminal message when the generated declaration source cannot be read.
pub open spec fn read_failed_chars(message: Seq<char>) -> Seq<char> {
    "Failed to read the generated declarations: "@ + message
}

/// What the surrounding program reports back.
pub enum CffiEvent {
    /// Whether the user-supplied header exists as a file.
    HeaderChecked { exists: bool },
    /// The generated header's path, or the generator's error.
    HeaderGenerated { result: Result<String, String> },
    /// The declaration-reader subprocess finished.
    GenerationRan { output: ProcessOutput },
    /// The isolated-environment probe finished.
    ProbeRan { output: ProcessOutput },
    /// The installer finished.
    InstallRan { output: ProcessOutput },
    /// The declaration text, or the read error.
    DeclarationsRead { result: Result<String, String> },
}

/// True when a failing reader run reports exactly the missing-module line as
/// the last line of its standard error.
pub open spec fn missing_module_failure(output: ProcessOutput) -> bool {
    !output.success && last_line(output.stderr@) == "ModuleNotFoundError: No module named 'cffi'"@
}

/// The machine's whole transition relation: what the next state must be for a
/// state and the event it awaited. An event a state does not await leaves the
/// machine where it was.
pub open spec fn cffi_step_spec(
    config: CffiConfig,
    state: CffiState,
    event: CffiEvent,
    r: CffiState,
) -> bool {
    match (state, event) {
        (CffiState::AwaitHeaderCheck, CffiEvent::HeaderChecked { exists }) => if exists {
            r matches CffiState::AwaitGeneration { header, attempt } && header@
                == config.user_header@ && attempt == 1
        } else {
            r is AwaitHeaderGen
        },
        (CffiState::AwaitHeaderGen, CffiEvent::HeaderGenerated { result }) => match result {
            Result::Ok(h) => r matches CffiState::AwaitGeneration { header, attempt } && header@
                == h@ && attempt == 1,
            Result::Err(m) => r matches CffiState::Failed { message } && message@
                == header_failed_chars(m@),
        },
        (CffiState::AwaitGeneration { header, attempt }, CffiEvent::GenerationRan { output }) => if output.success {
            r matches CffiState::AwaitRead { warnings } && warnings@ == output.stderr@
        } else if missing_module_failure(output) && attempt == 1 {
            r matches CffiState::AwaitProbe { header: h, failure } && h@ == header@ && failure
                == output
        } else {
            r matches CffiState::Failed { message } && message@ == generation_failed_chars(
                config.python@,
                output.status@,
                output.stdout@,
                output.stderr@,
            )
        },
        (CffiState::AwaitProbe { header, failure }, CffiEvent::ProbeRan { output }) => if trimmed(
            output.stdout@,
        ) == "True"@ {
            r matches CffiState::AwaitInstall { header: h } && h@ == header@
        } else {
            // Not isolated (or the probe was inconclusive): a terminal error
            // that carries the failure and instructs a manual install.
            r matches CffiState::Failed { message } && message@ == manual_install_chars(
                config.python@,
                failure.status@,
                failure.stdout@,
                failure.stderr@,
            )
        },
        (CffiState::AwaitInstall { header }, CffiEvent::InstallRan { output }) => if output.success {
            r matches CffiState::AwaitGeneration { header: h, attempt } && h@ == header@ && attempt
                == 2
        } else {
            r matches CffiState::Failed { message } && message@ == install_failed_chars(
                config.python@,
                output.status@,
                output.stdout@,
                output.stderr@,
            )
        },
        (CffiState::AwaitRead { warnings }, CffiEvent::DeclarationsRead { result }) => match result {
            Result::Ok(text) => r matches CffiState::Done { declarations, warnings: w }
                && declarations@ == text@ && w@ == warnings@,
            Result::Err(m) => r matches CffiState::Failed { message } && message@
                == read_failed_chars(m@),
        },
        (s, _) => r == s,
    }
}

fn generation_failed_message(python: &str, output: &ProcessOutput) -> (r: String)
    ensures
        r@ == generation_failed_chars(python@, output.status@, output.stdout@, output.stderr@),
{
    let mut m = "Failed to generate cffi declarations using ".to_owned();
    m.append(python);
    m.append(": ");
    m.append(output.status.as_str());
    m.append("\n--- Stdout:\n");
    m.append(output.stdout.as_str());
    m.append("\n--- Stderr:\n");
    m.append(output.stderr.as_str());
    proof {
        assert(m@ =~= generation_failed_chars(
            python@,
            output.status@,
            output.stdout@,
            output.stderr@,
        ));
    }
    m
}

/// Takes one protocol step: feeds the event the current state awaited into
/// the machine, exactly as `cffi_step_spec` states it.
pub fn cffi_step(config: &CffiConfig, state: CffiState, event: CffiEvent) -> (r: CffiState)
    ensures
        cffi_step_spec(*config, state, event, r),
{
    let ghost s0 = state;
    let ghost e0 = event;
    match (state, event) {
        (CffiState::AwaitHeaderCheck, CffiEvent::HeaderChecked { exists }) => {
            if exists {
                CffiState::AwaitGeneration { header: config.user_header.clone(), attempt: 1 }
            } else {
                CffiState::AwaitHeaderGen
            }
        },
        (CffiState::AwaitHeaderGen, CffiEvent::HeaderGenerated { result }) => match result {
            Ok(h) => CffiState::AwaitGeneration { header: h, attempt: 1 },
            Err(m) => {
                let mut message = "Failed to generate the C header: ".to_owned();
                message.append(m.as_str());
                proof {
                    assert(message@ =~= header_failed_chars(m@));
                }
                CffiState::Failed { message }
            },
        },
        (CffiState::AwaitGeneration { header, attempt }, CffiEvent::GenerationRan { output }) => {
            if output.success {
                CffiState::AwaitRead { warnings: output.stderr }
            } else {
                let last = last_line_exec(output.stderr.as_str());
                if str_eq(last.as_str(), missing_module_line()) && attempt == 1 {
                    CffiState::AwaitProbe { header, failure: output }
                } else {
                    let message = generation_failed_message(config.python.as_str(), &output);
                    CffiState::Failed { message }
                }
            }
        },
        (CffiState::AwaitProbe { header, failure }, CffiEvent::ProbeRan { output }) => {
            let verdict = trim_exec(output.stdout.as_str());
            if str_eq(verdict.as_str(), "True") {
                CffiState::AwaitInstall { header }
            } else {
                let mut message = generation_failed_message(config.python.as_str(), &failure);
                message.append(
                    "\n---\nThe interpreter does not run inside a virtualenv; please install cffi yourself.",
                );
                proof {
                    assert(message@ =~= manual_install_chars(
                        config.python@,
                        failure.status@,
                        failure.stdout@,
                        failure.stderr@,
                    ));
                }
                CffiState::Failed { message }
            }
        },
        (CffiState::AwaitInstall { header }, CffiEvent::InstallRan { output }) => {
            if output.success {
                CffiState::AwaitGeneration { header, attempt: 2 }
            } else {
                let mut message = "Installing cffi with `".to_owned();
                message.append(config.python.as_str());
                message.append(" -m pip install cffi` failed: ");
                message.append(output.status.as_str());
                message.append("\n--- Stdout:\n");
                message.append(output.stdout.as_str());
                message.append("\n--- Stderr:\n");
                message.append(output.stderr.as_str());
                message.append("\n---\nPlease install cffi yourself.");
                proof {
                    assert(message@ =~= install_failed_chars(
                        config.python@,
                        output.status@,
                        output.stdout@,
                        output.stderr@,
                    ));
                }
                CffiState::Failed { message }
            }
        },
        (CffiState::AwaitRead { warnings }, CffiEvent::DeclarationsRead { result }) => match result {
            Ok(text) => CffiState::Done { declarations: text, warnings },
            Err(m) => {
                let mut message = "Failed to read the generated declarations: ".to_owned();
                message.append(m.as_str());
                proof {
                    assert(message@ =~= read_failed_chars(m@));
                }
                CffiState::Failed { message }
            },
        },
        (other, _) => other,
    }
}

/// What the surrounding program must do in each state; `None` for the two
/// terminal states.
pub fn cffi_action(state: &CffiState) -> (r: Option<CffiAction>)
    ensures
        match state {
            CffiState::AwaitHeaderCheck => r matches Some(a) && a is CheckUserHeader,
            CffiState::AwaitHeaderGen => r matches Some(a) && a is GenerateHeader,
            CffiState::AwaitGeneration { header, attempt } => r matches Some(a) && (a matches
                CffiAction::RunGeneration { header: h, attempt: n } && h@ == header@ && n
                == attempt),
            CffiState::AwaitProbe { .. } => r matches Some(a) && a is ProbeInterpreter,
            CffiState::AwaitInstall { .. } => r matches Some(a) && a is InstallModule,
            CffiState::AwaitRead { .. } => r matches Some(a) && a is ReadDeclarations,
            CffiState::Done { .. } => r is None,
            CffiState::Failed { .. } => r is None,
        },
{
    match state {
        CffiState::AwaitHeaderCheck => Some(CffiAction::CheckUserHeader),
        CffiState::AwaitHeaderGen => Some(CffiAction::GenerateHeader),
        CffiState::AwaitGeneration { header, attempt } => Some(
            CffiAction::RunGeneration { header: header.clone(), attempt: *attempt },
        ),
        CffiState::AwaitProbe { .. } => Some(CffiAction::ProbeInterpreter),
        CffiState::AwaitInstall { .. } => Some(CffiAction::InstallModule),
        CffiState::AwaitRead { .. } => Some(CffiAction::ReadDeclarations),
        CffiState::Done { .. } => None,
        CffiState::Failed { .. } => None,
    }
}

/// The declaration-reader script for the interpreter: reads the header,
/// translates it, and writes the loadable declaration source to `ffi_py`.
/// Raw-string path literals keep backslash-bearing paths intact.
pub open spec fn reader_script_chars(header: Seq<char>, ffi_py: Seq<char>) -> Seq<char> {
    "\nimport cffi\nfrom cffi import recompiler\n\nffi = cffi.FFI()\nwith open(r\""@ + header
        + "\") as header:\n    ffi.cdef(header.read())\nrecompiler.make_py_source(ffi, \"ffi\", r\""@
        + ffi_py + "\")\n"@
}

/// Renders the declaration-reader script.
pub fn reader_script(header: &str, ffi_py: &str) -> (r: String)
    ensures
        r@ == reader_script_chars(header@, ffi_py@),
{
    let mut s = "\nimport cffi\nfrom cffi import recompiler\n\nffi = cffi.FFI()\nwith open(r\""
        .to_owned();
    s.append(header);
    s.append("\") as header:\n    ffi.cdef(header.read())\nrecompiler.make_py_source(ffi, \"ffi\", r\"");
    s.append(ffi_py);
    s.append("\")\n");
    proof {
        assert(s@ =~= reader_script_chars(header@, ffi_py@));
    }
    s
}

/// The script that asks the interpreter whether it runs inside an isolated
/// environment, printing `True` or `False`.
pub fn probe_script() -> (r: &'static str)
    ensures
        r@ == "import sys\nprint(sys.base_prefix != sys.prefix)"@,
{
    "import sys\nprint(sys.base_prefix != sys.prefix)"
}

/// The one-retry bound of the recovery protocol: when the first generation run
/// fails for want of the reader module, the probe reports an isolated
/// environment and the install succeeds, the machine probes, installs, and
/// retries exactly once — the retry runs as attempt two, and any failure of
/// the retry is terminal, even the missing-module failure again.
pub proof fn lemma_installer_runs_once(
    config: CffiConfig,
    header: String,
    first: ProcessOutput,
    probe: ProcessOutput,
    install: ProcessOutput,
    second: ProcessOutput,
    s1: CffiState,
    s2: CffiState,
    s3: CffiState,
    s4: CffiState,
)
    requires
        missing_module_failure(first),
        trimmed(probe.stdout@) == "True"@,
        install.success,
        !second.success,
        cffi_step_spec(
            config,
            CffiState::AwaitGeneration { header, attempt: 1 },
            CffiEvent::GenerationRan { output: first },
            s1,
        ),
        cffi_step_spec(config, s1, CffiEvent::ProbeRan { output: probe }, s2),
        cffi_step_spec(config, s2, CffiEvent::InstallRan { output: install }, s3),
        cffi_step_spec(config, s3, CffiEvent::GenerationRan { output: second }, s4),
    ensures
        s1 matches CffiState::AwaitProbe { header: h, failure } && h@ == header@ && failure
            == first,
        s2 matches CffiState::AwaitInstall { header: h } && h@ == header@,
        s3 matches CffiState::AwaitGeneration { header: h, attempt } && h@ == header@ && attempt
            == 2,
        s4 matches CffiState::Failed { message } && message@ == generation_failed_chars(
            config.python@,
            second.status@,
            second.stdout@,
            second.stderr@,
        ),
{
}

} // verus!

//! The build message interpreter: consumes the build driver's structured
//! output stream one message at a time, detects the single executable
//! artifact a unit must produce, accumulates compiler diagnostics, and
//! reconciles the process exit into one `BenchmarkGroup` or one `BuildError`.
use crate::strutil::i32_to_string;
use crate::strutil::int_digits;
use crate::strutil::str_eq;
use crate::suite::BenchmarkGroup;
use vstd::prelude::*;
use vstd::string::StringExecFns;

verus! {

/// One message of the structured build-output stream, reduced to the parts
/// this library reads.
#[derive(Debug)]
pub enum BuildMessage {
    /// The compiler produced an artifact; `executable` is its path, when the
    /// artifact has one, and `target_kinds` the kinds of the compiled target.
    Artifact { executable: Option<String>, target_kinds: Vec<String> },
    /// A line that is not a structured message, forwarded verbatim.
    Text { line: String },
    /// A compiler diagnostic; `rendered` is its display form when present,
    /// `message` the bare text.
    Diagnostic { rendered: Option<String>, message: String },
    /// Any other structured message; ignored on purpose.
    Other,
}

/// The mathematical shape of a build message.
pub enum MessageView {
    Artifact { executable: Option<Seq<char>>, target_kinds: Seq<Seq<char>> },
    Text { line: Seq<char> },
    Diagnostic { rendered: Option<Seq<char>>, message: Seq<char> },
    Other,
}

impl DeepView for BuildMessage {
    type V = MessageView;

    open spec fn deep_view(&self) -> MessageView {
        match self {
            BuildMessage::Artifact { executable, target_kinds } => MessageView::Artifact {
                executable: executable.deep_view(),
                target_kinds: target_kinds.deep_view(),
            },
            BuildMessage::Text { line } => MessageView::Text { line: line@ },
            BuildMessage::Diagnostic { rendered, message } => MessageView::Diagnostic {
                rendered: rendered.deep_view(),
                message: message@,
            },
            BuildMessage::Other => MessageView::Other,
        }
    }
}

/// The message that one line of the build driver's output denotes; a function
/// of the line alone.
pub uninterp spec fn parsed_message(line: Seq<char>) -> MessageView;

/// Relies on `serde_json::from_str::<cargo_metadata::Message>`: which
/// structured message a line of build output denotes is a function of the
/// line alone. A line that does not parse as a structured message is plain
/// text, as the build driver's message stream defines it.
#[verifier::external_body]
fn parse_message_line(line: &str) -> (m: BuildMessage)
    ensures
        m.deep_view() == parsed_message(line@),
{
    match serde_json::from_str::<cargo_metadata::Message>(line) {
        Ok(cargo_metadata::Message::CompilerArtifact(a)) => BuildMessage::Artifact {
            executable: a.executable.map(|p| p.into_string()),
            target_kinds: a.target.kind.iter().map(|k| k.to_string()).collect(),
        },
        Ok(cargo_metadata::Message::CompilerMessage(m)) => BuildMessage::Diagnostic {
            rendered: m.message.rendered,
            message: m.message.message,
        },
        Ok(_) => BuildMessage::Other,
        Err(_) => BuildMessage::Text { line: line.to_owned() },
    }
}

/// The benchmark names that a benchmark executable's `list` output denotes:
/// `None` when the bytes are not a well-formed list. A function of the bytes
/// alone.
pub uninterp spec fn parsed_name_list(bytes: Seq<u8>) -> Option<Seq<Seq<char>>>;

/// Relies on `serde_json::from_slice::<Vec<String>>`: whether the bytes parse
/// as a list of strings, and which, is a function of the bytes alone; the
/// error text is the parser's rendering of what went wrong.
#[verifier::external_body]
fn parse_name_list(bytes: &[u8]) -> (r: Result<Vec<String>, String>)
    ensures
        match r {
            Ok(names) => parsed_name_list(bytes@) == Some(names.deep_view()),
            Err(_) => parsed_name_list(bytes@) is None,
        },
{
    match serde_json::from_slice::<Vec<String>>(bytes) {
        Ok(names) => Ok(names),
        Err(e) => Err(format!("{e:?}")),
    }
}

/// Whether one of the target kinds is the executable-binary kind.
pub open spec fn has_bin_kind(kinds: Seq<Seq<char>>) -> bool {
    exists|i: int| 0 <= i < kinds.len() && #[trigger] kinds[i] == "bin"@
}

/// Decides whether one of the target kinds is the executable-binary kind.
pub fn kinds_have_bin(kinds: &Vec<String>) -> (r: bool)
    ensures
        r == has_bin_kind(kinds.deep_view()),
{
    let mut i: usize = 0;
    while i < kinds.len()
        invariant
            0 <= i <= kinds.len(),
            forall|j: int| 0 <= j < i ==> #[trigger] kinds.deep_view()[j] != "bin"@,
        decreases kinds.len() - i,
    {
        if str_eq(kinds[i].as_str(), "bin") {
            assert(kinds.deep_view()[i as int] == "bin"@);
            return true;
        }
        i = i + 1;
    }
    false
}

/// Why one unit failed to produce a benchmark group.
#[derive(Debug)]
pub enum BuildError {
    /// The unit's build emitted more than one executable artifact.
    MultipleBinaries { group: String },
    /// The build succeeded but emitted no executable artifact.
    NoBinary { group: String },
    /// The build process exited unsuccessfully.
    CompilationFailed { exit_code: i32, diagnostics: String },
    /// The built executable's benchmark list could not be read.
    EnumerationFailed { binary: String, detail: String },
}

impl BuildError {
    /// The error rendered as one line (or, for a failed compilation, the
    /// exit code followed by the accumulated diagnostics).
    pub fn message(&self) -> (r: String)
        ensures
            match self {
                BuildError::MultipleBinaries { group } => r@ == "Runtime benchmark group `"@
                    + group@ + "` has produced multiple binaries"@,
                BuildError::NoBinary { group } => r@ == "Runtime benchmark group `"@ + group@
                    + "` has not produced any binary"@,
                BuildError::CompilationFailed { exit_code, diagnostics } => r@
                    == "Failed to compile runtime benchmark, exit code "@ + int_digits(
                    *exit_code as int,
                ) + "\n"@ + diagnostics@,
                BuildError::EnumerationFailed { binary, detail } => r@
                    == "Cannot gather benchmarks from `"@ + binary@ + "`: "@ + detail@,
            },
    {
        match self {
            BuildError::MultipleBinaries { group } => {
                let mut r = String::from_str("Runtime benchmark group `");
                r.append(group.as_str());
                r.append("` has produced multiple binaries");
                r
            },
            BuildError::NoBinary { group } => {
                let mut r = String::from_str("Runtime benchmark group `");
                r.append(group.as_str());
                r.append("` has not produced any binary");
                r
            },
            BuildError::CompilationFailed { exit_code, diagnostics } => {
                let mut r = String::from_str("Failed to compile runtime benchmark, exit code ");
                r.append(i32_to_string(*exit_code).as_str());
                r.append("\n");
                r.append(diagnostics.as_str());
                r
            },
            BuildError::EnumerationFailed { binary, detail } => {
                let mut r = String::from_str("Cannot gather benchmarks from `");
                r.append(binary.as_str());
                r.append("`: ");
                r.append(detail.as_str());
                r
            },
        }
    }
}

/// What the caller driving a build must do after one message.
#[derive(Debug)]
pub enum StepAction {
    /// Nothing; the message was ignored.
    Nothing,
    /// Forward this plain-text line verbatim.
    RelayLine { line: String },
    /// Show this diagnostic text; it has also been recorded.
    RelayDiagnostic { text: String },
    /// Run the built executable with the single `list` argument and hand its
    /// standard output to `record_enumerator_output`.
    RunEnumerator { binary: String },
}

/// The state of interpreting one unit's build-output stream.
#[derive(Debug)]
pub struct BuildInterpreter {
    /// The name of the unit being built.
    pub group_name: String,
    /// The group recorded once the unit's executable was found and its
    /// benchmarks enumerated.
    pub found: Option<BenchmarkGroup>,
    /// Every diagnostic's display text, concatenated in arrival order.
    pub diagnostics: String,
}

impl BuildInterpreter {
    /// Starts interpreting the build of the unit named `group_name`.
    pub fn new(group_name: String) -> (r: Self)
        ensures
            r.group_name == group_name,
            r.found is None,
            r.diagnostics@ == Seq::<char>::empty(),
    {
        BuildInterpreter { group_name, found: None, diagnostics: String::new() }
    }

    /// Whether the unit's executable artifact has already been recorded.
    pub fn artifact_found(&self) -> (r: bool)
        ensures
            r == (self.found is Some),
    {
        self.found.is_some()
    }

    /// Interprets one message. An artifact message whose target is an
    /// executable binary asks the caller to enumerate it — or fails the unit
    /// when one executable was already recorded, since a unit must produce
    /// exactly one. Text lines are relayed; diagnostics are recorded and
    /// relayed; all other messages are ignored.
    pub fn step(&mut self, msg: BuildMessage) -> (r: Result<StepAction, BuildError>)
        ensures
            match msg {
                BuildMessage::Artifact { executable, target_kinds } => match executable {
                    Some(p) => if has_bin_kind(target_kinds.deep_view()) {
                        if old(self).found is Some {
                            &&& r == Err::<StepAction, BuildError>(
                                BuildError::MultipleBinaries { group: old(self).group_name },
                            )
                            &&& *final(self) == *old(self)
                        } else {
                            &&& r == Ok::<StepAction, BuildError>(
                                StepAction::RunEnumerator { binary: p },
                            )
                            &&& *final(self) == *old(self)
                        }
                    } else {
                        r == Ok::<StepAction, BuildError>(StepAction::Nothing) && *final(self) == *old(
                            self,
                        )
                    },
                    None => r == Ok::<StepAction, BuildError>(StepAction::Nothing) && *final(self)
                        == *old(self),
                },
                BuildMessage::Text { line } => r == Ok::<StepAction, BuildError>(
                    StepAction::RelayLine { line },
                ) && *final(self) == *old(self),
                BuildMessage::Diagnostic { rendered, message } => {
                    let text = match rendered {
                        Some(t) => t,
                        None => message,
                    };
                    &&& r == Ok::<StepAction, BuildError>(StepAction::RelayDiagnostic { text })
                    &&& final(self).diagnostics@ == old(self).diagnostics@ + text@
                    &&& final(self).found == old(self).found
                    &&& final(self).group_name == old(self).group_name
                },
                BuildMessage::Other => r == Ok::<StepAction, BuildError>(StepAction::Nothing)
                    && *final(self) == *old(self),
            },
    {
        match msg {
            BuildMessage::Artifact { executable, target_kinds } => match executable {
                Some(p) => {
                    if kinds_have_bin(&target_kinds) {
                        if self.found.is_some() {
                            Err(BuildError::MultipleBinaries { group: self.group_name.clone() })
                        } else {
                            Ok(StepAction::RunEnumerator { binary: p })
                        }
                    } else {
                        Ok(StepAction::Nothing)
                    }
                },
                None => Ok(StepAction::Nothing),
            },
            BuildMessage::Text { line } => Ok(StepAction::RelayLine { line }),
            BuildMessage::Diagnostic { rendered, message } => {
                let text = match rendered {
                    Some(t) => t,
                    None => message,
                };
                self.diagnostics.append(text.as_str());
                Ok(StepAction::RelayDiagnostic { text })
            },
            BuildMessage::Other => Ok(StepAction::Nothing),
        }
    }

    /// Parses one line of the build driver's output and interprets the
    /// message it denotes, as `step` does.
    pub fn consume_line(&mut self, line: &str) -> (r: Result<StepAction, BuildError>)
        ensures
            match parsed_message(line@) {
                MessageView::Artifact { executable, target_kinds } => match executable {
                    Some(p) => if has_bin_kind(target_kinds) {
                        if old(self).found is Some {
                            &&& r matches Err(e)
                            &&& e matches BuildError::MultipleBinaries { group }
                            &&& group == old(self).group_name
                            &&& *final(self) == *old(self)
                        } else {
                            &&& r matches Ok(a)
                            &&& a matches StepAction::RunEnumerator { binary }
                            &&& binary@ == p
                            &&& *final(self) == *old(self)
                        }
                    } else {
                        r matches Ok(a) && a is Nothing && *final(self) == *old(self)
                    },
                    None => r matches Ok(a) && a is Nothing && *final(self) == *old(self),
                },
                MessageView::Text { line: l } => {
                    &&& r matches Ok(a)
                    &&& a matches StepAction::RelayLine { line: rl }
                    &&& rl@ == l
                    &&& *final(self) == *old(self)
                },
                MessageView::Diagnostic { rendered, message } => {
                    let text = match rendered {
                        Some(t) => t,
                        None => message,
                    };
                    &&& r matches Ok(a)
                    &&& a matches StepAction::RelayDiagnostic { text: rt }
                    &&& rt@ == text
                    &&& final(self).diagnostics@ == old(self).diagnostics@ + text
                    &&& final(self).found == old(self).found
                    &&& final(self).group_name == old(self).group_name
                },
                MessageView::Other => r matches Ok(a) && a is Nothing && *final(self) == *old(self),
            },
    {
        let m = parse_message_line(line);
        self.step(m)
    }

    /// Records the enumerated benchmarks of the unit's executable:
    /// `exit_success` is whether the executable's `list` run exited
    /// successfully, `output` what it wrote on its standard output. The unit
    /// fails with an enumeration error naming the executable when the run
    /// exited abnormally — whatever it printed — or when the bytes do not
    /// parse as a list of names; otherwise the group is recorded.
    pub fn record_enumerator_output(
        &mut self,
        binary: String,
        exit_success: bool,
        output: &[u8],
    ) -> (r: Result<(), BuildError>)
        requires
            old(self).found is None,
        ensures
            !exit_success ==> {
                &&& r matches Err(e)
                &&& e matches BuildError::EnumerationFailed { binary: b, detail }
                &&& b == binary
                &&& detail@ == "the executable exited unsuccessfully"@
                &&& *final(self) == *old(self)
            },
            exit_success ==> match parsed_name_list(output@) {
                Some(names) => {
                    &&& r is Ok
                    &&& final(self).found matches Some(g)
                    &&& g.binary == binary
                    &&& g.name == old(self).group_name
                    &&& g.benchmark_names.deep_view() == names
                    &&& final(self).diagnostics == old(self).diagnostics
                    &&& final(self).group_name == old(self).group_name
                },
                None => {
                    &&& r matches Err(e)
                    &&& e matches BuildError::EnumerationFailed { binary: b, detail }
                    &&& b == binary
                    &&& *final(self) == *old(self)
                },
            },
    {
        if !exit_success {
            return Err(
                BuildError::EnumerationFailed {
                    binary,
                    detail: String::from_str("the executable exited unsuccessfully"),
                },
            );
        }
        match parse_name_list(output) {
            Ok(names) => {
                self.found = Some(
                    BenchmarkGroup {
                        binary,
                        name: self.group_name.clone(),
                        benchmark_names: names,
                    },
                );
                Ok(())
            },
            Err(detail) => Err(BuildError::EnumerationFailed { binary, detail }),
        }
    }

    /// Reconciles the build process's exit. An unsuccessful exit fails the
    /// unit with the exit code (1 when none is known) and the accumulated
    /// diagnostics; a successful exit yields the recorded group, or the
    /// no-binary error when none was ever recorded.
    pub fn finish(self, success: bool, exit_code: Option<i32>) -> (r: Result<
        BenchmarkGroup,
        BuildError,
    >)
        ensures
            !success ==> r == Err::<BenchmarkGroup, BuildError>(
                BuildError::CompilationFailed {
                    exit_code: (match exit_code {
                        Some(c) => c,
                        None => 1,
                    }),
                    diagnostics: self.diagnostics,
                },
            ),
            success ==> match self.found {
                Some(g) => r == Ok::<BenchmarkGroup, BuildError>(g),
                None => r == Err::<BenchmarkGroup, BuildError>(
                    BuildError::NoBinary { group: self.group_name },
                ),
            },
    {
        if !success {
            let code: i32 = match exit_code {
                Some(c) => c,
                None => 1,
            };
            Err(BuildError::CompilationFailed { exit_code: code, diagnostics: self.diagnostics })
        } else {
            match self.found {
                Some(g) => Ok(g),
                None => Err(BuildError::NoBinary { group: self.group_name }),
            }
        }
    }
}

} // verus!

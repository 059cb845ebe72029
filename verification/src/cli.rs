//! The command line: its arguments, and what it prints while a process runs.

use crate::config::TrainStreamConfig;
use crate::failure::Failure;
use crate::message::ProcessMessage;
use crate::text::{decimal, joined, push_decimal};
use vstd::prelude::*;
use vstd::string::*;

verus! {

/// The arguments of the program.
#[derive(Debug)]
pub struct Cli {
    /// Where to load from, a path or a URL.
    pub source: Option<String>,
    /// Whether to open a window.
    pub with_viewer: bool,
    /// The settings of a training run.
    pub process: TrainStreamConfig,
}

/// Why the arguments make no sense.
#[derive(Clone, Copy, PartialEq, Eq, Structural, Debug)]
pub enum CliError {
    MissingRequiredArgument,
}

impl CliError {
    /// What the user is told.
    pub fn message(&self) -> (r: String)
        ensures
            r@ == "When --with-viewer is false, --source must be provided"@,
    {
        "When --with-viewer is false, --source must be provided".to_owned()
    }
}

impl Cli {
    /// Checks the arguments: without a window, there has to be something to load.
    pub fn validate(self) -> (r: Result<Self, CliError>)
        ensures
            r == if !self.with_viewer && self.source is None {
                Err(CliError::MissingRequiredArgument)
            } else {
                Ok(self)
            },
    {
        if !self.with_viewer && self.source.is_none() {
            return Err(CliError::MissingRequiredArgument);
        }
        Ok(self)
    }
}

/// Whether a window is opened when the arguments do not say so: only if there is nothing
/// to load.
pub fn default_with_viewer(source: &Option<String>) -> (r: bool)
    ensures
        r == (source is None),
{
    source.is_none()
}

/// The lines at the bottom of the terminal.
#[derive(Clone, Copy, PartialEq, Eq, Structural, Debug)]
pub enum Spinner {
    Main,
    Stats,
    Eval,
}

/// One thing that the terminal shows.
#[derive(Debug)]
pub enum UiAction {
    /// Change a line at the bottom.
    Message { spinner: Spinner, text: String },
    /// Move the progress bar.
    Position { pos: u64 },
    /// Print a line; it does not matter if that fails.
    Print { line: String },
    /// Print a line; the process ends if that fails.
    MustPrint { line: String },
}

/// What an action says.
pub enum UiView {
    Message { spinner: Spinner, text: Seq<char> },
    Position { pos: u64 },
    Print { line: Seq<char> },
    MustPrint { line: Seq<char> },
}

impl View for UiAction {
    type V = UiView;

    open spec fn view(&self) -> UiView {
        match self {
            UiAction::Message { spinner, text } => UiView::Message {
                spinner: *spinner,
                text: text@,
            },
            UiAction::Position { pos } => UiView::Position { pos: *pos },
            UiAction::Print { line } => UiView::Print { line: line@ },
            UiAction::MustPrint { line } => UiView::MustPrint { line: line@ },
        }
    }
}

/// Actions as what they say.
pub open spec fn ui_views(actions: Seq<UiAction>) -> Seq<UiView> {
    actions.map_values(|a: UiAction| a@)
}

/// What follows a message.
#[derive(Clone, Copy, PartialEq, Eq, Structural, Debug)]
pub enum UiFlow {
    /// Wait for the next message.
    Continue,
    /// Stop listening, and print how long training took.
    Stop,
    /// End with the error that came.
    Fail,
}

/// The line about evaluation before anything is known of the dataset.
pub open spec fn eval_every_text(eval_every: nat) -> Seq<char> {
    "evaluating every "@ + decimal(eval_every) + " steps"@
}

/// The line about evaluation once the dataset is there.
pub open spec fn eval_views_text(views: nat, eval_every: nat) -> Seq<char> {
    "evaluating "@ + decimal(views) + " views every "@ + decimal(eval_every) + " steps"@
}

/// The line about the dataset.
pub open spec fn dataset_text(train_views: nat, eval_views: nat) -> Seq<char> {
    "Loading dataset with "@ + decimal(train_views) + " training, "@ + decimal(eval_views)
        + " eval views"@
}

/// The line about an evaluation.
pub open spec fn eval_text(iter: nat, psnr: Seq<char>, ssim: Seq<char>) -> Seq<char> {
    "Eval iter "@ + decimal(iter) + ": PSNR "@ + psnr + ", ssim "@ + ssim
}

pub open spec fn say(spinner: Spinner, text: Seq<char>) -> UiView {
    UiView::Message { spinner, text }
}

/// What the terminal shows at the beginning.
pub open spec fn opening(eval_every: nat, debug: bool) -> Seq<UiView> {
    let s = seq![
        say(Spinner::Eval, eval_every_text(eval_every)),
        say(Spinner::Stats, "Starting up"@),
    ];
    if debug {
        s.push(
            UiView::Print {
                line: "ℹ️  running in debug mode, compile with --release for best performance"@,
            },
        )
    } else {
        s
    }
}

/// What the terminal shows when `message` comes.
pub open spec fn reaction(message: ProcessMessage, eval_every: nat) -> Seq<UiView> {
    match message {
        ProcessMessage::NewSource => seq![say(Spinner::Main, "Starting process..."@)],
        ProcessMessage::StartLoading { training } => if training {
            seq![say(Spinner::Main, "Loading data..."@)]
        } else {
            seq![
                UiView::Print {
                    line: "❌ Only training is supported in the CLI (try passing --with-viewer to view a splat)"@,
                },
            ]
        },
        ProcessMessage::Dataset { train_views, eval_views } => {
            let count = match eval_views {
                Some(n) => n as nat,
                None => 0,
            };
            let s = seq![say(Spinner::Main, dataset_text(train_views as nat, count))];
            if eval_views is Some {
                s.push(say(Spinner::Eval, eval_views_text(count, eval_every)))
            } else {
                s
            }
        },
        ProcessMessage::DoneLoading => seq![
            say(Spinner::Main, "Completed loading"@),
            say(Spinner::Stats, "Completed loading"@),
        ],
        ProcessMessage::TrainStep { iter, .. } => seq![
            say(Spinner::Main, "Training"@),
            UiView::Position { pos: iter as u64 },
        ],
        ProcessMessage::RefineStep { cur_splat_count, .. } => seq![
            say(Spinner::Stats, "Current splat count "@ + decimal(cur_splat_count as nat)),
        ],
        ProcessMessage::EvalResult { iter, avg_psnr, avg_ssim } => seq![
            say(Spinner::Eval, eval_text(iter as nat, avg_psnr@, avg_ssim@)),
        ],
        ProcessMessage::Warning { .. } => seq![UiView::MustPrint { line: "⚠️: {error}"@ }],
        _ => Seq::empty(),
    }
}

/// Whether `message` ends the listening: splats that are only looked at.
pub open spec fn ends(message: ProcessMessage) -> bool {
    message matches ProcessMessage::StartLoading { training: false }
}

/// How long training took so far, once `message` came.
pub open spec fn elapsed_after(message: ProcessMessage, before: u64) -> u64 {
    match message {
        ProcessMessage::TrainStep { total_elapsed_secs, .. } => total_elapsed_secs,
        _ => before,
    }
}

/// What the terminal shows while a process runs.
pub struct ProcessUi {
    pub eval_every: u32,
    pub elapsed_secs: u64,
}

fn line(spinner: Spinner, text: &str) -> (r: UiAction)
    ensures
        r@ == say(spinner, text@),
{
    UiAction::Message { spinner, text: text.to_owned() }
}

/// Begins to show what a process does.
pub fn process_ui(eval_every: u32, debug: bool) -> (r: (ProcessUi, Vec<UiAction>))
    ensures
        r.0.eval_every == eval_every,
        r.0.elapsed_secs == 0,
        ui_views(r.1@) == opening(eval_every as nat, debug),
{
    let mut out: Vec<UiAction> = Vec::new();
    let mut text: String = "evaluating every ".to_owned();
    push_decimal(&mut text, eval_every as u64);
    text.append(" steps");
    out.push(UiAction::Message { spinner: Spinner::Eval, text });
    out.push(line(Spinner::Stats, "Starting up"));
    if debug {
        out.push(
            UiAction::Print {
                line: "ℹ️  running in debug mode, compile with --release for best performance".to_owned(),
            },
        );
    }
    assert(ui_views(out@) =~= opening(eval_every as nat, debug));
    (ProcessUi { eval_every, elapsed_secs: 0 }, out)
}

impl ProcessUi {
    /// Takes in a message of the process, and says what the terminal shows.
    pub fn on_message(&mut self, message: &Result<ProcessMessage, Failure>) -> (r: (
        Vec<UiAction>,
        UiFlow,
    ))
        ensures
            final(self).eval_every == old(self).eval_every,
            match message {
                Ok(m) => {
                    &&& ui_views(r.0@) == reaction(*m, old(self).eval_every as nat)
                    &&& r.1 == if ends(*m) {
                        UiFlow::Stop
                    } else {
                        UiFlow::Continue
                    }
                    &&& final(self).elapsed_secs == elapsed_after(*m, old(self).elapsed_secs)
                },
                Err(_) => {
                    &&& ui_views(r.0@) == seq![UiView::Print { line: "❌ Encountered an error"@ }]
                    &&& r.1 == UiFlow::Fail
                    &&& final(self).elapsed_secs == old(self).elapsed_secs
                },
            },
    {
        let mut out: Vec<UiAction> = Vec::new();
        let mut flow = UiFlow::Continue;
        let message = match message {
            Ok(m) => m,
            Err(_) => {
                out.push(UiAction::Print { line: "❌ Encountered an error".to_owned() });
                assert(ui_views(out@) =~= seq![
                    UiView::Print { line: "❌ Encountered an error"@ },
                ]);
                return (out, UiFlow::Fail);
            },
        };
        match message {
            ProcessMessage::NewSource => {
                out.push(line(Spinner::Main, "Starting process..."));
            },
            ProcessMessage::StartLoading { training } => {
                if *training {
                    out.push(line(Spinner::Main, "Loading data..."));
                } else {
                    out.push(
                        UiAction::Print {
                            line: "❌ Only training is supported in the CLI (try passing --with-viewer to view a splat)".to_owned(),
                        },
                    );
                    flow = UiFlow::Stop;
                }
            },
            ProcessMessage::Dataset { train_views, eval_views } => {
                let count: u64 = match eval_views {
                    Some(n) => *n,
                    None => 0,
                };
                let mut text: String = "Loading dataset with ".to_owned();
                push_decimal(&mut text, *train_views);
                text.append(" training, ");
                push_decimal(&mut text, count);
                text.append(" eval views");
                out.push(UiAction::Message { spinner: Spinner::Main, text });
                if eval_views.is_some() {
                    let mut text: String = "evaluating ".to_owned();
                    push_decimal(&mut text, count);
                    text.append(" views every ");
                    push_decimal(&mut text, self.eval_every as u64);
                    text.append(" steps");
                    out.push(UiAction::Message { spinner: Spinner::Eval, text });
                }
            },
            ProcessMessage::DoneLoading => {
                out.push(line(Spinner::Main, "Completed loading"));
                out.push(line(Spinner::Stats, "Completed loading"));
            },
            ProcessMessage::TrainStep { iter, total_elapsed_secs, .. } => {
                out.push(line(Spinner::Main, "Training"));
                out.push(UiAction::Position { pos: *iter as u64 });
                self.elapsed_secs = *total_elapsed_secs;
            },
            ProcessMessage::RefineStep { cur_splat_count, .. } => {
                let mut text: String = "Current splat count ".to_owned();
                push_decimal(&mut text, *cur_splat_count as u64);
                out.push(UiAction::Message { spinner: Spinner::Stats, text });
            },
            ProcessMessage::EvalResult { iter, avg_psnr, avg_ssim } => {
                let mut text: String = "Eval iter ".to_owned();
                push_decimal(&mut text, *iter as u64);
                text.append(": PSNR ");
                text.append(avg_psnr.as_str());
                text.append(", ssim ");
                text.append(avg_ssim.as_str());
                out.push(UiAction::Message { spinner: Spinner::Eval, text });
            },
            ProcessMessage::Warning { .. } => {
                out.push(UiAction::MustPrint { line: "⚠️: {error}".to_owned() });
            },
            _ => {},
        }
        assert(ui_views(out@) =~= reaction(*message, self.eval_every as nat));
        (out, flow)
    }

    /// The last line, once the process is over.
    pub fn farewell(&self) -> (r: String)
        ensures
            r@ == "Training took "@ + duration_text(self.elapsed_secs as nat),
    {
        let mut out: String = "Training took ".to_owned();
        let took: String = format_seconds(self.elapsed_secs);
        out.append(took.as_str());
        out
    }
}

/// `value` and its unit, or nothing for zero.
pub open spec fn unit(value: nat, name: Seq<char>) -> Seq<Seq<char>> {
    if value == 0 {
        Seq::empty()
    } else {
        seq![decimal(value) + name]
    }
}

/// `value` and its unit, in the plural if it is not one, or nothing for zero.
pub open spec fn plural_unit(value: nat, name: Seq<char>) -> Seq<Seq<char>> {
    if value > 1 {
        unit(value, name + "s"@)
    } else {
        unit(value, name)
    }
}

/// A number of seconds in words: years of 365.25 days, months of 30.44 days, days, hours,
/// minutes and seconds, as far as they are not zero.
pub open spec fn duration_text(secs: nat) -> Seq<char> {
    let in_year = secs % 31_557_600;
    let in_month = in_year % 2_630_016;
    let in_day = in_month % 86400;
    if secs == 0 {
        "0s"@
    } else {
        joined(
            plural_unit(secs / 31_557_600, "year"@) + plural_unit(in_year / 2_630_016, "month"@)
                + plural_unit(in_month / 86400, "day"@) + unit(in_day / 3600, "h"@) + unit(
                in_day % 3600 / 60,
                "m"@,
            ) + unit(in_day % 60, "s"@),
            " "@,
        )
    }
}

/// `humantime::format_duration` of a whole number of seconds, as text.
#[verifier::external_body]
fn format_seconds(secs: u64) -> (r: String)
    ensures
        r@ == duration_text(secs as nat),
{
    humantime::format_duration(std::time::Duration::from_secs(secs)).to_string()
}

/// Listening ends with splats that are only looked at, and with nothing else that a process
/// says. How long training took is what the last step said.
pub proof fn law_listening(message: ProcessMessage, before: u64)
    ensures
        ends(message) <==> (message matches ProcessMessage::StartLoading { training } && !training),
        message matches ProcessMessage::TrainStep { total_elapsed_secs, .. } ==> elapsed_after(
            message,
            before,
        ) == total_elapsed_secs,
        !(message is TrainStep) ==> elapsed_after(message, before) == before,
{
}

/// What the terminal shows of each message: the numbers are those of the message, each on
/// the line that it belongs to.
pub proof fn law_reactions(message: ProcessMessage, eval_every: nat)
    ensures
        ({
            let shown = reaction(message, eval_every);
            match message {
                ProcessMessage::NewSource => shown.len() == 1 && shown[0] == (UiView::Message {
                    spinner: Spinner::Main,
                    text: "Starting process..."@,
                }),
                ProcessMessage::StartLoading { training } => {
                    &&& shown.len() == 1
                    &&& training ==> shown[0] == (UiView::Message {
                        spinner: Spinner::Main,
                        text: "Loading data..."@,
                    })
                    &&& !training ==> shown[0] == (UiView::Print {
                        line: "❌ Only training is supported in the CLI (try passing --with-viewer to view a splat)"@,
                    })
                },
                ProcessMessage::Dataset { train_views, eval_views } => {
                    &&& shown[0] matches UiView::Message { spinner, text } && spinner is Main
                        && text == "Loading dataset with "@ + decimal(train_views as nat)
                        + " training, "@ + decimal(
                        match eval_views {
                            Some(n) => n as nat,
                            None => 0,
                        },
                    ) + " eval views"@
                    &&& eval_views is None ==> shown.len() == 1
                    &&& eval_views matches Some(n) ==> shown.len() == 2 && (shown[1]
                        matches UiView::Message { spinner, text } && spinner is Eval && text
                        == "evaluating "@ + decimal(n as nat) + " views every "@ + decimal(
                        eval_every,
                    ) + " steps"@)
                },
                ProcessMessage::DoneLoading => shown.len() == 2 && shown[0] == (UiView::Message {
                    spinner: Spinner::Main,
                    text: "Completed loading"@,
                }) && shown[1] == (UiView::Message {
                    spinner: Spinner::Stats,
                    text: "Completed loading"@,
                }),
                ProcessMessage::TrainStep { iter, .. } => {
                    &&& shown.len() == 2
                    &&& shown[0] == (UiView::Message { spinner: Spinner::Main, text: "Training"@ })
                    &&& shown[1] matches UiView::Position { pos } && pos == iter
                },
                ProcessMessage::RefineStep { cur_splat_count, .. } => shown.len() == 1 && (shown[0]
                    matches UiView::Message { spinner, text } && spinner is Stats && text
                    == "Current splat count "@ + decimal(cur_splat_count as nat)),
                ProcessMessage::EvalResult { iter, avg_psnr, avg_ssim } => shown.len() == 1 && (
                shown[0] matches UiView::Message { spinner, text } && spinner is Eval && text
                    == "Eval iter "@ + decimal(iter as nat) + ": PSNR "@ + avg_psnr@ + ", ssim "@
                    + avg_ssim@),
                ProcessMessage::Warning { .. } => shown.len() == 1 && shown[0] == (
                UiView::MustPrint { line: "⚠️: {error}"@ }),
                _ => shown.len() == 0,
            }
        }),
{
}

/// Before anything is heard the terminal names the interval of evaluation, and a program
/// that is slow because of how it was built says so.
pub proof fn law_opening(eval_every: nat, debug: bool)
    ensures
        ({
            let shown = opening(eval_every, debug);
            &&& shown.len() == if debug {
                3int
            } else {
                2
            }
            &&& shown[0] == (UiView::Message {
                spinner: Spinner::Eval,
                text: "evaluating every "@ + decimal(eval_every) + " steps"@,
            })
            &&& shown[1] == (UiView::Message { spinner: Spinner::Stats, text: "Starting up"@ })
            &&& debug ==> shown[2] == (UiView::Print {
                line: "ℹ️  running in debug mode, compile with --release for best performance"@,
            })
        }),
{
}

} // verus!

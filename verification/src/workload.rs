//! The scripted workload of a measured run: which keys are sent, at which pace,
//! and when the run is broken off because Neovim is gone.
//!
//! The script waits between its steps, so it runs on a thread of its own. That
//! thread asks for one command after the other and performs it.

use crate::frames::Phase;
use crate::text;
use vstd::prelude::*;

verus! {

/// How long the idle window lasts.
pub const IDLE_DURATION_MS: u64 = 13000;

/// How long the buffer is left alone after the warm-up.
pub const SETTLE_MS: u64 = 2000;

/// The wait after each typed character.
pub const TYPE_KEY_DELAY_MS: u64 = 20;

/// The wait after each scroll key.
pub const SCROLL_KEY_DELAY_MS: u64 = 20;

/// The wait at the end of a phase, for the keys sent so far to take effect.
pub const BARRIER_DELAY_MS: u64 = 30;

/// The wait after a key that only leads in to a phase.
pub const LEAD_IN_DELAY_MS: u64 = 30;

/// The wait after the file is opened.
pub const OPEN_DELAY_MS: u64 = 300;

/// The wait after the final state is written down.
pub const SANITY_DELAY_MS: u64 = 200;

/// The text that is typed.
pub const TYPED_TEXT: &'static str = "fn p11_workload_probe(seed: u64) -> u64 {\n    let mut acc: u64 = seed;\n    for i in 0..2000u64 {\n        acc = acc.wrapping_mul(6364136223846793005).wrapping_add(1442695040888963407);\n        if acc % 101 == 0 {\n            acc ^= i;\n        }\n    }\n    acc\n}\n\n";

/// The marker of a run that lost Neovim.
pub const DIED_MARKER: &'static str = "NVIM_DIED_UNEXPECTEDLY";

/// One step of the script.
#[derive(Debug)]
pub enum Step {
    /// Announce the marker of this name.
    Announce(&'static str),
    /// Send keys and wait. Where the step is required, the run is broken off
    /// when the keys could not be sent or Neovim is gone after the wait.
    Send { keys: String, delay_ms: u64, required: bool },
    /// Wait.
    Rest { ms: u64 },
    /// Begin a phase of the measurement.
    Enter(Phase),
    /// Break the run off when Neovim is gone.
    CheckAlive,
}

/// A step as a mathematical value.
pub enum StepModel {
    Announce(Seq<char>),
    Send { keys: Seq<char>, delay_ms: u64, required: bool },
    Rest { ms: u64 },
    Enter(Phase),
    CheckAlive,
}

/// What the thread that runs the script has to do next.
#[derive(Debug)]
pub enum Command {
    /// Announce the marker of this name.
    Announce(String),
    /// Send keys and wait, then answer whether they were sent and Neovim is
    /// alive.
    Send { keys: String, delay_ms: u64 },
    /// Wait.
    Rest { ms: u64 },
    /// Begin a phase of the measurement.
    Enter(Phase),
    /// Answer whether Neovim is alive.
    CheckAlive,
    /// End the measurement.
    Finish,
    /// Nothing more: the run is over.
    Done,
}

/// A command as a mathematical value.
pub enum CommandModel {
    Announce(Seq<char>),
    Send { keys: Seq<char>, delay_ms: u64 },
    Rest { ms: u64 },
    Enter(Phase),
    CheckAlive,
    Finish,
    Done,
}

impl View for Step {
    type V = StepModel;

    open spec fn view(&self) -> StepModel {
        match *self {
            Step::Announce(name) => StepModel::Announce(name@),
            Step::Send { keys, delay_ms, required } => StepModel::Send {
                keys: keys@,
                delay_ms,
                required,
            },
            Step::Rest { ms } => StepModel::Rest { ms },
            Step::Enter(phase) => StepModel::Enter(phase),
            Step::CheckAlive => StepModel::CheckAlive,
        }
    }
}

impl View for Command {
    type V = CommandModel;

    open spec fn view(&self) -> CommandModel {
        match *self {
            Command::Announce(name) => CommandModel::Announce(name@),
            Command::Send { keys, delay_ms } => CommandModel::Send { keys: keys@, delay_ms },
            Command::Rest { ms } => CommandModel::Rest { ms },
            Command::Enter(phase) => CommandModel::Enter(phase),
            Command::CheckAlive => CommandModel::CheckAlive,
            Command::Finish => CommandModel::Finish,
            Command::Done => CommandModel::Done,
        }
    }
}

/// The steps of `steps` as mathematical values.
pub open spec fn models(steps: Seq<Step>) -> Seq<StepModel> {
    Seq::new(steps.len(), |i: int| steps[i]@)
}

/// The keys of one round of scrolling.
pub open spec fn scroll_round() -> Seq<Seq<char>> {
    seq![
        "gg"@,
        "<C-d>"@,
        "<C-d>"@,
        "<C-d>"@,
        "<C-d>"@,
        "<C-d>"@,
        "<C-f>"@,
        "<C-f>"@,
        "<C-f>"@,
        "<C-u>"@,
        "<C-u>"@,
        "<C-b>"@,
    ]
}

/// The keys of the scrolling phase: fifteen rounds, then to the end of the
/// buffer and back, twice.
pub open spec fn scroll_sequence() -> Seq<Seq<char>> {
    Seq::new(180, |i: int| scroll_round()[i % 12]) + seq!["G"@, "gg"@, "G"@, "gg"@]
}

/// Sending keys that have to arrive.
pub open spec fn required_send(keys: Seq<char>, delay_ms: u64) -> StepModel {
    StepModel::Send { keys, delay_ms, required: true }
}

/// Sending keys, come what may.
pub open spec fn send(keys: Seq<char>, delay_ms: u64) -> StepModel {
    StepModel::Send { keys, delay_ms, required: false }
}

/// Typing the text, one character after the other, in a fresh insert at the top
/// of the buffer.
pub open spec fn typing_steps() -> Seq<StepModel> {
    seq![send("gg"@, LEAD_IN_DELAY_MS), send("i"@, LEAD_IN_DELAY_MS)] + Seq::new(
        TYPED_TEXT@.len(),
        |i: int| required_send(seq![TYPED_TEXT@[i]], TYPE_KEY_DELAY_MS),
    ) + seq![send("<Esc>"@, BARRIER_DELAY_MS)]
}

/// Opening the file.
pub open spec fn opening_steps(workload_path: Seq<char>) -> Seq<StepModel> {
    seq![
        StepModel::Announce("FILE_OPEN_START"@),
        required_send(":e "@ + workload_path + "<CR>"@, OPEN_DELAY_MS),
        StepModel::Announce("FILE_OPENED"@),
        StepModel::CheckAlive,
    ]
}

/// The warm-up: waiting, typing and taking the typed text back.
pub open spec fn warm_up_steps() -> Seq<StepModel> {
    seq![StepModel::Announce("WARMUP_START"@), StepModel::Rest { ms: IDLE_DURATION_MS }]
        + typing_steps() + seq![
        send(":undo<CR>"@, BARRIER_DELAY_MS),
        StepModel::Announce("WARMUP_DONE"@),
        StepModel::CheckAlive,
    ]
}

/// Settling, and the idle window.
pub open spec fn idle_steps() -> Seq<StepModel> {
    seq![
        StepModel::Announce("SETTLE_START"@),
        StepModel::Rest { ms: SETTLE_MS },
        StepModel::Announce("IDLE_START"@),
        StepModel::Enter(Phase::Idle),
        StepModel::Rest { ms: IDLE_DURATION_MS },
        StepModel::Announce("IDLE_END"@),
        StepModel::CheckAlive,
    ]
}

/// The measured typing.
pub open spec fn measured_typing_steps() -> Seq<StepModel> {
    seq![StepModel::Announce("TYPING_START"@), StepModel::Enter(Phase::Typing)] + typing_steps()
        + seq![StepModel::Announce("TYPING_END"@), StepModel::CheckAlive]
}

/// The measured scrolling.
pub open spec fn scrolling_steps() -> Seq<StepModel> {
    seq![StepModel::Enter(Phase::Scroll)] + Seq::new(
        scroll_sequence().len(),
        |i: int| required_send(scroll_sequence()[i], SCROLL_KEY_DELAY_MS),
    ) + seq![send(""@, BARRIER_DELAY_MS), StepModel::Announce("SCROLL_END"@)]
}

/// Having Neovim write down where the buffer and the cursor ended.
pub open spec fn closing_steps(sanity_path: Seq<char>) -> Seq<StepModel> {
    seq![
        send(
            ":call writefile([string(line('$')), string(line('.'))], '"@ + sanity_path + "')<CR>"@,
            SANITY_DELAY_MS,
        ),
        StepModel::Announce("SANITY_DONE"@),
        StepModel::Announce("SHUTDOWN_START"@),
    ]
}

/// The whole script.
pub open spec fn script(workload_path: Seq<char>, sanity_path: Seq<char>) -> Seq<StepModel> {
    opening_steps(workload_path) + warm_up_steps() + idle_steps() + measured_typing_steps()
        + scrolling_steps() + closing_steps(sanity_path)
}

/// The line that announces a marker.
pub open spec fn marker_text(name: Seq<char>) -> Seq<char> {
    "NEOVIBE_PHASE:"@ + name
}

/// The keys of the scrolling phase.
pub fn scroll_keys() -> (keys: Vec<&'static str>)
    ensures
        keys@.len() == scroll_sequence().len(),
        forall|i: int| 0 <= i < keys@.len() ==> (#[trigger] keys@[i])@ == scroll_sequence()[i],
{
    let round: [&'static str; 12] = [
        "gg",
        "<C-d>",
        "<C-d>",
        "<C-d>",
        "<C-d>",
        "<C-d>",
        "<C-f>",
        "<C-f>",
        "<C-f>",
        "<C-u>",
        "<C-u>",
        "<C-b>",
    ];
    let mut keys: Vec<&'static str> = Vec::with_capacity(184);
    let mut i: usize = 0;
    while i < 180
        invariant
            i <= 180,
            keys@.len() == i,
            round@.len() == 12,
            forall|k: int| 0 <= k < 12 ==> (#[trigger] round@[k])@ == scroll_round()[k],
            forall|k: int| 0 <= k < i ==> (#[trigger] keys@[k])@ == scroll_sequence()[k],
        decreases 180 - i,
    {
        keys.push(round[i % 12]);
        i = i + 1;
    }
    keys.push("G");
    keys.push("gg");
    keys.push("G");
    keys.push("gg");
    keys
}

/// The line that announces a marker.
pub fn phase_marker(name: &str) -> (line: String)
    ensures
        line@ == "NEOVIBE_PHASE:"@ + name@,
        line@ == marker_text(name@),
{
    let mut line: String = "NEOVIBE_PHASE:".to_owned();
    line.append(name);
    line
}

/// Adds a step.
fn add_step(steps: &mut Vec<Step>, step: Step)
    ensures
        models(final(steps)@) == models(old(steps)@).push(step@),
{
    steps.push(step);
    assert(models(steps@) =~= models(old(steps)@).push(step@));
}

/// Adds the announcement of a marker.
fn add_marker(steps: &mut Vec<Step>, name: &'static str)
    ensures
        models(final(steps)@) == models(old(steps)@).push(StepModel::Announce(name@)),
{
    add_step(steps, Step::Announce(name));
}

/// Adds the sending of keys.
fn add_send(steps: &mut Vec<Step>, keys: String, delay_ms: u64, required: bool)
    ensures
        models(final(steps)@) == models(old(steps)@).push(
            StepModel::Send { keys: keys@, delay_ms, required },
        ),
{
    add_step(steps, Step::Send { keys, delay_ms, required });
}

/// Adds the opening of the file.
fn add_opening(steps: &mut Vec<Step>, workload_path: &str)
    ensures
        models(final(steps)@) == models(old(steps)@) + opening_steps(workload_path@),
        models(final(steps)@)[old(steps)@.len() as int + 1] == (StepModel::Send {
            keys: ":e "@ + workload_path@ + "<CR>"@,
            delay_ms: OPEN_DELAY_MS,
            required: true,
        }),
{
    let mut keys: String = ":e ".to_owned();
    keys.append(workload_path);
    keys.append("<CR>");
    add_marker(steps, "FILE_OPEN_START");
    add_send(steps, keys, OPEN_DELAY_MS, true);
    add_marker(steps, "FILE_OPENED");
    add_step(steps, Step::CheckAlive);
    assert(models(steps@) =~= models(old(steps)@) + opening_steps(workload_path@));
}

/// Adds the typing of the text.
fn add_typing(steps: &mut Vec<Step>)
    ensures
        models(final(steps)@) == models(old(steps)@) + typing_steps(),
{
    add_send(steps, "gg".to_owned(), LEAD_IN_DELAY_MS, false);
    add_send(steps, "i".to_owned(), LEAD_IN_DELAY_MS, false);
    let ghost before = models(steps@);
    let chars: Vec<char> = text::characters(TYPED_TEXT);
    let ghost typed = Seq::new(
        TYPED_TEXT@.len(),
        |i: int| required_send(seq![TYPED_TEXT@[i]], TYPE_KEY_DELAY_MS),
    );
    let mut i: usize = 0;
    assert(models(steps@) =~= before + typed.take(0));
    while i < chars.len()
        invariant
            i <= chars@.len(),
            chars@ == TYPED_TEXT@,
            typed == Seq::new(
                TYPED_TEXT@.len(),
                |k: int| required_send(seq![TYPED_TEXT@[k]], TYPE_KEY_DELAY_MS),
            ),
            models(steps@) == before + typed.take(i as int),
        decreases chars@.len() - i,
    {
        let mut keys: String = String::new();
        keys.push(chars[i]);
        assert(keys@ =~= seq![TYPED_TEXT@[i as int]]);
        add_send(steps, keys, TYPE_KEY_DELAY_MS, true);
        i = i + 1;
        assert(models(steps@) =~= before + typed.take(i as int));
    }
    add_send(steps, "<Esc>".to_owned(), BARRIER_DELAY_MS, false);
    assert(typed.take(i as int) =~= typed);
    assert(models(steps@) =~= models(old(steps)@) + typing_steps());
}

/// Adds the warm-up.
fn add_warm_up(steps: &mut Vec<Step>)
    ensures
        models(final(steps)@) == models(old(steps)@) + warm_up_steps(),
{
    add_marker(steps, "WARMUP_START");
    add_step(steps, Step::Rest { ms: IDLE_DURATION_MS });
    add_typing(steps);
    add_send(steps, ":undo<CR>".to_owned(), BARRIER_DELAY_MS, false);
    add_marker(steps, "WARMUP_DONE");
    add_step(steps, Step::CheckAlive);
    assert(models(steps@) =~= models(old(steps)@) + warm_up_steps());
}

/// Adds the settling and the idle window.
fn add_idle(steps: &mut Vec<Step>)
    ensures
        models(final(steps)@) == models(old(steps)@) + idle_steps(),
{
    add_marker(steps, "SETTLE_START");
    add_step(steps, Step::Rest { ms: SETTLE_MS });
    add_marker(steps, "IDLE_START");
    add_step(steps, Step::Enter(Phase::Idle));
    add_step(steps, Step::Rest { ms: IDLE_DURATION_MS });
    add_marker(steps, "IDLE_END");
    add_step(steps, Step::CheckAlive);
    assert(models(steps@) =~= models(old(steps)@) + idle_steps());
}

/// Adds the measured typing.
fn add_measured_typing(steps: &mut Vec<Step>)
    ensures
        models(final(steps)@) == models(old(steps)@) + measured_typing_steps(),
{
    add_marker(steps, "TYPING_START");
    add_step(steps, Step::Enter(Phase::Typing));
    add_typing(steps);
    add_marker(steps, "TYPING_END");
    add_step(steps, Step::CheckAlive);
    assert(models(steps@) =~= models(old(steps)@) + measured_typing_steps());
}

/// Adds the measured scrolling.
fn add_scrolling(steps: &mut Vec<Step>)
    ensures
        models(final(steps)@) == models(old(steps)@) + scrolling_steps(),
{
    add_step(steps, Step::Enter(Phase::Scroll));
    let ghost before = models(steps@);
    let keys: Vec<&'static str> = scroll_keys();
    let ghost scrolled = Seq::new(
        scroll_sequence().len(),
        |i: int| required_send(scroll_sequence()[i], SCROLL_KEY_DELAY_MS),
    );
    let mut i: usize = 0;
    assert(models(steps@) =~= before + scrolled.take(0));
    while i < keys.len()
        invariant
            i <= keys@.len(),
            keys@.len() == scroll_sequence().len(),
            forall|k: int| 0 <= k < keys@.len() ==> (#[trigger] keys@[k])@ == scroll_sequence()[k],
            scrolled == Seq::new(
                scroll_sequence().len(),
                |k: int| required_send(scroll_sequence()[k], SCROLL_KEY_DELAY_MS),
            ),
            models(steps@) == before + scrolled.take(i as int),
        decreases keys@.len() - i,
    {
        add_send(steps, keys[i].to_owned(), SCROLL_KEY_DELAY_MS, true);
        i = i + 1;
        assert(models(steps@) =~= before + scrolled.take(i as int));
    }
    add_send(steps, "".to_owned(), BARRIER_DELAY_MS, false);
    add_marker(steps, "SCROLL_END");
    assert(scrolled.take(i as int) =~= scrolled);
    assert(models(steps@) =~= models(old(steps)@) + scrolling_steps());
}

/// Adds the end of the script.
fn add_closing(steps: &mut Vec<Step>, sanity_path: &str)
    ensures
        models(final(steps)@) == models(old(steps)@) + closing_steps(sanity_path@),
{
    let mut keys: String = ":call writefile([string(line('$')), string(line('.'))], '".to_owned();
    keys.append(sanity_path);
    keys.append("')<CR>");
    add_send(steps, keys, SANITY_DELAY_MS, false);
    add_marker(steps, "SANITY_DONE");
    add_marker(steps, "SHUTDOWN_START");
    assert(models(steps@) =~= models(old(steps)@) + closing_steps(sanity_path@));
}

/// The script of a measured run on the file at `workload_path`, which leaves its
/// final state in the file at `sanity_path`.
pub fn workload_script(workload_path: &str, sanity_path: &str) -> (steps: Vec<Step>)
    ensures
        models(steps@) == script(workload_path@, sanity_path@),
{
    let mut steps: Vec<Step> = Vec::new();
    assert(models(steps@) =~= Seq::<StepModel>::empty());
    add_opening(&mut steps, workload_path);
    add_warm_up(&mut steps);
    add_idle(&mut steps);
    add_measured_typing(&mut steps);
    add_scrolling(&mut steps);
    add_closing(&mut steps, sanity_path);
    assert(models(steps@) =~= script(workload_path@, sanity_path@));
    steps
}

/// Whether the answer to the command of a step decides how the run goes on.
pub open spec fn decides(step: StepModel) -> bool {
    match step {
        StepModel::Send { required, .. } => required,
        StepModel::CheckAlive => true,
        _ => false,
    }
}

/// The command of a step.
pub open spec fn command_of(step: StepModel) -> CommandModel {
    match step {
        StepModel::Announce(name) => CommandModel::Announce(name),
        StepModel::Send { keys, delay_ms, .. } => CommandModel::Send { keys, delay_ms },
        StepModel::Rest { ms } => CommandModel::Rest { ms },
        StepModel::Enter(phase) => CommandModel::Enter(phase),
        StepModel::CheckAlive => CommandModel::CheckAlive,
    }
}

/// How far a run has come.
#[derive(Clone, Copy, Debug, PartialEq, Eq, Structural)]
pub enum Progress {
    /// The command of the step at this position comes next.
    Running { next: usize },
    /// The run was broken off; only its end is left to command.
    BrokenOff,
    /// The end was commanded.
    Over,
}

/// A run of a script.
#[derive(Debug)]
pub struct ScriptRun {
    pub steps: Vec<Step>,
    pub progress: Progress,
}

/// Whether a run that has come this far is broken off by a negative answer: the
/// last command was of a step that decides.
pub open spec fn waits_for_answer(steps: Seq<StepModel>, progress: Progress) -> bool {
    match progress {
        Progress::Running { next } => 0 < next <= steps.len() && decides(steps[next - 1]),
        _ => false,
    }
}

/// The next command of a run, `alive` being the answer to the last one.
pub open spec fn next_command(
    steps: Seq<StepModel>,
    progress: Progress,
    alive: bool,
) -> CommandModel {
    if waits_for_answer(steps, progress) && !alive {
        CommandModel::Announce(DIED_MARKER@)
    } else {
        match progress {
            Progress::Running { next } => if next < steps.len() {
                command_of(steps[next as int])
            } else {
                CommandModel::Finish
            },
            Progress::BrokenOff => CommandModel::Finish,
            Progress::Over => CommandModel::Done,
        }
    }
}

/// How far the run has come after that command.
pub open spec fn next_progress(
    steps: Seq<StepModel>,
    progress: Progress,
    alive: bool,
) -> Progress {
    if waits_for_answer(steps, progress) && !alive {
        Progress::BrokenOff
    } else {
        match progress {
            Progress::Running { next } => if next < steps.len() {
                Progress::Running { next: (next + 1) as usize }
            } else {
                Progress::Over
            },
            _ => Progress::Over,
        }
    }
}

impl ScriptRun {
    /// A run that has not begun.
    pub fn new(steps: Vec<Step>) -> (run: Self)
        ensures
            run.steps == steps,
            run.progress == (Progress::Running { next: 0 }),
    {
        ScriptRun { steps, progress: Progress::Running { next: 0 } }
    }

    /// The next command. `alive` is the answer to the last one: whether its keys
    /// were sent and Neovim is alive. Where the last command asked for no
    /// answer it is not read.
    pub fn next(&mut self, alive: bool) -> (command: Command)
        ensures
            final(self).steps == old(self).steps,
            command@ == next_command(models(old(self).steps@), old(self).progress, alive),
            final(self).progress == next_progress(
                models(old(self).steps@),
                old(self).progress,
                alive,
            ),
    {
        match self.progress {
            Progress::Running { next } => {
                if next > 0 && next <= self.steps.len() && !alive {
                    let waits: bool = match &self.steps[next - 1] {
                        Step::Send { required, .. } => *required,
                        Step::CheckAlive => true,
                        _ => false,
                    };
                    if waits {
                        self.progress = Progress::BrokenOff;
                        return Command::Announce(DIED_MARKER.to_owned());
                    }
                }
                if next < self.steps.len() {
                    self.progress = Progress::Running { next: next + 1 };
                    match &self.steps[next] {
                        Step::Announce(name) => Command::Announce((*name).to_owned()),
                        Step::Send { keys, delay_ms, .. } => Command::Send {
                            keys: keys.clone(),
                            delay_ms: *delay_ms,
                        },
                        Step::Rest { ms } => Command::Rest { ms: *ms },
                        Step::Enter(phase) => Command::Enter(*phase),
                        Step::CheckAlive => Command::CheckAlive,
                    }
                } else {
                    self.progress = Progress::Over;
                    Command::Finish
                }
            },
            Progress::BrokenOff => {
                self.progress = Progress::Over;
                Command::Finish
            },
            Progress::Over => Command::Done,
        }
    }
}

/// How far a run has come after `k` commands, `answers(j)` being the answer to
/// the command numbered `j` from zero.
pub open spec fn progress_after(
    steps: Seq<StepModel>,
    answers: spec_fn(int) -> bool,
    k: nat,
) -> Progress
    decreases k,
{
    if k == 0 {
        Progress::Running { next: 0 }
    } else {
        next_progress(steps, progress_after(steps, answers, (k - 1) as nat), answers(k - 2))
    }
}

/// The command of a run that is numbered `k` from zero.
pub open spec fn command_at(
    steps: Seq<StepModel>,
    answers: spec_fn(int) -> bool,
    k: nat,
) -> CommandModel {
    next_command(steps, progress_after(steps, answers, k), answers(k - 1))
}

/// Whether the answers let a run pass each of its first `k` steps.
pub open spec fn passes(steps: Seq<StepModel>, answers: spec_fn(int) -> bool, k: int) -> bool {
    forall|j: int| 0 <= j < k && decides(#[trigger] steps[j]) ==> answers(j)
}

/// As long as the answers let it, a run goes through the steps in order.
proof fn lemma_runs_on(steps: Seq<StepModel>, answers: spec_fn(int) -> bool, k: nat)
    requires
        steps.len() < usize::MAX,
        k <= steps.len(),
        passes(steps, answers, k - 1),
    ensures
        progress_after(steps, answers, k) == (Progress::Running { next: k as usize }),
    decreases k,
{
    if k > 0 {
        lemma_runs_on(steps, answers, (k - 1) as nat);
        if k > 1 && decides(steps[k - 2]) {
            assert(answers(k - 2));
        }
    }
}

/// A run that is over commands nothing more.
proof fn lemma_over(steps: Seq<StepModel>, answers: spec_fn(int) -> bool, m: nat, k: nat)
    requires
        progress_after(steps, answers, m) is Over,
        m <= k,
    ensures
        progress_after(steps, answers, k) is Over,
        command_at(steps, answers, k) == CommandModel::Done,
    decreases k,
{
    if m < k {
        lemma_over(steps, answers, m, (k - 1) as nat);
    }
}

/// A run in which Neovim stays alive commands every step of the script in order,
/// then the end, and nothing after it.
pub proof fn law_unbroken_run(steps: Seq<StepModel>, answers: spec_fn(int) -> bool, k: nat)
    requires
        steps.len() < usize::MAX,
        passes(steps, answers, steps.len() as int),
    ensures
        command_at(steps, answers, k) == if k < steps.len() {
            command_of(steps[k as int])
        } else if k == steps.len() {
            CommandModel::Finish
        } else {
            CommandModel::Done
        },
{
    let n = steps.len();
    if k <= n {
        lemma_runs_on(steps, answers, k);
        if k > 0 && decides(steps[k - 1]) {
            assert(answers(k - 1));
        }
    } else {
        lemma_runs_on(steps, answers, n);
        if n > 0 && decides(steps[n - 1]) {
            assert(answers(n - 1));
        }
        assert(progress_after(steps, answers, n + 1) is Over);
        lemma_over(steps, answers, n + 1, k);
    }
}

/// A run that finds Neovim gone at a step that decides commands the steps up to
/// that one, then the marker that says so and the end, and nothing after it.
pub proof fn law_broken_run(
    steps: Seq<StepModel>,
    answers: spec_fn(int) -> bool,
    at: int,
    k: nat,
)
    requires
        steps.len() < usize::MAX,
        0 <= at < steps.len(),
        decides(steps[at]),
        !answers(at),
        passes(steps, answers, at),
    ensures
        command_at(steps, answers, k) == if k <= at {
            command_of(steps[k as int])
        } else if k == at + 1 {
            CommandModel::Announce(DIED_MARKER@)
        } else if k == at + 2 {
            CommandModel::Finish
        } else {
            CommandModel::Done
        },
{
    let after = (at + 1) as nat;
    lemma_runs_on(steps, answers, after);
    if k <= at {
        lemma_runs_on(steps, answers, k);
        if k > 0 && decides(steps[k - 1]) {
            assert(answers(k - 1));
        }
    } else {
        assert(progress_after(steps, answers, after + 1) is BrokenOff);
        assert(progress_after(steps, answers, after + 2) is Over);
        if k > after + 1 {
            lemma_over(steps, answers, after + 2, k);
        }
    }
}

/// Either the answers let a run pass all of its first `k` steps, or there is a
/// first one that breaks it off.
proof fn lemma_first_break(steps: Seq<StepModel>, answers: spec_fn(int) -> bool, k: int) -> (at: int)
    requires
        0 <= k <= steps.len(),
    ensures
        at == k && passes(steps, answers, k) || 0 <= at < k && decides(steps[at]) && !answers(at)
            && passes(steps, answers, at),
    decreases k,
{
    if k == 0 {
        0
    } else {
        let before = lemma_first_break(steps, answers, k - 1);
        if before == k - 1 && !(decides(steps[k - 1]) && !answers(k - 1)) {
            assert forall|j: int| 0 <= j < k && decides(#[trigger] steps[j]) implies answers(j) by {
                assert(j < k - 1 || j == k - 1);
            }
            k
        } else {
            before
        }
    }
}

/// Every run ends: whatever the answers are, the end is commanded exactly once,
/// after at most two commands more than the script has steps.
pub proof fn law_every_run_finishes_once(
    steps: Seq<StepModel>,
    answers: spec_fn(int) -> bool,
) -> (end: nat)
    requires
        steps.len() < usize::MAX,
    ensures
        end <= steps.len() + 1,
        forall|k: nat|
            #[trigger] command_at(steps, answers, k) == CommandModel::Finish <==> k == end,
{
    let n = steps.len() as int;
    let at = lemma_first_break(steps, answers, n);
    if at == n && passes(steps, answers, n) {
        assert forall|k: nat|
            #[trigger] command_at(steps, answers, k) == CommandModel::Finish <==> k == n by {
            law_unbroken_run(steps, answers, k);
        }
        n as nat
    } else {
        assert forall|k: nat|
            #[trigger] command_at(steps, answers, k) == CommandModel::Finish <==> k == at + 2 by {
            law_broken_run(steps, answers, at, k);
        }
        (at + 2) as nat
    }
}

/// The phases that steps enter, in order.
pub open spec fn phases_of(steps: Seq<StepModel>) -> Seq<Phase>
    decreases steps.len(),
{
    if steps.len() == 0 {
        Seq::empty()
    } else {
        let before = phases_of(steps.drop_last());
        match steps.last() {
            StepModel::Enter(phase) => before.push(phase),
            _ => before,
        }
    }
}

/// The phases of two lots of steps, one after the other.
proof fn lemma_phases_add(a: Seq<StepModel>, b: Seq<StepModel>)
    ensures
        phases_of(a + b) == phases_of(a) + phases_of(b),
    decreases b.len(),
{
    if b.len() == 0 {
        assert(a + b =~= a);
        assert(phases_of(a) + phases_of(b) =~= phases_of(a));
    } else {
        assert((a + b).drop_last() =~= a + b.drop_last());
        assert((a + b).last() == b.last());
        lemma_phases_add(a, b.drop_last());
        assert(phases_of(a + b) =~= phases_of(a) + phases_of(b));
    }
}

/// Steps that enter no phase.
proof fn lemma_no_phases(steps: Seq<StepModel>)
    requires
        forall|i: int| 0 <= i < steps.len() ==> !(#[trigger] steps[i] is Enter),
    ensures
        phases_of(steps) == Seq::<Phase>::empty(),
    decreases steps.len(),
{
    if steps.len() > 0 {
        let before = steps.drop_last();
        assert forall|i: int| 0 <= i < before.len() implies !(#[trigger] before[i] is Enter) by {
            assert(before[i] == steps[i]);
        }
        lemma_no_phases(before);
        assert(!(steps[steps.len() - 1] is Enter));
    }
}

/// Steps of which just one enters a phase.
proof fn lemma_one_phase(steps: Seq<StepModel>, at: int, phase: Phase)
    requires
        0 <= at < steps.len(),
        steps[at] == StepModel::Enter(phase),
        forall|i: int| 0 <= i < steps.len() && i != at ==> !(#[trigger] steps[i] is Enter),
    ensures
        phases_of(steps) == seq![phase],
{
    let before = steps.take(at);
    let entry = seq![StepModel::Enter(phase)];
    let after = steps.skip(at + 1);
    assert(steps =~= before + entry + after);
    lemma_phases_add(before + entry, after);
    lemma_phases_add(before, entry);
    lemma_no_phases(before);
    lemma_no_phases(after);
    assert(entry.drop_last() =~= Seq::<StepModel>::empty());
    assert(phases_of(Seq::<StepModel>::empty()) =~= Seq::<Phase>::empty());
    assert(phases_of(entry) =~= seq![phase]);
    assert(phases_of(steps) =~= seq![phase]);
}

/// The script measures each phase once: idle, then typing, then scrolling.
pub proof fn law_phases_in_order(workload_path: Seq<char>, sanity_path: Seq<char>)
    ensures
        phases_of(script(workload_path, sanity_path)) == seq![
            Phase::Idle,
            Phase::Typing,
            Phase::Scroll,
        ],
{
    let opening = opening_steps(workload_path);
    let warm_up = warm_up_steps();
    let idle = idle_steps();
    let typing = measured_typing_steps();
    let scrolling = scrolling_steps();
    let closing = closing_steps(sanity_path);
    lemma_phases_add(opening + warm_up + idle + typing + scrolling, closing);
    lemma_phases_add(opening + warm_up + idle + typing, scrolling);
    lemma_phases_add(opening + warm_up + idle, typing);
    lemma_phases_add(opening + warm_up, idle);
    lemma_phases_add(opening, warm_up);
    lemma_no_phases(opening);
    lemma_no_phases(warm_up);
    lemma_one_phase(idle, 3, Phase::Idle);
    lemma_one_phase(typing, 1, Phase::Typing);
    lemma_one_phase(scrolling, 0, Phase::Scroll);
    lemma_no_phases(closing);
    assert(phases_of(script(workload_path, sanity_path)) =~= seq![
        Phase::Idle,
        Phase::Typing,
        Phase::Scroll,
    ]);
}

/// Nothing is sent while the idle window is measured: from the step that enters
/// it to the one that enters the typing phase, no step sends keys.
pub proof fn law_idle_window_sends_nothing(
    workload_path: Seq<char>,
    sanity_path: Seq<char>,
    from: int,
    to: int,
    i: int,
)
    requires
        0 <= from < i < to < script(workload_path, sanity_path).len(),
        script(workload_path, sanity_path)[from] == StepModel::Enter(Phase::Idle),
        script(workload_path, sanity_path)[to] == StepModel::Enter(Phase::Typing),
        forall|j: int|
            from < j < to ==> !(#[trigger] script(workload_path, sanity_path)[j] is Enter),
    ensures
        !(script(workload_path, sanity_path)[i] is Send),
{
    let steps = script(workload_path, sanity_path);
    let lead = opening_steps(workload_path) + warm_up_steps();
    let tail = scrolling_steps() + closing_steps(sanity_path);
    assert(steps =~= lead + idle_steps() + measured_typing_steps() + tail);
    let n = lead.len() as int;
    assert forall|j: int| 0 <= j < n implies !(#[trigger] steps[j] is Enter) by {
        assert(steps[j] == lead[j]);
    }
    assert forall|j: int| 0 <= j < 7 implies #[trigger] steps[n + j] == idle_steps()[j] by {}
    assert forall|j: int| 0 <= j < measured_typing_steps().len() implies #[trigger] steps[n + 7 + j]
        == measured_typing_steps()[j] by {}
    assert(steps[n + 7 + 0] is Announce);
    assert(steps[n + 7 + 1] == StepModel::Enter(Phase::Typing));
    assert(from >= n);
    assert(steps[n + 3] == StepModel::Enter(Phase::Idle));
    if from > n + 3 {
        law_phases_in_order(workload_path, sanity_path);
        lemma_one_idle(steps, n + 3, from);
    }
    assert(from == n + 3) by {
        assert(steps[n + 0] is Announce && steps[n + 1] is Rest && steps[n + 2] is Announce);
    }
    assert(to <= n + 8) by {
        if to > n + 8 {
            assert(steps[n + 8] is Enter);
        }
    }
    assert(steps[n + 4] is Rest && steps[n + 5] is Announce && steps[n + 6] is CheckAlive);
}

/// Where the phases are entered once each, the idle phase is entered in one
/// place only.
proof fn lemma_one_idle(steps: Seq<StepModel>, a: int, b: int)
    requires
        phases_of(steps) == seq![Phase::Idle, Phase::Typing, Phase::Scroll],
        0 <= a <= b < steps.len(),
        steps[a] == StepModel::Enter(Phase::Idle),
        steps[b] == StepModel::Enter(Phase::Idle),
    ensures
        a == b,
{
    if a < b {
        let p = steps.take(a);
        let q = steps.subrange(a + 1, b);
        let r = steps.skip(b + 1);
        let entry = seq![StepModel::Enter(Phase::Idle)];
        assert(steps =~= p + entry + q + entry + r);
        lemma_phases_add(p + entry + q + entry, r);
        lemma_phases_add(p + entry + q, entry);
        lemma_phases_add(p + entry, q);
        lemma_phases_add(p, entry);
        lemma_one_phase(entry, 0, Phase::Idle);
        let all = phases_of(steps);
        let first = phases_of(p).len() as int;
        let second = first + 1 + phases_of(q).len();
        assert(all[first] == Phase::Idle);
        assert(all[second] == Phase::Idle);
        let each = seq![Phase::Idle, Phase::Typing, Phase::Scroll];
        assert(each.len() == 3 && each[1] == Phase::Typing && each[2] == Phase::Scroll);
        assert(all == each);
        assert(0 < second < all.len());
    }
}

/// The first keys that a script sends open the file that it was made for, whatever
/// its path is: they are the command `:e`, the path, and Enter. The run does not go
/// on without it.
pub proof fn law_script_opens_the_file(workload_path: Seq<char>, sanity_path: Seq<char>)
    ensures
        ({
            let steps = script(workload_path, sanity_path);
            &&& steps.len() > 2
            &&& !(steps[0] is Send)
            &&& steps[1] is Send
            &&& steps[1]->keys == ":e "@ + workload_path + "<CR>"@
            &&& steps[1]->required
            &&& steps[1]->delay_ms == 300
        }),
{
}

/// So the second command of every run opens that file.
pub proof fn law_run_opens_the_file(
    workload_path: Seq<char>,
    sanity_path: Seq<char>,
    answers: spec_fn(int) -> bool,
)
    ensures
        command_at(script(workload_path, sanity_path), answers, 1) == (CommandModel::Send {
            keys: ":e "@ + workload_path + "<CR>"@,
            delay_ms: 300,
        }),
{
    let steps = script(workload_path, sanity_path);
    law_script_opens_the_file(workload_path, sanity_path);
    assert(progress_after(steps, answers, 0) == (Progress::Running { next: 0 }));
    assert(steps[0] is Announce);
    assert(progress_after(steps, answers, 1) == (Progress::Running { next: 1 }));
}

/// The last keys that a script sends have the final state written to the file that
/// it was made with; two announcements follow.
pub proof fn law_script_writes_the_final_state(workload_path: Seq<char>, sanity_path: Seq<char>)
    ensures
        ({
            let steps = script(workload_path, sanity_path);
            let n = steps.len();
            &&& n > 3
            &&& steps[n - 3] is Send
            &&& steps[n - 3]->keys == ":call writefile([string(line('$')), string(line('.'))], '"@
                + sanity_path + "')<CR>"@
            &&& steps[n - 2] == StepModel::Announce("SANITY_DONE"@)
            &&& steps[n - 1] == StepModel::Announce("SHUTDOWN_START"@)
        }),
{
    let steps = script(workload_path, sanity_path);
    let closing = closing_steps(sanity_path);
    let n = steps.len() as int;
    assert(closing.len() == 3);
    assert(steps[n - 3] == closing[0] && steps[n - 2] == closing[1] && steps[n - 1] == closing[2]);
}

/// The paths are all in which two scripts differ: every step but the one that
/// opens the file and the one that has the final state written is the same.
pub proof fn law_scripts_differ_in_their_paths_only(
    a: Seq<char>,
    b: Seq<char>,
    c: Seq<char>,
    d: Seq<char>,
    i: int,
)
    requires
        0 <= i < script(a, b).len(),
        i != 1,
        i != script(a, b).len() - 3,
    ensures
        script(a, b).len() == script(c, d).len(),
        script(a, b)[i] == script(c, d)[i],
{
    let middle = warm_up_steps() + idle_steps() + measured_typing_steps() + scrolling_steps();
    assert(script(a, b) =~= opening_steps(a) + middle + closing_steps(b));
    assert(script(c, d) =~= opening_steps(c) + middle + closing_steps(d));
    assert(opening_steps(a).len() == 4 && closing_steps(b).len() == 3);
    if i < 4 {
        assert(script(a, b)[i] == opening_steps(a)[i]);
        assert(script(c, d)[i] == opening_steps(c)[i]);
    } else if i < 4 + middle.len() {
        assert(script(a, b)[i] == middle[i - 4]);
        assert(script(c, d)[i] == middle[i - 4]);
    } else {
        let j = i - 4 - middle.len();
        assert(script(a, b)[i] == closing_steps(b)[j]);
        assert(script(c, d)[i] == closing_steps(d)[j]);
    }
}

/// Scripts of different paths are different.
pub proof fn law_script_tells_its_paths(
    a: Seq<char>,
    b: Seq<char>,
    c: Seq<char>,
    d: Seq<char>,
)
    requires
        script(a, b) == script(c, d),
    ensures
        a == c,
        b == d,
{
    law_script_opens_the_file(a, b);
    law_script_opens_the_file(c, d);
    law_script_writes_the_final_state(a, b);
    law_script_writes_the_final_state(c, d);
    let x = ":e "@ + a + "<CR>"@;
    let y = ":call writefile([string(line('$')), string(line('.'))], '"@ + b + "')<CR>"@;
    let (p, q) = (":e "@.len() as int, "<CR>"@.len() as int);
    let (r, s) = (
        ":call writefile([string(line('$')), string(line('.'))], '"@.len() as int,
        "')<CR>"@.len() as int,
    );
    assert(a =~= x.subrange(p, x.len() - q));
    assert(c =~= x.subrange(p, x.len() - q));
    assert(b =~= y.subrange(r, y.len() - s));
    assert(d =~= y.subrange(r, y.len() - s));
}

/// All keys that steps send, in a row.
pub open spec fn keys_of(steps: Seq<StepModel>) -> Seq<char>
    decreases steps.len(),
{
    if steps.len() == 0 {
        Seq::empty()
    } else {
        let before = keys_of(steps.drop_last());
        match steps.last() {
            StepModel::Send { keys, .. } => before + keys,
            _ => before,
        }
    }
}

/// The keys of two lots of steps, one after the other.
proof fn lemma_keys_add(a: Seq<StepModel>, b: Seq<StepModel>)
    ensures
        keys_of(a + b) == keys_of(a) + keys_of(b),
    decreases b.len(),
{
    if b.len() == 0 {
        assert(a + b =~= a);
        assert(keys_of(a) + keys_of(b) =~= keys_of(a));
    } else {
        assert((a + b).drop_last() =~= a + b.drop_last());
        assert((a + b).last() == b.last());
        lemma_keys_add(a, b.drop_last());
        assert(keys_of(a + b) =~= keys_of(a) + keys_of(b));
    }
}

/// The keys of a step by itself.
proof fn lemma_keys_of_one(step: StepModel)
    ensures
        step is Send ==> keys_of(seq![step]) == step->keys,
        !(step is Send) ==> keys_of(seq![step]) == Seq::<char>::empty(),
{
    assert(seq![step].drop_last() =~= Seq::<StepModel>::empty());
    assert(keys_of(Seq::<StepModel>::empty()) =~= Seq::<char>::empty());
    if let StepModel::Send { keys, .. } = step {
        assert(Seq::<char>::empty() + keys =~= keys);
    }
}

/// The keys of one step more.
proof fn lemma_keys_push(steps: Seq<StepModel>, step: StepModel)
    ensures
        step is Send ==> keys_of(steps.push(step)) == keys_of(steps) + step->keys,
        !(step is Send) ==> keys_of(steps.push(step)) == keys_of(steps),
{
    assert(steps.push(step).drop_last() =~= steps);
}

/// Sending a text one character after the other sends the text.
proof fn lemma_keys_of_characters(text: Seq<char>, delay_ms: u64)
    ensures
        keys_of(Seq::new(text.len(), |i: int| required_send(seq![text[i]], delay_ms))) == text,
    decreases text.len(),
{
    let steps = Seq::new(text.len(), |i: int| required_send(seq![text[i]], delay_ms));
    if text.len() == 0 {
        assert(text =~= Seq::<char>::empty());
    } else {
        let before = text.drop_last();
        lemma_keys_of_characters(before, delay_ms);
        assert(steps.drop_last() =~= Seq::new(
            before.len(),
            |i: int| required_send(seq![before[i]], delay_ms),
        ));
        assert(before + seq![text.last()] =~= text);
    }
}

/// Each typing goes to the top of the buffer, begins an insert, types the text
/// character by character, and ends the insert. The text is a function of ten
/// lines and an empty one.
pub proof fn law_typing_types_the_text()
    ensures
        keys_of(typing_steps()) == "gg"@ + "i"@
            + "fn p11_workload_probe(seed: u64) -> u64 {\n    let mut acc: u64 = seed;\n    for i in 0..2000u64 {\n        acc = acc.wrapping_mul(6364136223846793005).wrapping_add(1442695040888963407);\n        if acc % 101 == 0 {\n            acc ^= i;\n        }\n    }\n    acc\n}\n\n"@
            + "<Esc>"@,
{
    let lead = seq![send("gg"@, LEAD_IN_DELAY_MS), send("i"@, LEAD_IN_DELAY_MS)];
    let typed = Seq::new(
        TYPED_TEXT@.len(),
        |i: int| required_send(seq![TYPED_TEXT@[i]], TYPE_KEY_DELAY_MS),
    );
    let end = seq![send("<Esc>"@, BARRIER_DELAY_MS)];
    lemma_keys_add(lead + typed, end);
    lemma_keys_add(lead, typed);
    lemma_keys_of_characters(TYPED_TEXT@, TYPE_KEY_DELAY_MS);
    lemma_keys_of_one(send("<Esc>"@, BARRIER_DELAY_MS));
    assert(lead =~= seq![send("gg"@, LEAD_IN_DELAY_MS)] + seq![send("i"@, LEAD_IN_DELAY_MS)]);
    lemma_keys_add(seq![send("gg"@, LEAD_IN_DELAY_MS)], seq![send("i"@, LEAD_IN_DELAY_MS)]);
    lemma_keys_of_one(send("gg"@, LEAD_IN_DELAY_MS));
    lemma_keys_of_one(send("i"@, LEAD_IN_DELAY_MS));
}

/// All that a script sends, in a row: the file is opened, the text is typed and
/// taken back, the text is typed once more, the buffer is scrolled, and the final
/// state is written.
pub proof fn law_script_sends_in_order(workload_path: Seq<char>, sanity_path: Seq<char>)
    ensures
        keys_of(script(workload_path, sanity_path)) == ":e "@ + workload_path + "<CR>"@ + keys_of(
            typing_steps(),
        ) + ":undo<CR>"@ + keys_of(typing_steps()) + keys_of(scrolling_steps())
            + ":call writefile([string(line('$')), string(line('.'))], '"@ + sanity_path
            + "')<CR>"@,
{
    let none = Seq::<StepModel>::empty();
    let opening = opening_steps(workload_path);
    let warm_up = warm_up_steps();
    let idle = idle_steps();
    let typing = measured_typing_steps();
    let scrolling = scrolling_steps();
    let closing = closing_steps(sanity_path);
    lemma_keys_add(opening + warm_up + idle + typing + scrolling, closing);
    lemma_keys_add(opening + warm_up + idle + typing, scrolling);
    lemma_keys_add(opening + warm_up + idle, typing);
    lemma_keys_add(opening + warm_up, idle);
    lemma_keys_add(opening, warm_up);
    // The opening.
    assert(opening =~= none.push(opening[0]).push(opening[1]).push(opening[2]).push(opening[3]));
    lemma_keys_push(none, opening[0]);
    lemma_keys_push(none.push(opening[0]), opening[1]);
    lemma_keys_push(none.push(opening[0]).push(opening[1]), opening[2]);
    lemma_keys_push(none.push(opening[0]).push(opening[1]).push(opening[2]), opening[3]);
    assert(keys_of(none) =~= Seq::<char>::empty());
    assert(keys_of(opening) =~= ":e "@ + workload_path + "<CR>"@);
    // The warm-up.
    let lead = seq![StepModel::Announce("WARMUP_START"@), StepModel::Rest { ms: IDLE_DURATION_MS }];
    let tail = seq![
        send(":undo<CR>"@, BARRIER_DELAY_MS),
        StepModel::Announce("WARMUP_DONE"@),
        StepModel::CheckAlive,
    ];
    lemma_keys_add(lead + typing_steps(), tail);
    lemma_keys_add(lead, typing_steps());
    lemma_nothing_sent(lead);
    assert(tail =~= none.push(tail[0]).push(tail[1]).push(tail[2]));
    lemma_keys_push(none, tail[0]);
    lemma_keys_push(none.push(tail[0]), tail[1]);
    lemma_keys_push(none.push(tail[0]).push(tail[1]), tail[2]);
    assert(keys_of(warm_up) =~= keys_of(typing_steps()) + ":undo<CR>"@);
    // The idle window.
    lemma_nothing_sent(idle);
    // The measured typing.
    let before = seq![StepModel::Announce("TYPING_START"@), StepModel::Enter(Phase::Typing)];
    let after = seq![StepModel::Announce("TYPING_END"@), StepModel::CheckAlive];
    lemma_keys_add(before + typing_steps(), after);
    lemma_keys_add(before, typing_steps());
    lemma_nothing_sent(before);
    lemma_nothing_sent(after);
    assert(keys_of(typing) =~= keys_of(typing_steps()));
    // The end.
    assert(closing =~= none.push(closing[0]).push(closing[1]).push(closing[2]));
    lemma_keys_push(none, closing[0]);
    lemma_keys_push(none.push(closing[0]), closing[1]);
    lemma_keys_push(none.push(closing[0]).push(closing[1]), closing[2]);
    assert(keys_of(closing) =~= ":call writefile([string(line('$')), string(line('.'))], '"@
        + sanity_path + "')<CR>"@);
    assert(keys_of(script(workload_path, sanity_path)) =~= ":e "@ + workload_path + "<CR>"@
        + keys_of(typing_steps()) + ":undo<CR>"@ + keys_of(typing_steps()) + keys_of(
        scrolling_steps(),
    ) + ":call writefile([string(line('$')), string(line('.'))], '"@ + sanity_path + "')<CR>"@);
}

/// Steps of which none sends keys.
proof fn lemma_nothing_sent(steps: Seq<StepModel>)
    requires
        forall|i: int| 0 <= i < steps.len() ==> !(#[trigger] steps[i] is Send),
    ensures
        keys_of(steps) == Seq::<char>::empty(),
    decreases steps.len(),
{
    if steps.len() > 0 {
        let before = steps.drop_last();
        assert forall|i: int| 0 <= i < before.len() implies !(#[trigger] before[i] is Send) by {
            assert(before[i] == steps[i]);
        }
        lemma_nothing_sent(before);
        assert(!(steps[steps.len() - 1] is Send));
    }
}

/// A run cannot go on without the file, a typed character or a scroll key: just
/// the keys that are sent at those paces, 300 and 20 milliseconds, have to arrive.
pub proof fn law_which_keys_have_to_arrive(
    workload_path: Seq<char>,
    sanity_path: Seq<char>,
    i: int,
)
    requires
        0 <= i < script(workload_path, sanity_path).len(),
        script(workload_path, sanity_path)[i] is Send,
    ensures
        ({
            let step = script(workload_path, sanity_path)[i];
            step->required <==> step->delay_ms == 300 || step->delay_ms == 20
        }),
{
    let opening = opening_steps(workload_path);
    let warm_up = warm_up_steps();
    let idle = idle_steps();
    let typing = measured_typing_steps();
    let scrolling = scrolling_steps();
    let closing = closing_steps(sanity_path);
    let a = opening.len() as int;
    let b = a + warm_up.len();
    let c = b + idle.len();
    let d = c + typing.len();
    let e = d + scrolling.len();
    let step = script(workload_path, sanity_path)[i];
    if i < a {
        assert(step == opening[i]);
    } else if i < b {
        assert(step == warm_up[i - a]);
        lemma_paces(warm_up, i - a);
    } else if i < c {
        assert(step == idle[i - b]);
    } else if i < d {
        assert(step == typing[i - c]);
        lemma_paces(typing, i - c);
    } else if i < e {
        assert(step == scrolling[i - d]);
        assert(scrolling.len() == scroll_sequence().len() + 3);
    } else {
        assert(step == closing[i - e]);
    }
}

/// The paces of the steps around a typing.
proof fn lemma_paces(steps: Seq<StepModel>, i: int)
    requires
        steps == warm_up_steps() || steps == measured_typing_steps(),
        0 <= i < steps.len(),
        steps[i] is Send,
    ensures
        steps[i]->required <==> steps[i]->delay_ms == 300 || steps[i]->delay_ms == 20,
{
    let typing = typing_steps();
    let n = TYPED_TEXT@.len() as int;
    assert(typing.len() == n + 3);
    if 2 <= i < n + 5 {
        let j = i - 2;
        assert(steps[i] == typing[j]);
        if j == 0 {
            assert(typing[j] == send("gg"@, LEAD_IN_DELAY_MS));
        } else if j == 1 {
            assert(typing[j] == send("i"@, LEAD_IN_DELAY_MS));
        } else if j < n + 2 {
            assert(typing[j] == required_send(seq![TYPED_TEXT@[j - 2]], TYPE_KEY_DELAY_MS));
        } else {
            assert(typing[j] == send("<Esc>"@, BARRIER_DELAY_MS));
        }
    } else if i >= n + 5 {
        if steps == warm_up_steps() {
            assert(steps[n + 5] == send(":undo<CR>"@, BARRIER_DELAY_MS));
            assert(steps[n + 6] is Announce);
            assert(steps[n + 7] is CheckAlive);
        } else {
            assert(steps[n + 5] is Announce);
            assert(steps[n + 6] is CheckAlive);
        }
    }
}

/// A command tells its step in full: the same marker, the same keys and the same
/// wait. What its answer is for is left out.
pub proof fn law_command_tells_its_step(
    name: Seq<char>,
    keys: Seq<char>,
    delay_ms: u64,
    required: bool,
    ms: u64,
    phase: Phase,
)
    ensures
        command_of(StepModel::Announce(name)) == CommandModel::Announce(name),
        command_of(StepModel::Send { keys, delay_ms, required }) == (CommandModel::Send {
            keys,
            delay_ms,
        }),
        command_of(StepModel::Rest { ms }) == (CommandModel::Rest { ms }),
        command_of(StepModel::Enter(phase)) == CommandModel::Enter(phase),
        command_of(StepModel::CheckAlive) == CommandModel::CheckAlive,
{
}

/// A run is broken off by a negative answer after keys that have to arrive and
/// after a look at Neovim, and after nothing else.
pub proof fn law_which_answers_decide(
    name: Seq<char>,
    keys: Seq<char>,
    delay_ms: u64,
    ms: u64,
    phase: Phase,
)
    ensures
        decides(StepModel::Send { keys, delay_ms, required: true }),
        decides(StepModel::CheckAlive),
        !decides(StepModel::Send { keys, delay_ms, required: false }),
        !decides(StepModel::Announce(name)),
        !decides(StepModel::Rest { ms }),
        !decides(StepModel::Enter(phase)),
{
}

/// A negative answer where it decides has the loss of Neovim announced, once; the
/// end is commanded next, and then nothing. A positive answer, and any answer
/// where it does not decide, goes on with the next step.
pub proof fn law_answer_decides_the_next_command(
    steps: Seq<StepModel>,
    next: usize,
    alive: bool,
)
    requires
        0 < next <= steps.len() < usize::MAX,
    ensures
        ({
            let here = Progress::Running { next };
            let last = steps[next - 1];
            let stops = !alive && (last is CheckAlive || last is Send && last->required);
            &&& stops ==> next_command(steps, here, alive) == CommandModel::Announce(
                "NVIM_DIED_UNEXPECTEDLY"@,
            ) && next_progress(steps, here, alive) is BrokenOff
            &&& !stops && next < steps.len() ==> next_command(steps, here, alive) == command_of(
                steps[next as int],
            ) && next_progress(steps, here, alive) == (Progress::Running {
                next: (next + 1) as usize,
            })
            &&& !stops && next == steps.len() ==> next_command(steps, here, alive)
                == CommandModel::Finish && next_progress(steps, here, alive) is Over
        }),
        next_command(steps, Progress::BrokenOff, alive) == CommandModel::Finish,
        next_progress(steps, Progress::BrokenOff, alive) is Over,
        next_command(steps, Progress::Over, alive) == CommandModel::Done,
        next_progress(steps, Progress::Over, alive) is Over,
{
}

/// The line of a marker is the word `NEOVIBE_PHASE`, a colon, and the marker's
/// name as it is.
pub proof fn law_marker_line_tells_the_name(name: Seq<char>)
    ensures
        marker_text(name).take(14) == "NEOVIBE_PHASE:"@,
        marker_text(name).skip(14) == name,
{
    reveal_strlit("NEOVIBE_PHASE:");
    assert(marker_text(name).take(14) =~= "NEOVIBE_PHASE:"@);
    assert(marker_text(name).skip(14) =~= name);
}

} // verus!

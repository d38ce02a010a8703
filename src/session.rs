use vstd::prelude::*;
use crate::history::{written, MyHistory};

verus! {

/// Where the read-submit-print loop stands.
#[derive(Clone, Copy, PartialEq, Eq, Structural, Debug)]
pub enum LoopState {
    Prompting,
    Executing,
    Rendering,
    Terminated,
}

/// What the outside world reports back to the loop.
#[derive(Debug)]
pub enum LoopEvent {
    /// A line was read at the prompt.
    Line(String),
    /// The input stream ended or was interrupted.
    EndOfInput,
    QuerySucceeded,
    QueryFailed,
    RenderDone,
    RenderFailed,
}

/// What the loop asks the outside world to do next.
#[derive(Debug, PartialEq, Eq)]
pub enum LoopAction {
    /// Print a blank separator line and read a line at the prompt.
    ShowPrompt,
    /// Run this text as SQL.
    Submit(String),
    /// Show the result of the query just run.
    Render,
    /// Report the error of the query just run, then prompt again.
    ReportAndPrompt,
    /// Leave the loop with success.
    Exit,
    /// Nothing: the event does not belong to the current state.
    Idle,
}

/// The loop's transition: the next state and the action it asks for.
pub open spec fn next(s: LoopState, ev: LoopEvent) -> (LoopState, LoopAction) {
    match (s, ev) {
        (LoopState::Prompting, LoopEvent::Line(q)) => if q@.len() > 0 {
            (LoopState::Executing, LoopAction::Submit(q))
        } else {
            (LoopState::Prompting, LoopAction::ShowPrompt)
        },
        (LoopState::Prompting, LoopEvent::EndOfInput) => (LoopState::Terminated, LoopAction::Exit),
        (LoopState::Executing, LoopEvent::QuerySucceeded) => (
            LoopState::Rendering,
            LoopAction::Render,
        ),
        (LoopState::Executing, LoopEvent::QueryFailed) => (
            LoopState::Prompting,
            LoopAction::ReportAndPrompt,
        ),
        (LoopState::Rendering, LoopEvent::RenderDone) => (
            LoopState::Prompting,
            LoopAction::ShowPrompt,
        ),
        (LoopState::Rendering, LoopEvent::RenderFailed) => (
            LoopState::Prompting,
            LoopAction::ReportAndPrompt,
        ),
        (s, _) => (s, LoopAction::Idle),
    }
}

/// Whether `ev` is a non-empty line that the loop, in state `s`, submits.
pub open spec fn submits(s: LoopState, ev: LoopEvent) -> bool {
    &&& s == LoopState::Prompting
    &&& (ev matches LoopEvent::Line(q) && q@.len() > 0)
}

/// The state reached from `s` through the events `evs`, in order.
pub open spec fn run(s: LoopState, evs: Seq<LoopEvent>) -> LoopState
    decreases evs.len(),
{
    if evs.len() == 0 {
        s
    } else {
        next(run(s, evs.drop_last()), evs.last()).0
    }
}

/// The interactive session: the loop's state and the prompt's history.
pub struct QuerySession {
    state: LoopState,
    history: MyHistory,
}

impl QuerySession {
    pub closed spec fn spec_state(&self) -> LoopState {
        self.state
    }

    pub closed spec fn spec_history(&self) -> Seq<Seq<char>> {
        self.history@
    }

    /// A session at its first prompt, with an empty history.
    pub fn new() -> (r: Self)
        ensures
            r.spec_state() == LoopState::Prompting,
            r.spec_history() == Seq::<Seq<char>>::empty(),
    {
        QuerySession { state: LoopState::Prompting, history: MyHistory::new() }
    }

    pub fn state(&self) -> (r: LoopState)
        ensures
            r == self.spec_state(),
    {
        self.state
    }

    /// The history that the prompt recalls from.
    pub fn history(&self) -> (r: &MyHistory)
        ensures
            r@ == self.spec_history(),
    {
        &self.history
    }

    /// Takes one event: moves to the next state, records a submitted line in
    /// the history, and returns the action to perform.
    pub fn handle(&mut self, ev: LoopEvent) -> (a: LoopAction)
        ensures
            (final(self).spec_state(), a) == next(old(self).spec_state(), ev),
            final(self).spec_history() == (match ev {
                LoopEvent::Line(q) => if submits(old(self).spec_state(), ev) {
                    written(old(self).spec_history(), q@)
                } else {
                    old(self).spec_history()
                },
                _ => old(self).spec_history(),
            }),
    {
        match (self.state, ev) {
            (LoopState::Prompting, LoopEvent::Line(q)) => {
                if q.unicode_len() > 0 {
                    self.history.write(q.as_str());
                    self.state = LoopState::Executing;
                    LoopAction::Submit(q)
                } else {
                    LoopAction::ShowPrompt
                }
            },
            (LoopState::Prompting, LoopEvent::EndOfInput) => {
                self.state = LoopState::Terminated;
                LoopAction::Exit
            },
            (LoopState::Executing, LoopEvent::QuerySucceeded) => {
                self.state = LoopState::Rendering;
                LoopAction::Render
            },
            (LoopState::Executing, LoopEvent::QueryFailed) => {
                self.state = LoopState::Prompting;
                LoopAction::ReportAndPrompt
            },
            (LoopState::Rendering, LoopEvent::RenderDone) => {
                self.state = LoopState::Prompting;
                LoopAction::ShowPrompt
            },
            (LoopState::Rendering, LoopEvent::RenderFailed) => {
                self.state = LoopState::Prompting;
                LoopAction::ReportAndPrompt
            },
            _ => LoopAction::Idle,
        }
    }
}

/// A non-empty line at the prompt is submitted; when the query succeeds its
/// result is rendered, after which the loop prompts again.
pub proof fn lemma_successful_query_prompts_again(q: String)
    requires
        q@.len() > 0,
    ensures
        next(LoopState::Prompting, LoopEvent::Line(q)) == (
            LoopState::Executing,
            LoopAction::Submit(q),
        ),
        next(LoopState::Executing, LoopEvent::QuerySucceeded) == (
            LoopState::Rendering,
            LoopAction::Render,
        ),
        next(LoopState::Rendering, LoopEvent::RenderDone) == (
            LoopState::Prompting,
            LoopAction::ShowPrompt,
        ),
{
}

/// A submitted query that fails, whether when run or when rendered, is
/// reported and the loop prompts again instead of ending.
pub proof fn lemma_failed_query_prompts_again(q: String)
    requires
        q@.len() > 0,
    ensures
        next(LoopState::Prompting, LoopEvent::Line(q)) == (
            LoopState::Executing,
            LoopAction::Submit(q),
        ),
        next(LoopState::Executing, LoopEvent::QueryFailed) == (
            LoopState::Prompting,
            LoopAction::ReportAndPrompt,
        ),
        next(LoopState::Rendering, LoopEvent::RenderFailed) == (
            LoopState::Prompting,
            LoopAction::ReportAndPrompt,
        ),
{
}

/// The loop asks to exit, with success, exactly when the input ends at the
/// prompt.
pub proof fn lemma_exit_only_on_end_of_input(s: LoopState, ev: LoopEvent)
    ensures
        next(s, ev).1 == LoopAction::Exit <==> (s == LoopState::Prompting
            && ev == LoopEvent::EndOfInput),
        next(s, ev).0 == LoopState::Terminated && s != LoopState::Terminated ==> ev
            == LoopEvent::EndOfInput,
{
}

/// Whatever queries were run before, and however they ended, a session that
/// has not seen the end of its input is still going; once it is back at the
/// prompt, the end of input terminates it with an exit.
pub proof fn lemma_end_of_input_ends_session(evs: Seq<LoopEvent>)
    requires
        forall|i: int| 0 <= i < evs.len() ==> !(#[trigger] evs[i] is EndOfInput),
    ensures
        run(LoopState::Prompting, evs) != LoopState::Terminated,
        run(LoopState::Prompting, evs) == LoopState::Prompting ==> next(
            run(LoopState::Prompting, evs),
            LoopEvent::EndOfInput,
        ) == (LoopState::Terminated, LoopAction::Exit),
    decreases evs.len(),
{
    if evs.len() > 0 {
        let rest = evs.drop_last();
        assert forall|i: int| 0 <= i < rest.len() implies !(#[trigger] rest[i] is EndOfInput) by {
            assert(rest[i] == evs[i]);
        }
        lemma_end_of_input_ends_session(rest);
        assert(!(evs[evs.len() - 1] is EndOfInput));
    }
}

} // verus!

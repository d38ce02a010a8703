use parquet_shell::{LoopAction, LoopEvent, LoopState, QuerySession};

#[test]
fn successful_query_renders_and_prompts_again() {
    let mut s = QuerySession::new();
    let a = s.handle(LoopEvent::Line("select * from trips".to_string()));
    assert_eq!(a, LoopAction::Submit("select * from trips".to_string()));
    assert_eq!(s.state(), LoopState::Executing);
    assert_eq!(s.handle(LoopEvent::QuerySucceeded), LoopAction::Render);
    assert_eq!(s.handle(LoopEvent::RenderDone), LoopAction::ShowPrompt);
    assert_eq!(s.state(), LoopState::Prompting);
    assert_eq!(s.history().read(0), Some("select * from trips".to_string()));
}

#[test]
fn failed_query_reports_and_prompts_again() {
    let mut s = QuerySession::new();
    let a = s.handle(LoopEvent::Line("select * from missing".to_string()));
    assert_eq!(a, LoopAction::Submit("select * from missing".to_string()));
    assert_eq!(s.handle(LoopEvent::QueryFailed), LoopAction::ReportAndPrompt);
    assert_eq!(s.state(), LoopState::Prompting);
}

#[test]
fn render_failure_reports_and_prompts_again() {
    let mut s = QuerySession::new();
    s.handle(LoopEvent::Line("select 1/0".to_string()));
    assert_eq!(s.handle(LoopEvent::QuerySucceeded), LoopAction::Render);
    assert_eq!(s.handle(LoopEvent::RenderFailed), LoopAction::ReportAndPrompt);
    assert_eq!(s.state(), LoopState::Prompting);
}

#[test]
fn end_of_input_exits_after_mixed_queries() {
    let mut s = QuerySession::new();
    s.handle(LoopEvent::Line("select 1".to_string()));
    s.handle(LoopEvent::QuerySucceeded);
    s.handle(LoopEvent::RenderDone);
    s.handle(LoopEvent::Line("selec oops".to_string()));
    s.handle(LoopEvent::QueryFailed);
    assert_eq!(s.handle(LoopEvent::EndOfInput), LoopAction::Exit);
    assert_eq!(s.state(), LoopState::Terminated);
    assert_eq!(s.history().read(0), Some("selec oops".to_string()));
    assert_eq!(s.history().read(1), Some("select 1".to_string()));
    assert_eq!(s.history().read(2), None);
}

#[test]
fn end_of_input_at_once_exits() {
    let mut s = QuerySession::new();
    assert_eq!(s.handle(LoopEvent::EndOfInput), LoopAction::Exit);
    assert_eq!(s.state(), LoopState::Terminated);
}

#[test]
fn empty_line_prompts_again_without_history() {
    let mut s = QuerySession::new();
    assert_eq!(s.handle(LoopEvent::Line(String::new())), LoopAction::ShowPrompt);
    assert_eq!(s.state(), LoopState::Prompting);
    assert_eq!(s.history().read(0), None);
}

#[test]
fn out_of_place_events_are_ignored() {
    let mut s = QuerySession::new();
    assert_eq!(s.handle(LoopEvent::QuerySucceeded), LoopAction::Idle);
    assert_eq!(s.state(), LoopState::Prompting);
    s.handle(LoopEvent::EndOfInput);
    assert_eq!(s.handle(LoopEvent::Line("select 1".to_string())), LoopAction::Idle);
    assert_eq!(s.handle(LoopEvent::EndOfInput), LoopAction::Idle);
    assert_eq!(s.state(), LoopState::Terminated);
}

use crux_cli::command::Command;
use crux_cli::request::{Operation, Request, ResolveError};

#[derive(Debug, PartialEq, Clone)]
enum Op {
    Ask(u8),
    Watch,
    Tell,
}

#[derive(Debug, PartialEq)]
enum Answer {
    Number(u8),
}

impl Operation for Op {
    type Output = Answer;
}

enum Effect {
    Shell(Request<Op>),
}

impl From<Request<Op>> for Effect {
    fn from(request: Request<Op>) -> Self {
        Self::Shell(request)
    }
}

#[derive(Debug, PartialEq)]
enum Event {
    Got(Answer),
    Hello,
}

fn take_request(cmd: &mut Command<Effect, Event>) -> Request<Op> {
    let mut effects = cmd.effects();
    assert_eq!(effects.len(), 1);
    let Effect::Shell(request) = effects.remove(0);
    request
}

#[test]
fn a_notification_takes_no_answer() {
    let mut cmd: Command<Effect, Event> = Command::notify_shell(Op::Tell);
    let mut request = take_request(&mut cmd);
    assert_eq!(request.operation, Op::Tell);
    assert_eq!(request.resolve(Answer::Number(1)), Err(ResolveError::Never));
    assert!(cmd.is_done());
}

#[test]
fn a_request_takes_one_answer() {
    let mut cmd = Command::request_from_shell(Op::Ask(3)).then_send(Event::Got);
    let mut request = take_request(&mut cmd);
    assert_eq!(request.operation, Op::Ask(3));
    assert_eq!(request.resolve(Answer::Number(4)), Ok(()));
    assert_eq!(request.resolve(Answer::Number(5)), Err(ResolveError::Never));
    assert_eq!(cmd.events(), vec![Event::Got(Answer::Number(4))]);
    assert!(cmd.is_done());
}

#[test]
fn a_stream_takes_every_answer_in_order() {
    let mut cmd = Command::stream_from_shell(Op::Watch).then_send(Event::Got);
    let mut request = take_request(&mut cmd);
    for n in 0..5 {
        assert_eq!(request.resolve(Answer::Number(n)), Ok(()));
    }
    assert_eq!(
        cmd.events(),
        (0..5).map(|n| Event::Got(Answer::Number(n))).collect::<Vec<_>>()
    );
    assert!(!cmd.is_done());
}

#[test]
fn effects_are_emitted_only_when_asked_for() {
    let cmd: Command<Effect, Event> = Command::request_from_shell(Op::Ask(1)).then_send(Event::Got);
    assert!(!cmd.is_done());
    let mut cmd = cmd;
    assert!(cmd.events().is_empty());
    assert_eq!(cmd.effects().len(), 1);
    assert!(cmd.effects().is_empty());
}

#[test]
fn done_changes_nothing_alongside_another_command() {
    let mut cmd: Command<Effect, Event> =
        Command::done().and(Command::event(Event::Hello)).and(Command::done());
    assert_eq!(cmd.events(), vec![Event::Hello]);
    assert!(cmd.is_done());
}

#[test]
fn all_of_nothing_is_done() {
    let cmd: Command<Effect, Event> = Command::all([]);
    assert!(cmd.is_done());
}

#[test]
fn then_waits_for_the_first_command() {
    let first = Command::request_from_shell(Op::Ask(1)).then_send(Event::Got);
    let mut cmd = first.then(Command::event(Event::Hello));
    let mut request = take_request(&mut cmd);
    assert!(cmd.events().is_empty());
    request.resolve(Answer::Number(2)).expect("one answer");
    assert_eq!(cmd.events(), vec![Event::Got(Answer::Number(2)), Event::Hello]);
    assert!(cmd.is_done());
}

#[test]
fn chained_requests_follow_each_answer() {
    let mut cmd = Command::request_from_shell(Op::Ask(1))
        .then(|answer| {
            let Answer::Number(n) = answer;
            Command::request_from_shell(Op::Ask(n + 10))
        })
        .then_send(Event::Got);
    let mut first = take_request(&mut cmd);
    first.resolve(Answer::Number(5)).expect("one answer");
    let mut second = take_request(&mut cmd);
    assert_eq!(second.operation, Op::Ask(15));
    second.resolve(Answer::Number(0)).expect("one answer");
    assert_eq!(cmd.events(), vec![Event::Got(Answer::Number(0))]);
    assert!(cmd.is_done());
}

use crux_cli::command::Command;
use crux_cli::request::{Operation, Request};

#[allow(dead_code)]
#[derive(Debug, PartialEq, Clone)]
enum AnOperation {
    One,
    Two,
    Three,
}

#[allow(dead_code)]
#[derive(Debug, PartialEq)]
enum AnOperationOutput {
    One,
    Two,
    Three,
    Abort,
}

impl Operation for AnOperation {
    type Output = AnOperationOutput;
}

enum Effect {
    AnEffect(Request<AnOperation>),
}

impl From<Request<AnOperation>> for Effect {
    fn from(request: Request<AnOperation>) -> Self {
        Self::AnEffect(request)
    }
}

#[allow(dead_code)]
#[derive(Debug, PartialEq)]
enum Event {
    Completed(AnOperationOutput),
    Aborted,
}

// The sequence of two requests is built with `then`: the second request
// goes out only once the first one has been answered.

#[test]
fn effects_execute_in_sequence() {
    let mut cmd: Command<Effect, Event> = Command::request_from_shell(AnOperation::One)
        .then_send(Event::Completed)
        .then(Command::request_from_shell(AnOperation::Two).then_send(Event::Completed));

    assert!(cmd.events().is_empty());

    let mut effects = cmd.effects();
    let Effect::AnEffect(mut request) = effects.remove(0);

    assert_eq!(request.operation, AnOperation::One);

    request
        .resolve(AnOperationOutput::One)
        .expect("request should resolve");

    let event = cmd.events().remove(0);

    assert_eq!(event, Event::Completed(AnOperationOutput::One));

    assert!(cmd.events().is_empty());

    let mut effects = cmd.effects();
    let Effect::AnEffect(mut request) = effects.remove(0);

    assert_eq!(request.operation, AnOperation::Two);

    request
        .resolve(AnOperationOutput::Two)
        .expect("request should resolve");

    assert!(cmd.effects().is_empty());

    let event = cmd.events().remove(0);

    assert_eq!(event, Event::Completed(AnOperationOutput::Two))
}

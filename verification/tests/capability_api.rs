use crux_cli::builder::{Builder, RequestSource};
use crux_cli::command::Command;
use crux_cli::request::{Operation, Request};

#[allow(dead_code)]
#[derive(Debug, PartialEq, Clone)]
enum AnOperation {
    Request(usize),
    Stream(String),
}

#[allow(dead_code)]
#[derive(Debug, PartialEq)]
enum AnOperationOutput {
    Response(String),
    StreamEvent { order: usize, message: String },
}

impl Operation for AnOperation {
    type Output = AnOperationOutput;
}

enum Effect {
    AnEffect(Request<AnOperation>),
}

impl From<Request<AnOperation>> for Effect {
    fn from(request: Request<AnOperation>) -> Self {
        Self::AnEffect(request)
    }
}

#[allow(dead_code)]
#[derive(Debug, PartialEq)]
enum Event {
    Completed(AnOperationOutput),
}

struct Capability;

impl Capability {
    fn request(number: usize) -> Builder<Effect, Event, RequestSource<AnOperation>> {
        Command::request_from_shell(AnOperation::Request(number))
    }
}

// Only the builder form of the request: a command written with async code
// has no counterpart in this library.

#[test]
fn request() {
    let sync_cmd = Capability::request(10).then_send(Event::Completed);

    for mut cmd in [sync_cmd] {
        let mut effects = cmd.effects();
        assert!(cmd.events().is_empty());

        let Effect::AnEffect(mut request) = effects.remove(0);

        assert_eq!(request.operation, AnOperation::Request(10));

        request
            .resolve(AnOperationOutput::Response("ten".to_string()))
            .expect("should work");

        let events = cmd.events();

        assert_eq!(
            events[0],
            Event::Completed(AnOperationOutput::Response("ten".to_string()))
        );

        assert!(cmd.is_done());
    }
}

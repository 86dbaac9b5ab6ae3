use crux_cli::command::Command;
use crux_cli::request::{Operation, Request};

#[derive(Debug, PartialEq, Clone)]
enum AnOperation {
    One,
    Two,
    More([u8; 2]),
}

#[derive(Debug, PartialEq)]
enum AnOperationOutput {
    One,
    Two,
    Other([u8; 2]),
}

impl Operation for AnOperation {
    type Output = AnOperationOutput;
}

enum Effect {
    AnEffect(Request<AnOperation>),
}

impl From<Request<AnOperation>> for Effect {
    fn from(request: Request<AnOperation>) -> Self {
        Self::AnEffect(request)
    }
}

#[derive(Debug, PartialEq)]
enum Event {
    Completed(AnOperationOutput),
}

#[test]
fn then() {
    let cmd_one = Command::request_from_shell(AnOperation::One).then_send(Event::Completed);
    let cmd_two = Command::request_from_shell(AnOperation::Two).then_send(Event::Completed);

    let mut cmd = cmd_one.then(cmd_two);

    assert!(cmd.events().is_empty());

    let mut effects = cmd.effects();
    let Effect::AnEffect(mut request) = effects.remove(0);

    assert_eq!(request.operation, AnOperation::One);

    request
        .resolve(AnOperationOutput::One)
        .expect("request should resolve");

    let events = cmd.events();

    assert_eq!(events[0], Event::Completed(AnOperationOutput::One));

    let mut effects = cmd.effects();
    let Effect::AnEffect(mut request) = effects.remove(0);

    assert_eq!(request.operation, AnOperation::Two);

    request
        .resolve(AnOperationOutput::Two)
        .expect("request should resolve");

    assert!(cmd.effects().is_empty());

    let events = cmd.events();

    assert_eq!(events[0], Event::Completed(AnOperationOutput::Two));

    assert!(cmd.is_done());
}

#[test]
fn chaining() {
    let mut cmd: Command<Effect, Event> =
        Command::request_from_shell(AnOperation::More([3, 4]))
            .then(|first| {
                let AnOperationOutput::Other(first) = first else {
                    // every answer in this test is an `Other`
                    panic!("Invalid output!")
                };

                let second = [first[0] + 1, first[1] + 1];

                Command::request_from_shell(AnOperation::More(second))
            })
            .then_send(Event::Completed);

    let mut effects = cmd.effects();
    assert!(cmd.events().is_empty());

    let Effect::AnEffect(mut request) = effects.remove(0);

    assert_eq!(request.operation, AnOperation::More([3, 4]));
    request
        .resolve(AnOperationOutput::Other([1, 2]))
        .expect("to resolve");

    let mut effects = cmd.effects();
    assert!(cmd.events().is_empty());

    let Effect::AnEffect(mut request) = effects.remove(0);
    assert_eq!(request.operation, AnOperation::More([2, 3]));

    request
        .resolve(AnOperationOutput::Other([1, 2]))
        .expect("to resolve");

    let events = cmd.events();
    assert!(cmd.effects().is_empty());

    assert_eq!(
        events[0],
        Event::Completed(AnOperationOutput::Other([1, 2]))
    );

    assert!(cmd.is_done());
}

#[test]
fn and() {
    let cmd_one = Command::request_from_shell(AnOperation::One).then_send(Event::Completed);
    let cmd_two = Command::request_from_shell(AnOperation::Two).then_send(Event::Completed);

    let mut cmd = cmd_one.and(cmd_two);

    assert!(cmd.events().is_empty());

    let mut effects = cmd.effects();

    assert_eq!(effects.len(), 2);

    let Effect::AnEffect(mut request) = effects.remove(0);

    assert_eq!(request.operation, AnOperation::One);

    request
        .resolve(AnOperationOutput::One)
        .expect("request should resolve");

    // Still the effects taken first
    let Effect::AnEffect(mut request) = effects.remove(0);

    assert_eq!(request.operation, AnOperation::Two);

    request
        .resolve(AnOperationOutput::Two)
        .expect("request should resolve");

    assert!(cmd.effects().is_empty());

    let events = cmd.events();

    assert_eq!(events[0], Event::Completed(AnOperationOutput::One));
    assert_eq!(events[1], Event::Completed(AnOperationOutput::Two));

    println!("! Running cmd.is_done()");
    assert!(cmd.is_done());
}

#[test]
fn all() {
    let cmd_one = Command::request_from_shell(AnOperation::One).then_send(Event::Completed);
    let cmd_two = Command::request_from_shell(AnOperation::Two).then_send(Event::Completed);
    let cmd_three = Command::request_from_shell(AnOperation::One).then_send(Event::Completed);

    let mut cmd = Command::all([cmd_one, cmd_two, cmd_three]);

    assert!(cmd.events().is_empty());

    let mut effects = cmd.effects();

    assert_eq!(effects.len(), 3);

    let Effect::AnEffect(mut request) = effects.remove(0);

    assert_eq!(request.operation, AnOperation::One);

    request
        .resolve(AnOperationOutput::One)
        .expect("request should resolve");

    // Still the effects taken first
    let Effect::AnEffect(mut request) = effects.remove(0);

    assert_eq!(request.operation, AnOperation::Two);

    request
        .resolve(AnOperationOutput::Two)
        .expect("request should resolve");

    assert!(cmd.effects().is_empty());

    // Still the effects taken first
    let Effect::AnEffect(mut request) = effects.remove(0);

    assert_eq!(request.operation, AnOperation::One);

    request
        .resolve(AnOperationOutput::Two)
        .expect("request should resolve");

    assert!(cmd.effects().is_empty());

    let events = cmd.events();

    assert_eq!(events[0], Event::Completed(AnOperationOutput::One));
    assert_eq!(events[1], Event::Completed(AnOperationOutput::Two));
    assert_eq!(events[1], Event::Completed(AnOperationOutput::Two));

    assert!(cmd.is_done());
}

#[test]
fn complex_concurrency() {
    fn increment(output: AnOperationOutput) -> AnOperation {
        let AnOperationOutput::Other([a, b]) = output else {
            panic!("bad output");
        };

        AnOperation::More([a, b + 1])
    }

    let mut cmd = Command::all([
        Command::request_from_shell(AnOperation::More([1, 1]))
            .then(|out| Command::request_from_shell(increment(out)))
            .then_send(Event::Completed),
        Command::request_from_shell(AnOperation::More([2, 1]))
            .then(|out| Command::request_from_shell(increment(out)))
            .then_send(Event::Completed),
    ])
    .then(Command::request_from_shell(AnOperation::More([3, 1])).then_send(Event::Completed));

    // Phase 1

    assert!(cmd.events().is_empty());
    let mut effects = cmd.effects();

    assert_eq!(effects.len(), 2);

    let Effect::AnEffect(mut request_1) = effects.remove(0);
    let Effect::AnEffect(mut request_2) = effects.remove(0);

    assert_eq!(request_1.operation, AnOperation::More([1, 1]));
    assert_eq!(request_2.operation, AnOperation::More([2, 1]));

    request_1
        .resolve(AnOperationOutput::Other([1, 1]))
        .expect("request should resolve");

    request_2
        .resolve(AnOperationOutput::Other([2, 1]))
        .expect("request should resolve");

    // Phase 2

    assert!(cmd.events().is_empty());
    let mut effects = cmd.effects();

    assert_eq!(effects.len(), 2);

    let Effect::AnEffect(mut request_1) = effects.remove(0);
    let Effect::AnEffect(mut request_2) = effects.remove(0);

    assert_eq!(request_1.operation, AnOperation::More([1, 2]));
    assert_eq!(request_2.operation, AnOperation::More([2, 2]));

    request_1
        .resolve(AnOperationOutput::Other([1, 2]))
        .expect("request should resolve");

    request_2
        .resolve(AnOperationOutput::Other([2, 2]))
        .expect("request should resolve");

    // Phase 3

    let events = cmd.events();
    let mut effects = cmd.effects();

    assert_eq!(events.len(), 2);

    assert_eq!(
        events[0],
        Event::Completed(AnOperationOutput::Other([1, 2]))
    );
    assert_eq!(
        events[1],
        Event::Completed(AnOperationOutput::Other([2, 2]))
    );

    assert_eq!(effects.len(), 1);

    let Effect::AnEffect(mut request_1) = effects.remove(0);

    assert_eq!(request_1.operation, AnOperation::More([3, 1]));

    request_1
        .resolve(AnOperationOutput::Other([3, 1]))
        .expect("request should resolve");

    // Phase 4

    let events = cmd.events();

    assert_eq!(events.len(), 1);
    assert_eq!(
        events[0],
        Event::Completed(AnOperationOutput::Other([3, 1]))
    );

    assert!(cmd.is_done());
}

#[test]
fn concurrency_mixing_streams_and_requests() {
    let mut cmd: Command<Effect, Event> = Command::all([
        Command::stream_from_shell(AnOperation::One)
            .then(|out| {
                let AnOperationOutput::Other([a, b]) = out else {
                    panic!("Bad output");
                };

                Command::request_from_shell(AnOperation::More([a + 1, b + 1]))
            })
            .then_send(Event::Completed),
        Command::request_from_shell(AnOperation::Two)
            .then(|out| {
                let AnOperationOutput::Other([a, b]) = out else {
                    panic!("Bad output");
                };

                Command::stream_from_shell(AnOperation::More([a + 2, b + 2]))
            })
            .then_send(Event::Completed),
    ]);

    assert!(cmd.events().is_empty());
    let mut effects = cmd.effects();

    assert_eq!(effects.len(), 2);

    let Effect::AnEffect(mut stream_request) = effects.remove(0);
    let Effect::AnEffect(mut request) = effects.remove(0);

    assert_eq!(stream_request.operation, AnOperation::One);
    assert_eq!(request.operation, AnOperation::Two);

    stream_request
        .resolve(AnOperationOutput::Other([1, 2]))
        .expect("should resolve");

    let mut effects = cmd.effects();

    let Effect::AnEffect(mut plus_one_request) = effects.remove(0);
    assert_eq!(plus_one_request.operation, AnOperation::More([2, 3]));

    plus_one_request
        .resolve(AnOperationOutput::One)
        .expect("should resolve");

    let events = cmd.events();
    assert_eq!(events[0], Event::Completed(AnOperationOutput::One));

    // Can't request the plus one request again
    assert!(plus_one_request.resolve(AnOperationOutput::One).is_err());

    // but can get a new one by resolving stream request again
    stream_request
        .resolve(AnOperationOutput::Other([2, 3]))
        .expect("should resolve");

    let mut effects = cmd.effects();

    let Effect::AnEffect(plus_one_request) = effects.remove(0);
    assert_eq!(plus_one_request.operation, AnOperation::More([3, 4]));

    // The second request is the opposite

    request
        .resolve(AnOperationOutput::Other([1, 2]))
        .expect("should resolve");
    assert!(request.resolve(AnOperationOutput::Other([1, 2])).is_err());

    let mut effects = cmd.effects();

    let Effect::AnEffect(mut plus_two_request) = effects.remove(0);

    assert_eq!(plus_two_request.operation, AnOperation::More([3, 4]));

    // Plus two request is a subscription

    plus_two_request
        .resolve(AnOperationOutput::One)
        .expect("should resolve");
    plus_two_request
        .resolve(AnOperationOutput::Two)
        .expect("should resolve");
    plus_two_request
        .resolve(AnOperationOutput::One)
        .expect("should resolve");

    let events = cmd.events();
    assert_eq!(events[0], Event::Completed(AnOperationOutput::One));
    assert_eq!(events[1], Event::Completed(AnOperationOutput::Two));
    assert_eq!(events[2], Event::Completed(AnOperationOutput::One));
}

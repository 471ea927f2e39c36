use saba_core::client::build_request;
use saba_core::client::ClientError;
use saba_core::client::Command;
use saba_core::client::Event;
use saba_core::client::Exchange;
use saba_core::client::HttpClient;
use saba_core::client::Step;
use saba_core::client::TransportError;
use saba_core::error::ValidationError;
use saba_core::http::HttpResponse;

fn begin() -> Exchange {
    let step = HttpClient::new().begin("example.com".to_string(), 8080, "a/b?q=1".to_string());
    match step {
        Step::Next(exchange, command) => {
            assert_eq!(command, Command::Resolve { host: "example.com".to_string() });
            exchange
        }
        Step::Done(_) => panic!("an exchange does not end before it began"),
    }
}

fn next(exchange: Exchange, event: Event, expected: Command) -> Exchange {
    match exchange.advance(event) {
        Step::Next(exchange, command) => {
            assert_eq!(command, expected);
            exchange
        }
        Step::Done(result) => panic!("the exchange ended with {:?}", result),
    }
}

fn done(exchange: Exchange, event: Event) -> Result<HttpResponse, ClientError> {
    match exchange.advance(event) {
        Step::Next(_, command) => panic!("the exchange went on with {:?}", command),
        Step::Done(result) => result,
    }
}

fn broken(fault: TransportError) -> Result<HttpResponse, ClientError> {
    Err(ClientError::Transport(fault))
}

fn request() -> String {
    "GET /a/b?q=1 HTTP/1.1\nHost: example.com\nAccept: text/html\nConnection: close\n\n".to_string()
}

fn connected() -> Exchange {
    next(begin(), Event::Resolved { addresses: 2 }, Command::Connect { address: 0, port: 8080 })
}

fn sending() -> Exchange {
    next(connected(), Event::Connected, Command::Send { request: request() })
}

fn receiving() -> Exchange {
    next(sending(), Event::Sent, Command::Receive)
}

fn chunk(text: &str) -> Event {
    Event::Received { chunk: text.as_bytes().to_vec() }
}

#[test]
fn request_is_written_from_host_and_path() {
    assert_eq!(build_request("example.com", "a/b?q=1"), request());
    assert_eq!(
        build_request("h", ""),
        "GET / HTTP/1.1\nHost: h\nAccept: text/html\nConnection: close\n\n"
    );
}

#[test]
fn request_that_comes_back_unchanged_is_read_as_no_response() {
    let echoed = build_request("example.com", "");
    assert_eq!(
        HttpResponse::new(echoed),
        Err(ValidationError::InvalidStatusCode { token: "/".to_string() })
    );
}

#[test]
fn exchange_runs_from_resolving_to_the_response() {
    let exchange = receiving();
    let exchange = next(exchange, chunk("HTTP/1.1 200 OK\nContent-"), Command::Receive);
    let exchange = next(exchange, chunk("Type: text/html\n\n<html>"), Command::Receive);
    let exchange = next(exchange, chunk("</html>"), Command::Receive);
    let response = done(exchange, chunk("")).unwrap();
    assert_eq!(response.version(), "HTTP/1.1");
    assert_eq!(response.status_code(), 200);
    assert_eq!(response.reason(), "OK");
    assert_eq!(response.headers().len(), 1);
    assert_eq!(response.headers()[0].name(), "Content-Type");
    assert_eq!(response.headers()[0].value(), "text/html");
    assert_eq!(response.body(), "<html></html>");
}

#[test]
fn chunk_may_split_a_character() {
    let bytes = "HTTP/1.1 200 OK\n\nü".as_bytes();
    let (head, tail) = bytes.split_at(bytes.len() - 1);
    let exchange = next(receiving(), Event::Received { chunk: head.to_vec() }, Command::Receive);
    let exchange = next(exchange, Event::Received { chunk: tail.to_vec() }, Command::Receive);
    assert_eq!(done(exchange, chunk("")).unwrap().body(), "ü");
}

#[test]
fn failed_lookup_is_reported_as_no_address() {
    assert_eq!(done(begin(), Event::Failed), done(begin(), Event::Resolved { addresses: 0 }));
    assert_eq!(done(begin(), Event::Failed), broken(TransportError::NoAddressFound));
}

#[test]
fn host_without_address_is_given_up() {
    assert_eq!(
        done(begin(), Event::Resolved { addresses: 0 }),
        broken(TransportError::NoAddressFound)
    );
}

#[test]
fn failure_is_named_after_the_step_that_failed() {
    assert_eq!(done(begin(), Event::Failed), broken(TransportError::NoAddressFound));
    assert_eq!(done(connected(), Event::Failed), broken(TransportError::ConnectFailed));
    assert_eq!(done(sending(), Event::Failed), broken(TransportError::SendFailed));
    assert_eq!(done(receiving(), Event::Failed), broken(TransportError::ReceiveFailed));
    let exchange = next(receiving(), chunk("HTTP/1.1 200 OK\n\n"), Command::Receive);
    assert_eq!(done(exchange, Event::Failed), broken(TransportError::ReceiveFailed));
}

#[test]
fn event_that_is_not_awaited_counts_as_failure() {
    assert_eq!(done(begin(), Event::Connected), broken(TransportError::NoAddressFound));
    assert_eq!(done(begin(), chunk("")), broken(TransportError::NoAddressFound));
    assert_eq!(done(connected(), Event::Sent), broken(TransportError::ConnectFailed));
    assert_eq!(
        done(connected(), Event::Resolved { addresses: 1 }),
        broken(TransportError::ConnectFailed)
    );
    assert_eq!(done(sending(), Event::Connected), broken(TransportError::SendFailed));
    assert_eq!(done(sending(), chunk("x")), broken(TransportError::SendFailed));
    assert_eq!(done(receiving(), Event::Sent), broken(TransportError::ReceiveFailed));
}

#[test]
fn nothing_received_is_no_response() {
    assert_eq!(
        done(receiving(), chunk("")),
        Err(ClientError::Validation(ValidationError::MalformedStatusLine { line: String::new() }))
    );
}

#[test]
fn faults_of_the_response_are_passed_on() {
    let exchange = next(receiving(), chunk("HTTP/1.1 200 OK\nA: b\n"), Command::Receive);
    assert_eq!(
        done(exchange, chunk("")),
        Err(ClientError::Validation(ValidationError::MissingBodySeparator))
    );
}

#[test]
fn bytes_that_are_not_utf8_are_refused() {
    let mut bytes = "HTTP/1.1 200 OK\n\n".as_bytes().to_vec();
    bytes.push(0xff);
    let exchange = next(receiving(), Event::Received { chunk: bytes }, Command::Receive);
    assert_eq!(
        done(exchange, chunk("")),
        Err(ClientError::Validation(ValidationError::InvalidEncoding))
    );
}

#[test]
fn from_bytes_decodes_before_it_reads() {
    let response = HttpResponse::from_bytes("HTTP/1.1 200 OK\nA: ü\n\n✓".as_bytes()).unwrap();
    assert_eq!(response.headers()[0].value(), "ü");
    assert_eq!(response.body(), "✓");
    assert_eq!(
        HttpResponse::from_bytes("HTTP/1.1 200 OK\nA: b\n\n".as_bytes()),
        HttpResponse::new("HTTP/1.1 200 OK\nA: b\n\n".to_string())
    );
    assert_eq!(
        HttpResponse::from_bytes("HTTP/1.1".as_bytes()),
        Err(ValidationError::MalformedStatusLine { line: "HTTP/1.1".to_string() })
    );
}

#[test]
fn from_bytes_refuses_malformed_utf8() {
    let refused = Err(ValidationError::InvalidEncoding);
    assert_eq!(HttpResponse::from_bytes(&[0xff]), refused);
    assert_eq!(HttpResponse::from_bytes(&[b'H', 0xc3]), refused);
    assert_eq!(HttpResponse::from_bytes(&[0xc0, 0x80]), refused);
    assert_eq!(HttpResponse::from_bytes(&[0xed, 0xa0, 0x80]), refused);
    assert_eq!(HttpResponse::from_bytes(&[0xf4, 0x90, 0x80, 0x80]), refused);
    assert_eq!(HttpResponse::from_bytes(&[0x80]), refused);
}

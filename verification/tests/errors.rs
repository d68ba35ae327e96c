use kv::client::errors as client;
use kv::encoding::DecodeFailure;
use kv::server::errors as server;
use kv::text::endpoint;

#[test]
fn client_socket_open_line() {
    assert_eq!(
        client::SocketOpenError("Too many open files".to_string()).message(),
        "Could not open a ZeroMQ socket: Too many open files"
    );
}

#[test]
fn client_socket_connection_line() {
    let error = client::SocketConnectionError {
        error: "Invalid argument".to_string(),
        host: "localhost".to_string(),
        port: 60054,
    };
    assert_eq!(
        error.message(),
        "Could not connect the ZeroMQ socket over tcp://localhost:60054; got error: Invalid argument"
    );
}

#[test]
fn client_socket_send_line() {
    let error = client::SocketSendError {
        error: "Host unreachable".to_string(),
        host: "10.0.0.1".to_string(),
        port: 1,
    };
    assert_eq!(
        error.message(),
        "Could not send a message over the ZeroMQ socket at tcp://10.0.0.1:1; got error: Host unreachable"
    );
}

#[test]
fn client_stdin_read_line() {
    assert_eq!(
        client::StdinReadError("stream did not contain valid UTF-8".to_string()).message(),
        "Could not read from stdin; got error: stream did not contain valid UTF-8"
    );
}

#[test]
fn server_message_decode_line_without_failure() {
    assert_eq!(
        server::MessageDecodeError(None, b"hello".to_vec()).message(),
        "Could not decode a message sent by a client; got message (base64-encoded): aGVsbG8="
    );
}

#[test]
fn server_message_decode_line_with_failure() {
    assert_eq!(
        server::MessageDecodeError(Some(DecodeFailure::InvalidTag), vec![0, 0, 0, 0]).message(),
        "Could not decode a message sent by a client; got this error with this message (base64-encoded): invalid tag value: 0, AAAAAA=="
    );
}

#[test]
fn server_message_decode_line_of_an_empty_frame() {
    assert_eq!(
        server::MessageDecodeError(None, vec![]).message(),
        "Could not decode a message sent by a client; got message (base64-encoded): "
    );
}

#[test]
fn server_socket_open_line() {
    assert_eq!(
        server::SocketOpenError("Too many open files".to_string()).message(),
        "Could not open a ZeroMQ socket: Too many open files"
    );
}

#[test]
fn server_socket_connection_line() {
    let error = server::SocketConnectionError {
        error: "Invalid argument".to_string(),
        host: "localhost".to_string(),
        port: 60054,
    };
    assert_eq!(
        error.message(),
        "Could not connect the ZeroMQ socket over tcp://localhost:60054; got error: Invalid argument"
    );
}

#[test]
fn server_socket_recv_line() {
    let error = server::SocketRecvError {
        error: "Context was terminated".to_string(),
        host: "localhost".to_string(),
        port: 65535,
    };
    assert_eq!(
        error.message(),
        "Could not retreive data from the ZeroMQ socket on tcp://localhost:65535; got error: Context was terminated"
    );
}

#[test]
fn server_unsent_response_line() {
    let error =
        server::UnsentResponseError { client_id: 42, host: "localhost".to_string(), port: 60054 };
    assert_eq!(
        error.message(),
        "Could not send data on the ZeroMQ socket on tcp://localhost:60054 for client 42"
    );
    let error =
        server::UnsentResponseError { client_id: u32::MAX, host: String::new(), port: 0 };
    assert_eq!(
        error.message(),
        "Could not send data on the ZeroMQ socket on tcp://:0 for client 4294967295"
    );
}

#[test]
fn every_decode_failure_has_its_words() {
    assert_eq!(DecodeFailure::InvalidVarint.description(), "invalid varint");
    assert_eq!(DecodeFailure::InvalidKey.description(), "invalid key value");
    assert_eq!(DecodeFailure::InvalidWireType.description(), "invalid wire type value");
    assert_eq!(DecodeFailure::InvalidTag.description(), "invalid tag value: 0");
    assert_eq!(DecodeFailure::UnexpectedWireType.description(), "unexpected wire type");
    assert_eq!(DecodeFailure::BufferUnderflow.description(), "buffer underflow");
    assert_eq!(
        DecodeFailure::InvalidString.description(),
        "invalid string value: data is not UTF-8 encoded"
    );
    assert_eq!(DecodeFailure::InvalidUnknownField.description(), "invalid unknown field");
}

fn logged_frame(frame: &[u8]) -> String {
    let line = server::MessageDecodeError(None, frame.to_vec()).message();
    line.strip_prefix(
        "Could not decode a message sent by a client; got message (base64-encoded): ",
    )
    .unwrap()
    .to_string()
}

#[test]
fn frames_are_logged_in_base64() {
    assert_eq!(logged_frame(b""), "");
    assert_eq!(logged_frame(b"f"), "Zg==");
    assert_eq!(logged_frame(b"fo"), "Zm8=");
    assert_eq!(logged_frame(b"foo"), "Zm9v");
    assert_eq!(logged_frame(&[0xfb, 0xff]), "+/8=");
}

#[test]
fn numbers_are_written_in_decimal() {
    assert_eq!(endpoint("h", 0), "tcp://h:0");
    assert_eq!(endpoint("h", 9), "tcp://h:9");
    assert_eq!(endpoint("h", 10), "tcp://h:10");
    assert_eq!(endpoint("h", 65535), "tcp://h:65535");
}

#[test]
fn endpoint_of_host_and_port() {
    assert_eq!(endpoint("localhost", 60054), "tcp://localhost:60054");
    assert_eq!(endpoint("::1", 7), "tcp://::1:7");
}

#[test]
fn decode_line_of_a_given_text() {
    assert_eq!(
        server::decode_line_of(None, "QQ=="),
        "Could not decode a message sent by a client; got message (base64-encoded): QQ=="
    );
    assert_eq!(
        server::decode_line_of(Some(DecodeFailure::BufferUnderflow), ""),
        "Could not decode a message sent by a client; got this error with this message (base64-encoded): buffer underflow, "
    );
}

#[test]
fn frames_that_fit_in_memory_fit() {
    assert!(server::MessageDecodeError(None, vec![]).fits());
    assert!(server::MessageDecodeError(None, vec![0; 1000]).fits());
}

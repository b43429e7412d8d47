use std::cell::Cell;
use nearssage::client::{Connection, Handshake};
use nearssage::compress::Compressed;
use nearssage::encoding::Encode;
use nearssage::error::Error;
use nearssage::exchange::{Exchange, Exchangeable, SKEcdh};
use nearssage::identity::{SKIdentity, Signature};
use nearssage::protocol::codec::client::{Client as Request, Session, User};
use nearssage::protocol::connection::{ReadOutcome, ReceivedStatus};
use nearssage::protocol::signal::{Height, Signal, SignalError, Subsignal, SubsignalError};
use nearssage::protocol::wire::SignalModel;
use nearssage::server::client::{Client, ClientSignal, Opened, Routed, ServerSignal, SubsignalHandlerResolution, UserState};
use nearssage::server::handler::{Action, Handler, PeerAddr};

fn addr(port: u16) -> PeerAddr {
    PeerAddr { ip: 0x7f00_0001, port }
}

/// A client and a server shake hands; returns both ends.
fn shake_hands(server_identity: &SKIdentity, handler: &mut Handler, at: PeerAddr) -> (Connection, Client) {
    let (mut connection, handshake) = Connection::new();
    let mut client = None;
    let reply = match handler.handle_signal(server_identity, at, &mut client, Ok(handshake)) {
        Ok(Action::Send(signal)) => signal,
        _ => panic!("the server did not answer the handshake"),
    };
    let (back, outcome) = connection.handle_signal(&server_identity.pk_identity(), reply);
    assert!(back.is_none());
    assert!(matches!(outcome, Ok(None)));
    (connection, client.unwrap())
}

#[test]
fn server() {
    let server_identity = SKIdentity::new();
    let mut handler = Handler::new();
    let (connection, client) = shake_hands(&server_identity, &mut handler, addr(6000));

    // The client is in the server's client's pool
    assert!(handler.get_client(addr(6000)).is_some());
    assert_eq!(handler.len(), 1);

    // Server and client have the same shared secret
    assert_eq!(connection.session.shared_secret().unwrap(), *client.shared_secret());
}

#[test]
fn handshake_with_wrong_server_identity_is_refused() {
    let server_identity = SKIdentity::new();
    let impostor = SKIdentity::new();
    let mut handler = Handler::new();
    let (mut connection, handshake) = Connection::new();
    let mut client = None;
    let reply = match handler.handle_signal(&server_identity, addr(1), &mut client, Ok(handshake)) {
        Ok(Action::Send(signal)) => signal,
        _ => panic!("the server did not answer the handshake"),
    };
    let (_, outcome) = connection.handle_signal(&impostor.pk_identity(), reply);
    assert!(matches!(outcome, Err(Error::InvalidSignature)));
    assert!(matches!(connection.session.shared_secret, Handshake::Awaiting(_)));
}

#[test]
fn second_handshake_is_answered_with_an_error() {
    let server_identity = SKIdentity::new();
    let mut handler = Handler::new();
    let (mut connection, _client) = shake_hands(&server_identity, &mut handler, addr(2));
    let (_, handshake) = Connection::new();
    let mut client = None;
    let reply = match handler.handle_signal(&server_identity, addr(3), &mut client, Ok(handshake)) {
        Ok(Action::Send(signal)) => signal,
        _ => panic!("the server did not answer the handshake"),
    };
    let (back, outcome) = connection.handle_signal(&server_identity.pk_identity(), reply);
    assert!(matches!(outcome, Err(Error::AlreadyHandshaked)));
    let back = back.unwrap();
    assert!(matches!(back, Signal::Subsignal(0, _)));
}

#[test]
fn reply_reaches_the_client() {
    let server_identity = SKIdentity::new();
    let mut handler = Handler::new();
    let (mut connection, mut client) = shake_hands(&server_identity, &mut handler, addr(4));
    let reply = vec![1u8, 2, 3, 4, 5, 6, 7, 8];
    let signal = match client.resolve(Routed::Reply(reply.clone())) {
        Ok(Some(SubsignalHandlerResolution::Send(s))) => s,
        _ => panic!("no signal to send"),
    };
    assert_eq!(client.height.sending, 1);
    let (back, outcome) = connection.handle_signal(&server_identity.pk_identity(), signal);
    assert!(back.is_none());
    match outcome {
        Ok(Some(Opened::Request(bytes))) => assert_eq!(bytes, reply),
        _ => panic!("the client did not read the reply"),
    }
    assert_eq!(connection.session.height.receiving, 1);
}

#[test]
fn invalid_request_is_answered_with_an_error_subsignal() {
    let server_identity = SKIdentity::new();
    let mut handler = Handler::new();
    let (mut connection, mut client) = shake_hands(&server_identity, &mut handler, addr(5));
    let signal = match client.resolve(Routed::Invalid) {
        Ok(Some(SubsignalHandlerResolution::Send(s))) => s,
        _ => panic!("no signal to send"),
    };
    let (_, outcome) = connection.handle_signal(&server_identity.pk_identity(), signal);
    assert!(matches!(outcome, Err(Error::Invalidated)));
    assert!(matches!(client.resolve(Routed::Silent), Ok(None)));
}

#[test]
fn request_breaking_a_rule_is_answered_invalid() {
    let server_identity = SKIdentity::new();
    let mut handler = Handler::new();
    let (mut connection, mut client) = shake_hands(&server_identity, &mut handler, addr(8));

    // A request within its rules gets no answer at this step and changes nothing
    let fine = Request::Session(Session::Invalidate);
    assert!(matches!(client.check_request(&fine, 19000), Ok(None)));
    assert_eq!(client.height.sending, 0);

    // An empty username breaks its length rule: an Invalid error at height 0
    let bad = Request::User(User::Username(Some(Vec::new())));
    let signal = match client.check_request(&bad, 19000) {
        Ok(Some(s)) => s,
        _ => panic!("no answer to a request that breaks a rule"),
    };
    assert!(matches!(signal, Signal::Subsignal(0, _)));
    assert_eq!(client.height.sending, 1);
    assert_eq!(client.height.receiving, 0);
    let (_, outcome) = connection.handle_signal(&server_identity.pk_identity(), signal);
    assert!(matches!(outcome, Err(Error::Invalidated)));
}

#[test]
fn subsignal_at_wrong_height_is_refused() {
    let server_identity = SKIdentity::new();
    let mut handler = Handler::new();
    let (mut connection, mut client) = shake_hands(&server_identity, &mut handler, addr(7));
    client.height.sending = 5;
    let signal = match client.resolve(Routed::Reply(vec![9u8])) {
        Ok(Some(SubsignalHandlerResolution::Send(s))) => s,
        _ => panic!("no signal to send"),
    };
    let (_, outcome) = connection.handle_signal(&server_identity.pk_identity(), signal);
    assert!(matches!(outcome, Err(Error::InvalidHeight)));
}

#[test]
fn disconnect_removes_the_client_from_the_pool() {
    let server_identity = SKIdentity::new();
    let mut handler = Handler::new();
    let (mut connection, _) = shake_hands(&server_identity, &mut handler, addr(8));
    let mut client = Some(handler.get_client(addr(8)).unwrap().snapshot());
    let secret = connection.session.shared_secret().unwrap();
    let signal: ClientSignal = Subsignal::Disconnect.sugar(&secret, connection.session.height.sending()).unwrap();
    let action = handler.handle_signal(&server_identity, addr(8), &mut client, Ok(signal));
    assert!(matches!(action, Ok(Action::Close)));
    assert!(handler.get_client(addr(8)).is_none());
    assert_eq!(handler.len(), 0);
}

#[test]
fn server_turns_subsignals_into_actions() {
    let server_identity = SKIdentity::new();
    let mut handler = Handler::new();
    let (mut connection, _) = shake_hands(&server_identity, &mut handler, addr(11));
    let mut client = Some(handler.get_client(addr(11)).unwrap().snapshot());
    let secret = connection.session.shared_secret().unwrap();

    // A request comes out, decompressed, for routing; the client's height moves on
    let request = vec![1u8, 2, 3, 4];
    let content = Subsignal::Content(Compressed::from_serialized(&request));
    let signal: ClientSignal = content.sugar(&secret, connection.session.height.sending()).unwrap();
    match handler.handle_signal(&server_identity, addr(11), &mut client, Ok(signal)) {
        Ok(Action::Route(bytes)) => assert_eq!(bytes, request),
        _ => panic!("the request was not routed"),
    }
    assert_eq!(client.as_ref().unwrap().height.receiving, 1);
    assert_eq!(handler.len(), 1);

    // A tampered checksum is refused as corrupted
    let mut tampered: ClientSignal = Subsignal::Disconnect.sugar(&secret, connection.session.height.sending()).unwrap();
    if let Signal::Subsignal(_, c) = &mut tampered {
        c.checksum ^= 1;
    }
    let refused = handler.handle_signal(&server_identity, addr(11), &mut client, Ok(tampered));
    assert!(matches!(refused, Err(Error::Corrupted)));

    // An error reported by the client fails with that error
    let reported: ClientSignal =
        Subsignal::Error(SubsignalError::Invalid).sugar(&secret, connection.session.height.sending()).unwrap();
    let failed = handler.handle_signal(&server_identity, addr(11), &mut client, Ok(reported));
    assert!(matches!(failed, Err(Error::Peer(SubsignalError::Invalid))));
}

#[test]
fn subsignal_before_handshake_is_refused() {
    let server_identity = SKIdentity::new();
    let mut handler = Handler::new();
    let signal: ClientSignal = Subsignal::Disconnect.sugar(&[0u8; 32], 0).unwrap();
    let mut client = None;
    let action = handler.handle_signal(&server_identity, addr(9), &mut client, Ok(signal));
    assert!(matches!(action, Err(Error::NotHandshaked)));
    let failed = handler.handle_signal(&server_identity, addr(9), &mut client, Err(ReceivedStatus::Timeout));
    assert!(matches!(failed, Err(Error::Received(ReceivedStatus::Timeout))));
    let invalidated = handler.handle_signal(&server_identity, addr(9), &mut client, Ok(Signal::Error(SignalError::Malformed)));
    assert!(matches!(invalidated, Err(Error::Invalidated)));
}

#[test]
fn pool_keeps_one_client_per_address() {
    let mut handler = Handler::new();
    let (first, _) = Client::new(&SKEcdh::new().pk_exchange());
    let (second, _) = Client::new(&SKEcdh::new().pk_exchange());
    let second_secret = second.shared_secret().clone();
    handler.new_client(addr(10), first);
    handler.new_client(addr(10), second);
    assert_eq!(handler.len(), 1);
    assert_eq!(*handler.get_client(addr(10)).unwrap().shared_secret(), second_secret);
    handler.remove_client(addr(11));
    assert_eq!(handler.len(), 1);
    handler.close_connection(addr(10), false);
    assert_eq!(handler.len(), 1);
    handler.close_connection(addr(10), true);
    assert_eq!(handler.len(), 0);
}

#[test]
fn authenticate_user_with_signed_payload() {
    let identity = SKIdentity::new();
    let (mut client, _) = Client::new(&SKEcdh::new().pk_exchange());
    assert!(matches!(client.id(), Err(Error::UserIdUndefined)));
    let user_id = [7u8; 16];
    assert!(matches!(
        client.authenticate_user(user_id, &identity.0, &Signature(vec![0u8; 8])),
        Err(Error::NoRandomPayload)
    ));
    let payload = client.random_payload();
    assert_eq!(client.random_payload(), payload);
    let wrong = SKIdentity::new();
    assert!(matches!(
        client.authenticate_user(user_id, &identity.0, &Signature(wrong.sign(&payload))),
        Err(Error::InvalidSignature)
    ));
    assert!(client.authenticate_user(user_id, &identity.0, &Signature(identity.sign(&payload))).is_ok());
    assert!(matches!(client.user_id, UserState::Known(id) if id == user_id));
    assert_eq!(client.id().unwrap(), user_id);

    let mut handler = Handler::new();
    handler.new_client(addr(12), client);
    assert!(handler.get_client_by_user(user_id).is_some());
    assert!(handler.get_client_by_user([8u8; 16]).is_none());
}

#[test]
fn signals_read_back_from_their_encoding() {
    let pk = SKEcdh::new().pk_exchange();
    let handshake: ClientSignal = Signal::Handshake(nearssage::checksum::Checksumed::new(pk).unwrap());
    let bytes = handshake.encode();
    match Signal::<Exchange<[u8; 32], ()>>::decode(&bytes) {
        Ok(Signal::Handshake(c)) => {
            assert_eq!(c.data.0, pk.0);
            assert!(c.verify().is_ok());
        },
        _ => panic!("handshake did not read back"),
    }

    let secret = [3u8; 32];
    let subsignal: ServerSignal = Subsignal::Error(SubsignalError::BadChecksum).sugar(&secret, 300).unwrap();
    let bytes = subsignal.encode();
    let read = ServerSignal::decode(&bytes).unwrap();
    assert!(matches!(read, Signal::Subsignal(300, _)));
    match read.desugar(&secret) {
        Ok(Subsignal::Error(SubsignalError::BadChecksum)) => {},
        _ => panic!("subsignal did not open"),
    }

    let error: ClientSignal = Signal::Error(SignalError::HandshakeFailed);
    let bytes = error.encode();
    assert_eq!(bytes, vec![2u8, 0u8]);
    assert!(matches!(ClientSignal::decode(&bytes), Ok(Signal::Error(SignalError::HandshakeFailed))));
    assert!(ClientSignal::decode(&[9u8]).is_err());
    assert!(ClientSignal::decode(&[0u8, 1, 2]).is_err());
    let _ = SignalModel::<Vec<u8>>::Error(SignalError::Malformed);
}

#[test]
fn receiving_classifies_reads() {
    assert!(matches!(ClientSignal::receive(ReadOutcome::TimedOut), Err(ReceivedStatus::Timeout)));
    assert!(matches!(ClientSignal::receive(ReadOutcome::Failed), Err(ReceivedStatus::IOError)));
    assert!(matches!(
        ClientSignal::receive(ReadOutcome::Received(Some(vec![7u8, 7, 7]))),
        Err(ReceivedStatus::MalformedRequest)
    ));
    let bytes = Signal::<Exchange<[u8; 32], ()>>::Error(SignalError::Malformed).encode();
    assert!(matches!(
        ClientSignal::receive(ReadOutcome::Received(Some(bytes))),
        Ok(Signal::Error(SignalError::Malformed))
    ));
}

#[test]
fn only_exact_encodings_are_received() {
    // A signal error is the tag 2 and the error's index
    let bytes = vec![2u8, 0u8];
    assert!(matches!(ClientSignal::receive(ReadOutcome::Received(Some(bytes))), Ok(Signal::Error(_))));
    // A trailing byte, or the tag written as a non-canonical varint, is malformed
    assert!(matches!(
        ClientSignal::receive(ReadOutcome::Received(Some(vec![2u8, 0u8, 0u8]))),
        Err(ReceivedStatus::MalformedRequest)
    ));
    assert!(matches!(
        ClientSignal::receive(ReadOutcome::Received(Some(vec![0x82u8, 0x00, 0u8]))),
        Err(ReceivedStatus::MalformedRequest)
    ));
    // A handshake with nothing after its tag is malformed
    assert!(matches!(
        ClientSignal::receive(ReadOutcome::Received(Some(vec![0u8]))),
        Err(ReceivedStatus::MalformedRequest)
    ));
}

#[test]
fn subsignal_under_another_secret_is_refused() {
    let subsignal: ServerSignal = Subsignal::Error(SubsignalError::BadChecksum).sugar(&[3u8; 32], 0).unwrap();
    // Under another secret the plaintext encodes no subsignal, or not this one
    match subsignal.desugar(&[4u8; 32]) {
        Ok(Subsignal::Error(SubsignalError::BadChecksum)) => panic!("opened under the wrong secret"),
        Ok(_) => {},
        Err(e) => assert_eq!(e, Error::Malformed),
    }
}

#[test]
fn requests_are_checked_routed_and_answered() {
    let server_identity = SKIdentity::new();
    let mut handler = Handler::new();
    let (mut connection, mut client) = shake_hands(&server_identity, &mut handler, addr(12));
    let routed = Cell::new(false);

    // A request that breaks a rule is answered Invalid without routing
    let bad = Request::User(User::Username(Some(Vec::new())));
    let answer = client.answer_request(&bad, 19000, || {
        routed.set(true);
        Routed::Silent
    });
    let signal = match answer {
        Ok(Some(SubsignalHandlerResolution::Send(s))) => s,
        _ => panic!("no answer"),
    };
    assert!(!routed.get());
    let (_, outcome) = connection.handle_signal(&server_identity.pk_identity(), signal);
    assert!(matches!(outcome, Err(Error::Invalidated)));

    // A request within its rules is routed, and its reply sent back
    let fine = Request::Session(Session::Invalidate);
    let answer = client.answer_request(&fine, 19000, || {
        routed.set(true);
        Routed::Reply(vec![5u8, 6, 7])
    });
    assert!(routed.get());
    let signal = match answer {
        Ok(Some(SubsignalHandlerResolution::Send(s))) => s,
        _ => panic!("no reply"),
    };
    assert!(matches!(signal, Signal::Subsignal(1, _)));
    let (_, outcome) = connection.handle_signal(&server_identity.pk_identity(), signal);
    match outcome {
        Ok(Some(Opened::Request(bytes))) => assert_eq!(bytes, vec![5u8, 6, 7]),
        _ => panic!("the reply did not arrive"),
    }
    assert!(matches!(client.answer_request(&fine, 19000, || Routed::Silent), Ok(None)));
    assert_eq!(client.height.sending, 2);
}

#[test]
fn heights_are_accepted_in_order() {
    let mut height = Height::new();
    assert!(height.receiving(1).is_err());
    assert!(height.receiving(0).is_ok());
    assert!(matches!(height.receiving(0), Err(Error::InvalidHeight)));
    assert!(height.receiving(1).is_ok());
    assert_eq!(height.sending(), 0);
    assert_eq!(height.sending(), 1);
    assert_eq!(height.receiving, 2);
}

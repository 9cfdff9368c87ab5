use async_io_converse::{
    reply_channel, resolve_reply, Error, InternalMessage, ReplyOutcome, ReplyTicket, Routed, TypedFailure,
    DEFAULT_SIZE_LIMIT, DEFAULT_TIMEOUT_SECS,
};
use async_io_converse::{IdentifiableMessage, TestMessage};

fn waiting<T>(ticket: ReplyTicket<T>) -> tokio::sync::oneshot::Receiver<Result<T, Error>> {
    match ticket {
        ReplyTicket::Waiting(rx) => rx,
        ReplyTicket::Unregistered => panic!("the reading half is alive, the question must be registered"),
    }
}

fn request(value: u32, id: u64) -> InternalMessage<u32> {
    InternalMessage { user_message: value, conversation_id: id, is_reply: false }
}

fn reply(value: u32, id: u64) -> InternalMessage<u32> {
    InternalMessage { user_message: value, conversation_id: id, is_reply: true }
}

#[test]
fn question_reaches_peer_and_answer_reaches_asker() {
    let (mut asker, mut asker_book) = reply_channel::<u32>();
    let (_peer, mut peer_book) = reply_channel::<u32>();
    let out = asker.open(41);
    assert_eq!(out.envelope.conversation_id, 0);
    assert!(!out.envelope.is_reply);
    assert_eq!(out.envelope.user_message, 41);
    asker.sent();
    let rx = waiting(out.ticket);

    let received = match peer_book.receive(out.envelope, "peer writer") {
        Routed::Message(m) => m,
        _ => panic!("a question must reach the peer's user"),
    };
    assert_eq!(*received.message(), 41);
    let (writer, answer) = received.into_reply(42);
    assert_eq!(writer, "peer writer");
    assert_eq!(answer.conversation_id, 0);
    assert!(answer.is_reply);

    match asker_book.receive(answer, "asker writer") {
        Routed::Reply { waiter, value } => {
            assert_eq!(value, 42);
            assert!(waiter.deliver(value).is_ok());
        }
        _ => panic!("the answer must reach the asker"),
    }
    let mut rx = rx;
    match rx.try_recv() {
        Ok(Ok(v)) => assert_eq!(v, 42),
        _ => panic!("the asker must hold the answer"),
    }
}

#[test]
fn questions_are_numbered_one_after_another() {
    let (mut asker, _book) = reply_channel::<u32>();
    for expected in 0..5u64 {
        let out = asker.open(7);
        assert_eq!(out.envelope.conversation_id, expected);
        asker.sent();
    }
}

#[test]
fn unsent_question_keeps_its_number() {
    let (asker, _book) = reply_channel::<u32>();
    let first = asker.open(1);
    let second = asker.open(2);
    assert_eq!(first.envelope.conversation_id, 0);
    assert_eq!(second.envelope.conversation_id, 0);
}

#[test]
fn question_without_reading_half_is_unregistered() {
    let (asker, book) = reply_channel::<u32>();
    drop(book);
    let out = asker.open(3);
    assert!(matches!(out.ticket, ReplyTicket::Unregistered));
    assert!(matches!(out.ticket.into_receiver(), Err(Error::ReadHalfDropped)));
}

#[test]
fn registered_ticket_gives_its_receiver() {
    let (asker, _book) = reply_channel::<u32>();
    let out = asker.open(3);
    assert!(out.ticket.into_receiver().is_ok());
}

#[test]
fn reply_outcomes_settle_as_documented() {
    assert!(matches!(resolve_reply(ReplyOutcome::Replied(Ok::<u32, Error>(5))), Ok(5)));
    assert!(matches!(resolve_reply(ReplyOutcome::<u32>::Replied(Err(Error::SentMessageTooLarge))), Err(Error::SentMessageTooLarge)));
    assert!(matches!(resolve_reply(ReplyOutcome::<u32>::SenderDropped), Err(Error::ReadHalfDropped)));
    assert!(matches!(resolve_reply(ReplyOutcome::<u32>::TimedOut), Err(Error::Timeout)));
}

#[test]
fn answer_after_an_abandoned_question_still_arrives() {
    let (mut asker, mut book) = reply_channel::<u32>();
    let first = asker.open(10);
    asker.sent();
    let second = asker.open(11);
    asker.sent();
    drop(waiting(first.ticket));
    let mut rx = waiting(second.ticket);
    match book.receive(reply(111, 1), ()) {
        Routed::Reply { waiter, value } => {
            assert_eq!(value, 111);
            assert!(waiter.deliver(value).is_ok());
        }
        _ => panic!("the answer to the second question must reach it"),
    }
    assert!(matches!(rx.try_recv(), Ok(Ok(111))));
    // Both entries have left the book: the next request goes to the user.
    match book.receive(request(5, 9), ()) {
        Routed::Message(m) => assert_eq!(m.message_opt(), Some(&5)),
        _ => panic!("with nothing awaited, a request goes to the user"),
    }
}

#[test]
fn request_reaches_the_user_while_an_abandoned_question_leaves() {
    let (mut asker, mut book) = reply_channel::<u32>();
    let first = asker.open(10);
    asker.sent();
    drop(waiting(first.ticket));
    match book.receive(request(5, 0), ()) {
        Routed::Message(m) => assert_eq!(*m.message(), 5),
        _ => panic!("a request reaches the user even when an abandoned question leaves"),
    }
    // The abandoned question has left: its late answer goes to the user as well.
    match book.receive(reply(6, 0), ()) {
        Routed::Message(m) => assert_eq!(*m.message(), 6),
        _ => panic!("an answer nobody awaits goes to the user"),
    }
}

#[test]
fn late_answer_to_an_abandoned_question_goes_nowhere() {
    let (mut asker, mut book) = reply_channel::<u32>();
    let first = asker.open(10);
    asker.sent();
    drop(waiting(first.ticket));
    assert!(matches!(book.receive(reply(99, 0), ()), Routed::Late));
    // The abandoned question has left the book with its late answer: a second answer
    // numbered alike is one nobody awaits, and goes to the user.
    match book.receive(reply(98, 0), ()) {
        Routed::Message(m) => assert_eq!(*m.message(), 98),
        _ => panic!("an answer nobody awaits goes to the user"),
    }
}

#[test]
fn answer_to_an_abandoned_question_comes_back() {
    let (asker, mut book) = reply_channel::<u32>();
    let out = asker.open(10);
    let rx = waiting(out.ticket);
    // Registered, and not yet abandoned when routed.
    let routed = book.receive(reply(12, 0), ());
    drop(rx);
    match routed {
        Routed::Reply { waiter, value } => match waiter.deliver(value) {
            Err(Ok(back)) => assert_eq!(back, 12),
            _ => panic!("an answer nobody waits for comes back unchanged"),
        },
        _ => panic!("the answer must be routed to its question"),
    }
}

#[test]
fn registered_question_carries_its_number() {
    let (mut asker, _book) = reply_channel::<u32>();
    asker.sent();
    let out = asker.open(1);
    assert_eq!(out.envelope.conversation_id, 1);
    assert!(matches!(out.ticket, ReplyTicket::Waiting(_)));
}

#[test]
fn ticket_follows_the_registration() {
    let (_tx, rx) = tokio::sync::oneshot::channel::<Result<u32, Error>>();
    assert!(matches!(ReplyTicket::after_registration(true, rx), ReplyTicket::Waiting(_)));
    let (_tx, rx) = tokio::sync::oneshot::channel::<Result<u32, Error>>();
    assert!(matches!(ReplyTicket::after_registration(false, rx), ReplyTicket::Unregistered));
}

#[test]
fn reply_that_answers_nothing_goes_to_the_user() {
    let (_asker, mut book) = reply_channel::<u32>();
    match book.receive(reply(8, 3), ()) {
        Routed::Message(m) => assert_eq!(m.message_opt(), Some(&8)),
        _ => panic!("an answer nobody awaits goes to the user"),
    }
}

#[test]
fn request_never_answers_a_waiting_question() {
    let (asker, mut book) = reply_channel::<u32>();
    let out = asker.open(1);
    let mut rx = waiting(out.ticket);
    match book.receive(request(2, 0), ()) {
        Routed::Message(m) => assert_eq!(*m.message(), 2),
        _ => panic!("a request is not an answer"),
    }
    assert!(rx.try_recv().is_err());
    // The question still waits, and its answer still finds it.
    assert!(matches!(book.receive(reply(3, 0), ()), Routed::Reply { value: 3, .. }));
}

#[test]
fn answer_to_a_repeated_number_is_ambiguous() {
    let (asker, mut book) = reply_channel::<u32>();
    let first = asker.open(1);
    let second = asker.open(2);
    let _rx1 = waiting(first.ticket);
    let _rx2 = waiting(second.ticket);
    match book.receive(reply(9, 0), ()) {
        Routed::Ambiguous(m) => {
            assert_eq!(m.user_message, 9);
            assert_eq!(m.conversation_id, 0);
            assert!(m.is_reply);
        }
        _ => panic!("two waiting questions numbered alike cannot both be answered"),
    }
}

#[test]
fn taking_a_message_leaves_none() {
    let (_asker, mut book) = reply_channel::<TestMessage>();
    let msg = InternalMessage { user_message: TestMessage::HelloThere, conversation_id: 4, is_reply: false };
    let mut received = match book.receive(msg, ()) {
        Routed::Message(m) => m,
        _ => panic!("a request goes to the user"),
    };
    assert_eq!(received.message_opt(), Some(&TestMessage::HelloThere));
    assert_eq!(received.take_message_opt(), Some(TestMessage::HelloThere));
    assert_eq!(received.message_opt(), None);
    assert_eq!(received.take_message_opt(), None);
    let (_, answer) = received.into_reply(TestMessage::GeneralKenobiYouAreABoldOne);
    assert_eq!(answer.conversation_id, 4);
    assert!(answer.is_reply);
    assert_eq!(answer.user_message, TestMessage::GeneralKenobiYouAreABoldOne);
}

#[test]
fn take_message_returns_the_message() {
    let (_asker, mut book) = reply_channel::<IdentifiableMessage>();
    let msg = InternalMessage { user_message: IdentifiableMessage::FromServer(17), conversation_id: 0, is_reply: false };
    let mut received = match book.receive(msg, ()) {
        Routed::Message(m) => m,
        _ => panic!("a request goes to the user"),
    };
    assert_eq!(received.take_message(), IdentifiableMessage::FromServer(17));
    assert!(received.message_opt().is_none());
}

#[test]
fn transport_failures_keep_their_kind() {
    assert!(matches!(Error::from(TypedFailure::SentMessageTooLarge), Error::SentMessageTooLarge));
    assert!(matches!(Error::from(TypedFailure::ReceivedMessageTooLarge), Error::ReceivedMessageTooLarge));
    assert!(matches!(
        Error::from(TypedFailure::ChecksumMismatch { sent_checksum: 1, computed_checksum: 2 }),
        Error::ChecksumMismatch { sent_checksum: 1, computed_checksum: 2 }
    ));
    assert!(matches!(
        Error::from(TypedFailure::ProtocolVersionMismatch { our_version: 2, their_version: 1 }),
        Error::ProtocolVersionMismatch { our_version: 2, their_version: 1 }
    ));
    assert!(matches!(
        Error::from(TypedFailure::ChecksumHandshakeFailed { checksum_value: 7 }),
        Error::ChecksumHandshakeFailed { checksum_value: 7 }
    ));
    let io = std::io::Error::new(std::io::ErrorKind::ConnectionAborted, "remote hung up");
    match Error::from(TypedFailure::Io(io)) {
        Error::Io(e) => assert_eq!(e.kind(), std::io::ErrorKind::ConnectionAborted),
        _ => panic!("an io failure stays an io failure"),
    }
    let bin: bincode::Error = Box::new(bincode::ErrorKind::SizeLimit);
    assert!(matches!(Error::from(TypedFailure::Bincode(bin)), Error::Bincode(_)));
}

#[test]
fn defaults_are_one_mebibyte_and_five_seconds() {
    assert_eq!(DEFAULT_SIZE_LIMIT, 1024u64.pow(2));
    assert_eq!(DEFAULT_TIMEOUT_SECS, 5);
}

#[test]
fn sample_messages_compare_by_value() {
    assert_eq!(TestMessage::HelloThere, TestMessage::HelloThere);
    assert_ne!(TestMessage::HelloThere, TestMessage::GeneralKenobiYouAreABoldOne);
    assert_eq!(IdentifiableMessage::FromClient(3), IdentifiableMessage::FromClient(3));
    assert_ne!(IdentifiableMessage::FromClient(3), IdentifiableMessage::FromServer(3));
}

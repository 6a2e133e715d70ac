use codex_policy::ids::ThreadId;
use codex_policy::mailbox::store::AgentMailboxStore;
use codex_policy::mailbox::{
    AgentMailboxCategory, AgentMailboxMessageInput, AgentMailboxPayload, AgentMailboxReadRequest,
    AgentMailboxUnreadSnapshot, MailboxError,
};

const ROOT_THREAD_ID: u128 = 0x501;
const SENDER_THREAD_ID: u128 = 0x502;
const RECIPIENT_THREAD_ID: u128 = 0x503;
const SECOND_SENDER_THREAD_ID: u128 = 0x504;
const ROOT_AGENT_PATH: &str = "/root";
const SENDER_AGENT_PATH: &str = "/root/worker";
const SECOND_SENDER_AGENT_PATH: &str = "/root/checker";
const MESSAGE_ONE_ID: &str = "00000000-0000-0000-0000-000000000511";
const MESSAGE_TWO_ID: &str = "00000000-0000-0000-0000-000000000512";
const MESSAGE_THREE_ID: &str = "00000000-0000-0000-0000-000000000513";
const MESSAGE_ONE_CONTENT: &str = "first progress";
const MESSAGE_TWO_CONTENT: &str = "review result";
const MESSAGE_THREE_CONTENT: &str = "follow-up required";

fn thread_id(value: u128) -> ThreadId {
    ThreadId::from_u128(value)
}

fn timestamp(seconds: i64) -> i64 {
    seconds * 1000
}

fn message(
    id: &str,
    sender_thread_id: ThreadId,
    sender_agent_path: &str,
    category: AgentMailboxCategory,
    content: &str,
    created_at_ms: i64,
) -> AgentMailboxMessageInput {
    AgentMailboxMessageInput {
        id: id.to_string(),
        root_thread_id: thread_id(ROOT_THREAD_ID),
        sender_thread_id,
        sender_agent_path: sender_agent_path.to_string(),
        recipient_thread_id: thread_id(RECIPIENT_THREAD_ID),
        recipient_agent_path: ROOT_AGENT_PATH.to_string(),
        category,
        payload: AgentMailboxPayload::Plaintext { content: content.to_string() },
        created_at_ms,
    }
}

fn read_request(category: Option<AgentMailboxCategory>) -> AgentMailboxReadRequest {
    AgentMailboxReadRequest {
        root_thread_id: thread_id(ROOT_THREAD_ID),
        recipient_thread_id: thread_id(RECIPIENT_THREAD_ID),
        sender_thread_id: None,
        sender_agent_path: None,
        category,
        limit: 10,
    }
}

fn expected_snapshot(
    total: i64,
    progress: i64,
    result: i64,
    action_required: i64,
    revision: i64,
) -> AgentMailboxUnreadSnapshot {
    AgentMailboxUnreadSnapshot { total, progress, result, action_required, revision }
}

#[test]
fn mailbox_reads_filtered_messages_in_global_arrival_order() {
    let mut mailbox = AgentMailboxStore::new();
    mailbox
        .enqueue(message(
            MESSAGE_ONE_ID,
            thread_id(SENDER_THREAD_ID),
            SENDER_AGENT_PATH,
            AgentMailboxCategory::Progress,
            MESSAGE_ONE_CONTENT,
            timestamp(1_700_000_001),
        ))
        .expect("enqueue");
    let mut encrypted_message = message(
        MESSAGE_TWO_ID,
        thread_id(SECOND_SENDER_THREAD_ID),
        SECOND_SENDER_AGENT_PATH,
        AgentMailboxCategory::Result,
        MESSAGE_TWO_CONTENT,
        timestamp(1_700_000_002),
    );
    encrypted_message.payload =
        AgentMailboxPayload::Encrypted { encrypted_content: MESSAGE_TWO_CONTENT.to_string() };
    mailbox.enqueue(encrypted_message).expect("enqueue");
    mailbox
        .enqueue(message(
            MESSAGE_THREE_ID,
            thread_id(SENDER_THREAD_ID),
            SENDER_AGENT_PATH,
            AgentMailboxCategory::ActionRequired,
            MESSAGE_THREE_CONTENT,
            timestamp(1_700_000_003),
        ))
        .expect("enqueue");

    let result = mailbox
        .consume(read_request(Some(AgentMailboxCategory::ActionRequired)))
        .expect("consume");
    assert_eq!(
        vec![MESSAGE_THREE_ID.to_string()],
        result.messages.iter().map(|message| message.id.clone()).collect::<Vec<_>>()
    );
    assert_eq!(expected_snapshot(2, 1, 1, 0, 4), result.snapshot);

    let remaining = mailbox.consume(read_request(None)).expect("consume");
    assert_eq!(
        vec![MESSAGE_ONE_ID.to_string(), MESSAGE_TWO_ID.to_string()],
        remaining.messages.iter().map(|message| message.id.clone()).collect::<Vec<_>>()
    );
    assert_eq!(
        AgentMailboxPayload::Encrypted { encrypted_content: MESSAGE_TWO_CONTENT.to_string() },
        remaining.messages[1].payload
    );
    assert_eq!(expected_snapshot(0, 0, 0, 0, 5), remaining.snapshot);
}

#[test]
fn mailbox_enqueue_is_idempotent_after_runtime_restart() {
    let mut mailbox = AgentMailboxStore::new();
    let input = message(
        MESSAGE_ONE_ID,
        thread_id(SENDER_THREAD_ID),
        SENDER_AGENT_PATH,
        AgentMailboxCategory::Result,
        MESSAGE_ONE_CONTENT,
        timestamp(1_700_000_001),
    );
    let inserted = mailbox.enqueue(input.clone()).expect("enqueue");
    assert_eq!(true, inserted.inserted);
    let duplicate = mailbox.enqueue(input).expect("enqueue again");
    assert_eq!(false, duplicate.inserted);
    assert_eq!(inserted.message, duplicate.message);
    assert_eq!(inserted.snapshot, duplicate.snapshot);

    let consumed = mailbox.consume(read_request(None)).expect("consume");
    assert_eq!(vec![inserted.message], consumed.messages);
    assert_eq!(expected_snapshot(0, 0, 0, 0, 2), consumed.snapshot);
}

#[test]
fn concurrent_mailbox_reads_do_not_return_the_same_message() {
    let mut mailbox = AgentMailboxStore::new();
    mailbox
        .enqueue(message(
            MESSAGE_ONE_ID,
            thread_id(SENDER_THREAD_ID),
            SENDER_AGENT_PATH,
            AgentMailboxCategory::Progress,
            MESSAGE_ONE_CONTENT,
            timestamp(1_700_000_001),
        ))
        .expect("enqueue");
    mailbox
        .enqueue(message(
            MESSAGE_TWO_ID,
            thread_id(SECOND_SENDER_THREAD_ID),
            SECOND_SENDER_AGENT_PATH,
            AgentMailboxCategory::Result,
            MESSAGE_TWO_CONTENT,
            timestamp(1_700_000_002),
        ))
        .expect("enqueue");

    let mut first_request = read_request(None);
    first_request.limit = 1;
    let second_request = first_request.clone();
    let first = mailbox.consume(first_request).expect("first read");
    let second = mailbox.consume(second_request).expect("second read");
    let mut message_ids = first
        .messages
        .into_iter()
        .chain(second.messages)
        .map(|message| message.id)
        .collect::<Vec<_>>();
    message_ids.sort();
    assert_eq!(vec![MESSAGE_ONE_ID.to_string(), MESSAGE_TWO_ID.to_string()], message_ids);
    assert_eq!(
        expected_snapshot(0, 0, 0, 0, 4),
        mailbox.unread_snapshot(thread_id(ROOT_THREAD_ID), thread_id(RECIPIENT_THREAD_ID))
    );
}

#[test]
fn deleting_recipient_thread_removes_its_mailbox() {
    let mut mailbox = AgentMailboxStore::new();
    let recipient_thread_id = thread_id(RECIPIENT_THREAD_ID);
    mailbox
        .enqueue(message(
            MESSAGE_ONE_ID,
            thread_id(SENDER_THREAD_ID),
            SENDER_AGENT_PATH,
            AgentMailboxCategory::Result,
            MESSAGE_ONE_CONTENT,
            timestamp(1_700_000_001),
        ))
        .expect("enqueue");
    mailbox.delete_recipient_messages(recipient_thread_id);
    assert_eq!(
        expected_snapshot(0, 0, 0, 0, 0),
        mailbox.unread_snapshot(thread_id(ROOT_THREAD_ID), recipient_thread_id)
    );
}

#[test]
fn empty_read_leaves_revision_and_filters_by_sender() {
    let mut mailbox = AgentMailboxStore::new();
    let first = mailbox
        .enqueue(message(
            MESSAGE_ONE_ID,
            thread_id(SENDER_THREAD_ID),
            SENDER_AGENT_PATH,
            AgentMailboxCategory::Progress,
            MESSAGE_ONE_CONTENT,
            timestamp(1),
        ))
        .expect("enqueue");
    assert_eq!(first.message.sequence, 1);
    assert_eq!(first.snapshot, expected_snapshot(1, 1, 0, 0, 1));
    let second = mailbox
        .enqueue(message(
            MESSAGE_TWO_ID,
            thread_id(SECOND_SENDER_THREAD_ID),
            SECOND_SENDER_AGENT_PATH,
            AgentMailboxCategory::Progress,
            MESSAGE_TWO_CONTENT,
            timestamp(2),
        ))
        .expect("enqueue");
    assert_eq!(second.message.sequence, 2);

    let nothing = mailbox
        .consume(read_request(Some(AgentMailboxCategory::Result)))
        .expect("empty read");
    assert!(nothing.messages.is_empty());
    assert_eq!(nothing.snapshot, expected_snapshot(2, 2, 0, 0, 2));

    let mut by_sender = read_request(None);
    by_sender.sender_agent_path = Some(SECOND_SENDER_AGENT_PATH.to_string());
    let taken = mailbox.consume(by_sender).expect("read by sender");
    assert_eq!(taken.messages.len(), 1);
    assert_eq!(taken.messages[0].id, MESSAGE_TWO_ID);
    assert_eq!(taken.snapshot, expected_snapshot(1, 1, 0, 0, 3));

    let mut by_thread = read_request(None);
    by_thread.sender_thread_id = Some(thread_id(SECOND_SENDER_THREAD_ID));
    assert!(mailbox.consume(by_thread).expect("read").messages.is_empty());
}

#[test]
fn zero_limit_reads_nothing() {
    let mut mailbox = AgentMailboxStore::new();
    mailbox
        .enqueue(message(
            MESSAGE_ONE_ID,
            thread_id(SENDER_THREAD_ID),
            SENDER_AGENT_PATH,
            AgentMailboxCategory::Result,
            MESSAGE_ONE_CONTENT,
            timestamp(1),
        ))
        .expect("enqueue");
    let mut request = read_request(None);
    request.limit = 0;
    let outcome = mailbox.consume(request).expect("read");
    assert!(outcome.messages.is_empty());
    assert_eq!(outcome.snapshot.total, 1);
}

#[test]
fn categories_and_payloads_round_trip_through_their_names() {
    for category in [
        AgentMailboxCategory::Progress,
        AgentMailboxCategory::Result,
        AgentMailboxCategory::ActionRequired,
    ] {
        assert_eq!(AgentMailboxCategory::try_from(category.as_str()), Ok(category));
    }
    assert_eq!(AgentMailboxCategory::ActionRequired.as_str(), "action_required");
    let err = AgentMailboxCategory::try_from("urgent").expect_err("unknown");
    assert_eq!(err, MailboxError::UnknownCategory("urgent".to_string()));
    assert_eq!(err.message(), "unknown agent mailbox category `urgent`");

    let payload = AgentMailboxPayload::Encrypted { encrypted_content: "x".to_string() };
    let (kind, content) = payload.kind_and_content();
    assert_eq!((kind, content), ("encrypted", "x"));
    assert_eq!(AgentMailboxPayload::from_parts(kind, content.to_string()), Ok(payload));
    assert_eq!(
        AgentMailboxPayload::from_parts("zip", String::new()),
        Err(MailboxError::UnknownPayloadKind("zip".to_string()))
    );
    assert_eq!(MailboxError::CounterOverflow.message(), "agent mailbox counter overflowed");
}

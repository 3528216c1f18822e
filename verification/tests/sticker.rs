use bobot_impl::modules::sticker::entities::stickers;
use bobot_impl::modules::sticker::entities::tags::ModelRedis;
use bobot_impl::modules::sticker::{
    conv_moretags, conv_name, conv_start, conv_upload, delete_sticker, handle_command,
    handle_conversation, handle_inline, list_stickers, new_sticker, new_sticker_with, same_text,
    upload_sticker_conversation, upload_sticker_conversation_with, StickerCommand, StickerError,
    TagTurn, WizardIds,
    WizardStep, KEY_TYPE_STICKER_ID, KEY_TYPE_STICKER_NAME, KEY_TYPE_TAG, STATE_DONE, STATE_NAME,
    STATE_START, STATE_TAGS, STATE_UPLOAD, TRANSITION_DONE, TRANSITION_MORETAG, TRANSITION_NAME,
    TRANSITION_TAG, TRANSITION_UPLOAD, UPLOAD_CMD,
};
use bobot_impl::persist::cache::Command;
use bobot_impl::persist::memory::MemoryCache;
use bobot_impl::persist::redis::RedisStr;
use bobot_impl::tg::dialog::{Conversation, WorkflowError, WorkflowStore};
use bobot_impl::util::error::BotError;

fn ids() -> WizardIds {
    WizardIds {
        template: 100,
        start: 1,
        upload: 2,
        name: 3,
        tags: 4,
        done: 5,
        to_upload: 11,
        to_name: 12,
        to_tags: 13,
        more_tags: 14,
        to_done: 15,
    }
}

#[test]
fn texts_are_compared_whole() {
    assert!(same_text("/done", "/done"));
    assert!(!same_text("/done", "/done "));
    assert!(!same_text("", "a"));
    assert!(same_text("", ""));
}

#[test]
fn commands_are_recognised() {
    assert_eq!(handle_command("/upload"), Some(StickerCommand::Upload));
    assert_eq!(handle_command("/list"), Some(StickerCommand::List));
    assert_eq!(handle_command("/delete"), Some(StickerCommand::Delete));
    assert_eq!(handle_command("/help"), None);
    assert_eq!(handle_command("upload"), None);
    assert_eq!(handle_command(""), None);
}

#[test]
fn steps_are_told_from_the_prompt() {
    assert_eq!(handle_conversation(STATE_START), Some(WizardStep::Start));
    assert_eq!(handle_conversation(STATE_UPLOAD), Some(WizardStep::Upload));
    assert_eq!(handle_conversation(STATE_NAME), Some(WizardStep::Name));
    assert_eq!(handle_conversation(STATE_TAGS), Some(WizardStep::Tags));
    assert_eq!(handle_conversation(STATE_DONE), None);
    assert_eq!(handle_conversation("something else"), None);
}

#[test]
fn first_message_is_answered_and_moves_to_the_upload() {
    assert_eq!(conv_start(), ("Send a sticker to upload", "upload"));
}

#[test]
fn upload_remembers_the_sticker_and_clears_old_tags() {
    let (batch, label) = conv_upload(-5, Some(9), Some("FILE")).unwrap();
    assert_eq!(label, TRANSITION_NAME);
    assert!(!batch.is_atomic());
    assert_eq!(
        batch.commands(),
        &vec![
            Command::Put("cu:-5:9:wc:stickerid".to_string(), b"FILE".to_vec()),
            Command::Del("cu:-5:9:wc:tag".to_string()),
        ]
    );
}

#[test]
fn upload_needs_a_sticker_and_a_sender() {
    assert_eq!(conv_upload(1, Some(2), None), Err(StickerError::NotASticker));
    assert_eq!(conv_upload(1, None, None), Err(StickerError::NotASticker));
    assert_eq!(conv_upload(1, None, Some("FILE")), Err(StickerError::NoSender));
}

#[test]
fn name_is_remembered() {
    let (batch, label) = conv_name(3, Some(4), Some("grumpy")).unwrap();
    assert_eq!(label, TRANSITION_TAG);
    assert!(!batch.is_atomic());
    assert_eq!(
        batch.commands(),
        &vec![Command::Put("cu:3:4:wc:stickername".to_string(), b"grumpy".to_vec())]
    );
}

#[test]
fn name_needs_a_sender_and_a_text() {
    assert_eq!(conv_name(3, None, Some("grumpy")), Err(StickerError::NoSender));
    assert_eq!(conv_name(3, None, None), Err(StickerError::NoSender));
    assert_eq!(conv_name(3, Some(4), None), Err(StickerError::NoText));
}

#[test]
fn done_ends_the_tags() {
    assert_eq!(
        conv_moretags(3, Some(4), "FILE", Some("/done")),
        Ok(TagTurn::Commit(TRANSITION_DONE))
    );
}

#[test]
fn any_other_text_is_staged_as_a_tag() {
    let turn = conv_moretags(3, Some(4), "FILE", Some("cat")).unwrap();
    let expected = RedisStr::new(&ModelRedis {
        sticker_id: "FILE".to_string(),
        owner_id: 4,
        tag: "cat".to_string(),
    })
    .unwrap();
    match turn {
        TagTurn::Stage(batch, label) => {
            assert_eq!(label, TRANSITION_MORETAG);
            assert!(batch.is_atomic());
            assert_eq!(
                batch.commands(),
                &vec![Command::Lpush("cu:3:4:wc:tag".to_string(), expected.as_bytes().clone())]
            );
        }
        TagTurn::Commit(_) => panic!("a tag is not the end of the tags"),
    }
}

#[test]
fn tags_need_a_sender_and_a_text() {
    assert_eq!(conv_moretags(3, None, "FILE", Some("cat")), Err(StickerError::NoSender));
    assert_eq!(conv_moretags(3, None, "FILE", None), Err(StickerError::NoSender));
    assert_eq!(conv_moretags(3, Some(4), "FILE", None), Err(StickerError::NoText));
}

#[test]
fn delete_names_a_sticker_by_its_identifier() {
    let words = vec!["/delete".to_string(), "550e8400-e29b-41d4-a716-446655440000".to_string()];
    assert_eq!(delete_sticker(&words), Ok(0x550e8400_e29b_41d4_a716_446655440000));
}

#[test]
fn delete_takes_one_argument() {
    let refused = Err(BotError::new("invalid command args"));
    assert_eq!(delete_sticker(&vec![]), refused);
    assert_eq!(delete_sticker(&vec!["/delete".to_string()]), refused);
    let three = vec!["/delete".to_string(), "a".to_string(), "b".to_string()];
    assert_eq!(delete_sticker(&three), refused);
}

#[test]
fn delete_refuses_what_is_no_identifier() {
    for text in ["not-a-uuid", "", "550e8400-e29b-41d4-a716-44665544000", "550e8400-e29b-41d4-a716-44665544000g"] {
        let words = vec!["/delete".to_string(), text.to_string()];
        let message = uuid::Uuid::parse_str(text).unwrap_err().to_string();
        assert!(!message.is_empty());
        assert_eq!(delete_sticker(&words), Err(BotError::new(&message)));
    }
}

#[test]
fn delete_reads_the_other_forms_of_an_identifier() {
    for text in [
        "550e8400e29b41d4a716446655440000",
        "{550e8400-e29b-41d4-a716-446655440000}",
        "urn:uuid:550e8400-e29b-41d4-a716-446655440000",
        "550E8400-E29B-41D4-A716-446655440000",
    ] {
        let words = vec!["/delete".to_string(), text.to_string()];
        assert_eq!(delete_sticker(&words), Ok(0x550e8400_e29b_41d4_a716_446655440000));
    }
}

#[test]
fn finished_upload_gives_the_sticker_row() {
    let row = new_sticker_with("FILE", 8, 0x550e8400_e29b_41d4_a716_446655440000, "grumpy");
    assert_eq!(
        row,
        stickers::Model {
            unique_id: "FILE".to_string(),
            owner_id: 8,
            uuid: 0x550e8400_e29b_41d4_a716_446655440000,
            chosen_name: Some("grumpy".to_string()),
        }
    );
}

#[test]
fn finished_upload_draws_an_identifier() {
    let first = new_sticker("FILE", 8, "grumpy");
    let second = new_sticker("FILE", 8, "grumpy");
    assert_eq!(first.unique_id, "FILE");
    assert_eq!(first.owner_id, 8);
    assert_eq!(first.chosen_name, Some("grumpy".to_string()));
    assert_ne!(first.uuid, second.uuid);
}

#[test]
fn errors_have_their_messages() {
    assert_eq!(StickerError::NoSender.to_bot_error().message(), "message without sender");
    assert_eq!(StickerError::NotASticker.to_bot_error().message(), "Send a sticker");
    assert_eq!(StickerError::NoText.to_bot_error().message(), "no text");
    assert_eq!(StickerError::HasNoSender.to_bot_error().message(), "message has no sender");
    assert_eq!(StickerError::Encode.to_bot_error().message(), "could not encode tag");
    assert_eq!(StickerError::IdInUse.to_bot_error().message(), "identifier in use");
}

#[test]
fn list_of_no_stickers_is_the_heading() {
    assert_eq!(list_stickers(&vec![]), "My stickers:");
}

#[test]
fn list_names_each_sticker() {
    let stickers = vec![
        stickers::Model {
            unique_id: "f1".to_string(),
            owner_id: 1,
            uuid: 0x550e8400_e29b_41d4_a716_446655440000,
            chosen_name: Some("grumpy".to_string()),
        },
        stickers::Model { unique_id: "f2".to_string(), owner_id: 1, uuid: 1, chosen_name: None },
    ];
    assert_eq!(
        list_stickers(&stickers),
        "My stickers:\n - grumpy 550e8400-e29b-41d4-a716-446655440000\n - Unnamed 00000000-0000-0000-0000-000000000001"
    );
}

#[test]
fn inline_query_searches_for_tags_that_hold_the_key() {
    assert_eq!(handle_inline("cat"), "%cat%");
    assert_eq!(handle_inline(""), "%%");
}

#[test]
fn constants_of_the_upload_conversation() {
    assert_eq!(KEY_TYPE_TAG, "wc:tag");
    assert_eq!(KEY_TYPE_STICKER_ID, "wc:stickerid");
    assert_eq!(KEY_TYPE_STICKER_NAME, "wc:stickername");
    assert_eq!(UPLOAD_CMD, "/upload");
    assert_eq!(TRANSITION_NAME, "stickername");
    assert_eq!(TRANSITION_DONE, "stickerdone");
    assert_eq!(TRANSITION_UPLOAD, "upload");
    assert_eq!(TRANSITION_TAG, "stickertag");
    assert_eq!(TRANSITION_MORETAG, "stickermoretag");
    assert_eq!(STATE_START, "Send a sticker to upload");
    assert_eq!(STATE_UPLOAD, "sticker uploaded");
    assert_eq!(STATE_NAME, "Send a name for this sticker");
    assert_eq!(STATE_TAGS, "Send tags for this sticker, one at a time. Send /done to stop");
    assert_eq!(STATE_DONE, "Successfully uploaded sticker");
}

#[test]
fn upload_conversation_has_five_states_and_five_transitions() {
    let mut store = WorkflowStore::new();
    let who = upload_sticker_conversation_with(&mut store, &ids(), 7, 8).unwrap();
    assert_eq!(who, Conversation { conversation_id: 100, chat: 7, user: 8 });
    assert_eq!(store.conversations().len(), 1);
    assert_eq!(store.conversations()[0].triggerphrase, "/upload");
    let contents: Vec<&str> = store.states().iter().map(|s| s.content.as_str()).collect();
    assert_eq!(contents, vec![STATE_START, STATE_UPLOAD, STATE_NAME, STATE_TAGS, STATE_DONE]);
    let edges: Vec<(u128, u128, &str)> = store
        .transitions()
        .iter()
        .map(|t| (t.start_state, t.end_state, t.triggerphrase.as_str()))
        .collect();
    assert_eq!(
        edges,
        vec![
            (1, 2, "upload"),
            (2, 3, "stickername"),
            (3, 4, "stickertag"),
            (4, 4, "stickermoretag"),
            (4, 5, "stickerdone"),
        ]
    );
    assert_eq!(store.get_start(&who).unwrap().state_id, 1);
}

#[test]
fn upload_conversation_is_walked_from_start_to_done() {
    let mut store = WorkflowStore::new();
    let who = upload_sticker_conversation_with(&mut store, &ids(), 7, 8).unwrap();
    assert_eq!(store.get_current_text(&who), Ok(STATE_START.to_string()));
    assert_eq!(store.transition(&who, TRANSITION_UPLOAD), Ok(STATE_UPLOAD.to_string()));
    assert_eq!(store.transition(&who, TRANSITION_NAME), Ok(STATE_NAME.to_string()));
    assert_eq!(store.transition(&who, TRANSITION_TAG), Ok(STATE_TAGS.to_string()));
    for _ in 0..3 {
        assert_eq!(store.transition(&who, TRANSITION_MORETAG), Ok(STATE_TAGS.to_string()));
    }
    assert_eq!(store.transition(&who, TRANSITION_DONE), Ok(STATE_DONE.to_string()));
    assert_eq!(store.transition(&who, TRANSITION_DONE), Err(WorkflowError::NoSuchTransition));
}

#[test]
fn upload_conversation_is_added_whole_or_not_at_all() {
    let mut store = WorkflowStore::new();
    upload_sticker_conversation_with(&mut store, &ids(), 7, 8).unwrap();
    let mut again = ids();
    again.template = 200;
    again.start = 21;
    again.upload = 22;
    again.name = 23;
    again.tags = 24;
    again.done = 25;
    again.to_upload = 31;
    again.to_name = 32;
    again.to_tags = 33;
    again.more_tags = 34;
    again.to_done = 15;
    assert_eq!(
        upload_sticker_conversation_with(&mut store, &again, 7, 8),
        Err(WorkflowError::DuplicateKey)
    );
    assert_eq!(store.conversations().len(), 1);
    assert_eq!(store.states().len(), 5);
    assert_eq!(store.transitions().len(), 5);
    again.to_done = 35;
    assert!(upload_sticker_conversation_with(&mut store, &again, 7, 8).is_ok());
    assert_eq!(store.states().len(), 10);
}

#[test]
fn upload_conversation_refuses_identifiers_that_repeat() {
    let mut store = WorkflowStore::new();
    let mut twice = ids();
    twice.name = twice.upload;
    assert_eq!(
        upload_sticker_conversation_with(&mut store, &twice, 7, 8),
        Err(WorkflowError::DuplicateKey)
    );
    let mut edges = ids();
    edges.more_tags = edges.to_tags;
    assert_eq!(
        upload_sticker_conversation_with(&mut store, &edges, 7, 8),
        Err(WorkflowError::DuplicateKey)
    );
    assert!(store.conversations().is_empty());
    assert!(store.states().is_empty());
}

#[test]
fn upload_conversation_needs_a_sender() {
    let mut store = WorkflowStore::new();
    let refused = upload_sticker_conversation(&mut store, 7, None);
    assert_eq!(refused, Err(StickerError::HasNoSender));
    assert_eq!(refused.unwrap_err().to_bot_error().message(), "message has no sender");
    assert!(store.conversations().is_empty());
    assert!(store.states().is_empty());
    assert!(store.transitions().is_empty());
    assert!(store.instances().is_empty());
}

#[test]
fn upload_conversation_with_drawn_identifiers() {
    let mut store = WorkflowStore::new();
    let first = upload_sticker_conversation(&mut store, 7, Some(8)).unwrap();
    let second = upload_sticker_conversation(&mut store, 7, Some(9)).unwrap();
    assert_ne!(first.conversation_id, second.conversation_id);
    assert_eq!(store.states().len(), 10);
    assert_eq!(store.transition(&first, TRANSITION_UPLOAD), Ok(STATE_UPLOAD.to_string()));
    assert_eq!(store.get_current_text(&second), Ok(STATE_START.to_string()));
}

#[test]
fn a_whole_upload_stages_tags_and_commits_them_once() {
    let mut store = WorkflowStore::new();
    let mut cache = MemoryCache::new();
    let who = upload_sticker_conversation(&mut store, 7, Some(8)).unwrap();

    assert_eq!(handle_conversation(&store.get_current_text(&who).unwrap()), Some(WizardStep::Start));
    let (_, label) = conv_start();
    store.transition(&who, label).unwrap();

    let (batch, label) = conv_upload(7, Some(8), Some("FILE")).unwrap();
    cache.execute(&batch);
    store.transition(&who, label).unwrap();

    let (batch, label) = conv_name(7, Some(8), Some("grumpy")).unwrap();
    cache.execute(&batch);
    store.transition(&who, label).unwrap();

    for text in ["cat", "angry"] {
        assert_eq!(handle_conversation(&store.get_current_text(&who).unwrap()), Some(WizardStep::Tags));
        match conv_moretags(7, Some(8), "FILE", Some(text)).unwrap() {
            TagTurn::Stage(batch, label) => {
                cache.execute(&batch);
                store.transition(&who, label).unwrap();
            }
            TagTurn::Commit(_) => panic!("a tag is not the end of the tags"),
        }
    }
    match conv_moretags(7, Some(8), "FILE", Some("/done")).unwrap() {
        TagTurn::Commit(label) => {
            assert_eq!(cache.get("cu:7:8:wc:stickerid"), Ok(Some(b"FILE".to_vec())));
            assert_eq!(cache.get("cu:7:8:wc:stickername"), Ok(Some(b"grumpy".to_vec())));
            let tags = cache.drain_list("cu:7:8:wc:tag").unwrap();
            let texts: Vec<&str> = tags.iter().map(|t| t.tag.as_str()).collect();
            assert_eq!(texts, vec!["cat", "angry"]);
            assert_eq!(store.transition(&who, label), Ok(STATE_DONE.to_string()));
        }
        TagTurn::Stage(_, _) => panic!("the word that ends the tags is no tag"),
    }
    assert_eq!(cache.drain_list("cu:7:8:wc:tag"), Ok(vec![]));
    assert_eq!(handle_conversation(&store.get_current_text(&who).unwrap()), None);
}

#[test]
fn every_tag_message_is_staged() {
    for text in ["cat", "", "/don", "/done ", "a very long tag with spaces", "\u{1F431}"] {
        match conv_moretags(3, Some(4), "FILE", Some(text)) {
            Ok(TagTurn::Stage(batch, label)) => {
                assert_eq!(label, TRANSITION_MORETAG);
                assert_eq!(batch.commands().len(), 1);
            }
            other => panic!("a tag was not staged: {:?}", other),
        }
    }
}

//! The capability matcher, the worker's decisions, and the wire codec.
use dtensor::codec::{decode_quest, encode_ack, encode_quest};
use dtensor::scheduler::{
    guild_default_party, guild_mercenary_topic, guild_quest_board_topic, AckStatus, GuildQuest,
    GuildQuestAcknowledgement, Mercenary, MercenaryChannel, Resources,
};

fn gpu_resources(amount: u64) -> Resources {
    let mut r = Resources::new();
    r.add(b"gpu".to_vec(), amount);
    r
}

#[test]
fn satisfies_when_supply_meets_demand() {
    let caps = gpu_resources(1);
    let req = gpu_resources(1);
    assert!(caps.satisfies(&req));
    let more = gpu_resources(2);
    assert!(!caps.satisfies(&more));
    assert!(more.satisfies(&req));
}

#[test]
fn unknown_keys_supply_zero() {
    let caps = gpu_resources(4);
    let mut req = Resources::new();
    req.add(b"tpu".to_vec(), 1);
    assert!(!caps.satisfies(&req));
    assert_eq!(caps.amount_of(&b"tpu".to_vec()), 0);
    assert_eq!(caps.amount_of(&b"gpu".to_vec()), 4);
}

#[test]
fn empty_requirements_always_satisfied() {
    let caps = Resources::new();
    let req = Resources::new();
    assert!(caps.satisfies(&req));
}

#[test]
fn capable_worker_accepts_with_reply() {
    let worker = Mercenary::with_identity("worker-1".to_string(), gpu_resources(1));
    let quest = GuildQuest {
        identifier: b"quest-7".to_vec(),
        requirements: Some(gpu_resources(1)),
    };
    let (accepted, ack) = worker.handle_quest(&quest, true);
    assert!(accepted);
    let ack = ack.unwrap();
    assert_eq!(ack.status, AckStatus::ACCEPT);
    assert_eq!(ack.quest_id, b"quest-7".to_vec());
    assert_eq!(ack.worker_id, Some(b"worker-1".to_vec()));
}

#[test]
fn incapable_worker_denies_with_reply() {
    let worker = Mercenary::with_identity("worker-2".to_string(), Resources::new());
    let quest = GuildQuest {
        identifier: b"quest-7".to_vec(),
        requirements: Some(gpu_resources(1)),
    };
    let (accepted, ack) = worker.handle_quest(&quest, true);
    assert!(!accepted);
    let ack = ack.unwrap();
    assert_eq!(ack.status, AckStatus::DENY);
    assert_eq!(ack.quest_id, b"quest-7".to_vec());
    assert_eq!(ack.worker_id, None);
}

#[test]
fn no_reply_subject_means_no_acknowledgement() {
    let worker = Mercenary::with_identity("worker-3".to_string(), Resources::new());
    let quest = GuildQuest { identifier: b"q".to_vec(), requirements: None };
    let (accepted, ack) = worker.handle_quest(&quest, false);
    assert!(accepted);
    assert!(ack.is_none());
}

#[test]
fn topics_and_channels() {
    assert_eq!(guild_quest_board_topic(), "guild.quest.board");
    assert_eq!(guild_mercenary_topic(), "guild.mercenary");
    let worker = Mercenary::with_identity("abc".to_string(), Resources::new());
    assert_eq!(worker.topic(), "guild.mercenary.abc");
    assert_eq!(worker.identifier(), "abc");
    let channels = worker.channels();
    assert_eq!(channels.len(), 2);
    assert_eq!(channels[0].topic, "guild.quest.board");
    assert_eq!(channels[0].queue_group, guild_default_party());
    assert_eq!(channels[1].topic, "guild.mercenary.abc");
    assert_eq!(channels[1].queue_group, "abc");
    let c = MercenaryChannel::new("t".to_string(), "q".to_string());
    assert_eq!(c.topic, "t");
}

#[test]
fn fresh_worker_has_uuid_shaped_identity() {
    let a = Mercenary::new();
    let b = Mercenary::new();
    assert_eq!(a.identifier().len(), 36);
    assert_eq!(a.identifier().as_bytes(), a.identifier_bytes.as_slice());
    assert_ne!(a.identifier(), b.identifier());
}

#[test]
fn quest_round_trip_without_requirements() {
    let q = GuildQuest { identifier: b"quest-1".to_vec(), requirements: None };
    let bytes = encode_quest(&q);
    let d = decode_quest(&bytes).unwrap();
    assert_eq!(d.identifier, b"quest-1".to_vec());
    assert!(d.requirements.is_none());
}

#[test]
fn quest_round_trip_with_requirements() {
    let mut req = Resources::new();
    req.add(b"gpu".to_vec(), 1);
    req.add(b"ram".to_vec(), 512);
    let q = GuildQuest { identifier: b"quest-2".to_vec(), requirements: Some(req) };
    let bytes = encode_quest(&q);
    let d = decode_quest(&bytes).unwrap();
    assert_eq!(d.identifier, b"quest-2".to_vec());
    let dr = d.requirements.unwrap();
    assert_eq!(dr.entries.len(), 2);
    assert_eq!(dr.entries[0], (b"gpu".to_vec(), 1));
    assert_eq!(dr.entries[1], (b"ram".to_vec(), 512));
}

#[test]
fn quest_encoding_layout() {
    let q = GuildQuest { identifier: b"ab".to_vec(), requirements: None };
    let bytes = encode_quest(&q);
    assert_eq!(bytes, vec![2, 0, 0, 0, b'a', b'b', 0]);
}

#[test]
fn ack_encoding_layout() {
    let a = GuildQuestAcknowledgement::accept(b"q".to_vec(), b"w".to_vec());
    let bytes = encode_ack(&a);
    assert_eq!(bytes, vec![1, 0, 0, 0, b'q', 1, 1, 1, 0, 0, 0, b'w']);
    let d = GuildQuestAcknowledgement::deny(b"q".to_vec());
    assert_eq!(encode_ack(&d), vec![1, 0, 0, 0, b'q', 0, 0]);
}

#[test]
fn malformed_payloads_are_refused() {
    assert!(decode_quest(&vec![]).is_none());
    assert!(decode_quest(&vec![1, 0, 0]).is_none());
    // Identifier length runs past the end.
    assert!(decode_quest(&vec![9, 0, 0, 0, b'a', 0]).is_none());
    // Bad presence flag.
    assert!(decode_quest(&vec![1, 0, 0, 0, b'a', 7]).is_none());
    // Trailing garbage after a complete quest.
    assert!(decode_quest(&vec![1, 0, 0, 0, b'a', 0, 9]).is_none());
}

#[test]
fn decision_to_wire_and_back() {
    // The full worker path: a quest arrives as bytes, the decision is made,
    // the acknowledgement leaves as bytes.
    let worker = Mercenary::with_identity("w-9".to_string(), gpu_resources(1));
    let quest = GuildQuest {
        identifier: b"quest-z".to_vec(),
        requirements: Some(gpu_resources(1)),
    };
    let payload = encode_quest(&quest);
    let received = decode_quest(&payload).unwrap();
    let (_, ack) = worker.handle_quest(&received, true);
    let ack = ack.unwrap();
    let reply = encode_ack(&ack);
    let expected = encode_ack(&GuildQuestAcknowledgement::accept(
        b"quest-z".to_vec(),
        b"w-9".to_vec(),
    ));
    assert_eq!(reply, expected);
}

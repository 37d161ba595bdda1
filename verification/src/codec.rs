//! The wire format of the scheduler's messages: a compact length-prefixed
//! framing, byte-identical across workers. A quest is its identifier and
//! optional requirement entries; an acknowledgement is the quest id, a
//! verdict byte, and optionally the worker id. All lengths are 32-bit
//! little-endian words, amounts 64-bit.
use vstd::prelude::*;
use vstd::bytes::{
    lemma_auto_spec_u32_to_from_le_bytes, lemma_auto_spec_u64_to_from_le_bytes,
    spec_u32_to_le_bytes, spec_u64_to_le_bytes, u32_from_le_bytes, u32_to_le_bytes,
    u64_from_le_bytes, u64_to_le_bytes,
};
use vstd::slice::{slice_subrange, slice_to_vec};

use crate::scheduler::{AckStatus, GuildQuest, GuildQuestAcknowledgement, Resources};

verus! {

/// The wire image of requirement entries from position `k` on: for each
/// entry its key length, key bytes, and 64-bit amount.
pub open spec fn spec_encode_entries(s: Seq<(Vec<u8>, u64)>, k: int) -> Seq<u8>
    decreases s.len() - k,
{
    if k < 0 || k >= s.len() {
        Seq::empty()
    } else {
        spec_u32_to_le_bytes(s[k].0@.len() as u32) + s[k].0@ + spec_u64_to_le_bytes(s[k].1)
            + spec_encode_entries(s, k + 1)
    }
}

/// The wire image of a quest: identifier length, identifier bytes, then a
/// presence byte; when requirements are present, their count and entries.
pub open spec fn spec_encode_quest(q: GuildQuest) -> Seq<u8> {
    spec_u32_to_le_bytes(q.identifier@.len() as u32) + q.identifier@ + (match q.requirements {
        None => seq![0u8],
        Some(r) => seq![1u8] + spec_u32_to_le_bytes(r.entries@.len() as u32)
            + spec_encode_entries(r.entries@, 0),
    })
}

/// The verdict byte.
pub open spec fn spec_status_byte(s: AckStatus) -> u8 {
    match s {
        AckStatus::ACCEPT => 1u8,
        AckStatus::DENY => 0u8,
    }
}

/// The wire image of an acknowledgement: quest id length and bytes, the
/// verdict byte, then a presence byte and, when present, the worker id.
pub open spec fn spec_encode_ack(a: GuildQuestAcknowledgement) -> Seq<u8> {
    spec_u32_to_le_bytes(a.quest_id@.len() as u32) + a.quest_id@ + seq![spec_status_byte(a.status)]
        + (match a.worker_id {
        None => seq![0u8],
        Some(w) => seq![1u8] + spec_u32_to_le_bytes(w@.len() as u32) + w@,
    })
}

/// A quest the wire format can carry: every length fits a 32-bit word.
pub open spec fn spec_quest_wire_wf(q: GuildQuest) -> bool {
    &&& q.identifier@.len() <= u32::MAX
    &&& match q.requirements {
        None => true,
        Some(r) => r.entries@.len() <= u32::MAX && forall|i: int|
            0 <= i < r.entries@.len() ==> (#[trigger] r.entries@[i]).0@.len() <= u32::MAX,
    }
}

/// An acknowledgement the wire format can carry.
pub open spec fn spec_ack_wire_wf(a: GuildQuestAcknowledgement) -> bool {
    &&& a.quest_id@.len() <= u32::MAX
    &&& match a.worker_id {
        None => true,
        Some(w) => w@.len() <= u32::MAX,
    }
}

proof fn lemma_encode_entries_snoc(s: Seq<(Vec<u8>, u64)>, k: int)
    requires
        0 <= k < s.len(),
    ensures
        spec_encode_entries(s.take(k + 1), 0) == spec_encode_entries(s.take(k), 0)
            + spec_u32_to_le_bytes(s[k].0@.len() as u32) + s[k].0@ + spec_u64_to_le_bytes(s[k].1),
{
    lemma_encode_entries_snoc_from(s, k, 0);
}

proof fn lemma_encode_entries_snoc_from(s: Seq<(Vec<u8>, u64)>, k: int, from: int)
    requires
        0 <= from <= k < s.len(),
    ensures
        spec_encode_entries(s.take(k + 1), from) == spec_encode_entries(s.take(k), from)
            + spec_u32_to_le_bytes(s[k].0@.len() as u32) + s[k].0@ + spec_u64_to_le_bytes(s[k].1),
    decreases k - from,
{
    let a = s.take(k + 1);
    let b = s.take(k);
    assert(a[from] == s[from]);
    if from == k {
        assert(spec_encode_entries(b, from) == Seq::<u8>::empty());
        assert(spec_encode_entries(a, from + 1) == Seq::<u8>::empty());
        assert(a[k] == s[k]);
        assert(spec_encode_entries(a, from) =~= spec_encode_entries(b, from)
            + spec_u32_to_le_bytes(s[k].0@.len() as u32) + s[k].0@ + spec_u64_to_le_bytes(
            s[k].1,
        ));
    } else {
        lemma_encode_entries_snoc_from(s, k, from + 1);
        assert(b[from] == s[from]);
        assert(spec_encode_entries(a, from) =~= spec_encode_entries(b, from)
            + spec_u32_to_le_bytes(s[k].0@.len() as u32) + s[k].0@ + spec_u64_to_le_bytes(
            s[k].1,
        ));
    }
}

/// Append a byte vector to another.
fn append_bytes(out: &mut Vec<u8>, bytes: &Vec<u8>)
    ensures
        final(out)@ == old(out)@ + bytes@,
{
    let n = bytes.len();
    let mut i: usize = 0;
    while i < n
        invariant
            n == bytes@.len(),
            i <= n,
            out@ == old(out)@ + bytes@.take(i as int),
        decreases n - i,
    {
        out.push(bytes[i]);
        proof {
            assert(out@ =~= old(out)@ + bytes@.take(i as int + 1));
        }
        i = i + 1;
    }
    proof {
        assert(bytes@.take(n as int) =~= bytes@);
    }
}

/// Serialize a quest.
pub fn encode_quest(q: &GuildQuest) -> (r: Vec<u8>)
    requires
        spec_quest_wire_wf(*q),
    ensures
        r@ == spec_encode_quest(*q),
{
    let mut out = u32_to_le_bytes(q.identifier.len() as u32);
    append_bytes(&mut out, &q.identifier);
    match &q.requirements {
        None => {
            out.push(0u8);
            proof {
                assert(out@ =~= spec_encode_quest(*q));
            }
        },
        Some(r) => {
            out.push(1u8);
            let mut count = u32_to_le_bytes(r.entries.len() as u32);
            out.append(&mut count);
            let ghost head = out@;
            let m = r.entries.len();
            let mut k: usize = 0;
            while k < m
                invariant
                    m == r.entries@.len(),
                    k <= m,
                    forall|i: int|
                        0 <= i < m ==> (#[trigger] r.entries@[i]).0@.len() <= u32::MAX,
                    out@ == head + spec_encode_entries(r.entries@.take(k as int), 0),
                decreases m - k,
            {
                let mut klen = u32_to_le_bytes(r.entries[k].0.len() as u32);
                out.append(&mut klen);
                append_bytes(&mut out, &r.entries[k].0);
                let mut amount = u64_to_le_bytes(r.entries[k].1);
                out.append(&mut amount);
                proof {
                    lemma_encode_entries_snoc(r.entries@, k as int);
                    assert(out@ =~= head + spec_encode_entries(
                        r.entries@.take(k as int + 1),
                        0,
                    ));
                }
                k = k + 1;
            }
            proof {
                assert(r.entries@.take(m as int) =~= r.entries@);
                assert(out@ =~= spec_encode_quest(*q));
            }
        },
    }
    out
}

/// Serialize an acknowledgement.
pub fn encode_ack(a: &GuildQuestAcknowledgement) -> (r: Vec<u8>)
    requires
        spec_ack_wire_wf(*a),
    ensures
        r@ == spec_encode_ack(*a),
{
    let mut out = u32_to_le_bytes(a.quest_id.len() as u32);
    append_bytes(&mut out, &a.quest_id);
    match a.status {
        AckStatus::ACCEPT => out.push(1u8),
        AckStatus::DENY => out.push(0u8),
    }
    match &a.worker_id {
        None => {
            out.push(0u8);
        },
        Some(w) => {
            out.push(1u8);
            let mut wlen = u32_to_le_bytes(w.len() as u32);
            out.append(&mut wlen);
            append_bytes(&mut out, w);
        },
    }
    proof {
        assert(out@ =~= spec_encode_ack(*a));
    }
    out
}

/// The requirement entries of a quest; empty when it carries none.
pub open spec fn spec_req_entries(q: GuildQuest) -> Seq<(Vec<u8>, u64)> {
    match q.requirements {
        Some(r) => r.entries@,
        None => Seq::empty(),
    }
}

/// A byte string that some wire-well-formed quest encodes to.
pub open spec fn spec_quest_encodable(bytes: Seq<u8>) -> bool {
    exists|q: GuildQuest| spec_quest_wire_wf(q) && bytes == spec_encode_quest(q)
}

/// The layout of a quest's wire image: the four length bytes, the
/// identifier, the presence byte at its fixed offset, and — when
/// requirements are present — the count word and the entry section.
proof fn lemma_encode_quest_shape(q: GuildQuest)
    requires
        spec_quest_wire_wf(q),
    ensures
        spec_encode_quest(q).len() >= 4 + q.identifier@.len() + 1,
        spec_encode_quest(q).subrange(0, 4) == spec_u32_to_le_bytes(q.identifier@.len() as u32),
        spec_encode_quest(q)[4 + q.identifier@.len() as int] == (match q.requirements {
            None => 0u8,
            Some(_) => 1u8,
        }),
        q.requirements is None ==> spec_encode_quest(q).len() == 4 + q.identifier@.len() + 1,
        q.requirements matches Some(r) ==> {
            &&& spec_encode_quest(q).len() == 4 + q.identifier@.len() + 5 + spec_encode_entries(
                r.entries@,
                0,
            ).len()
            &&& spec_encode_quest(q).subrange(
                4 + q.identifier@.len() as int + 1,
                4 + q.identifier@.len() as int + 5,
            ) == spec_u32_to_le_bytes(r.entries@.len() as u32)
            &&& spec_encode_quest(q).skip(4 + q.identifier@.len() as int + 5)
                == spec_encode_entries(r.entries@, 0)
        },
{
    lemma_auto_spec_u32_to_from_le_bytes();
    let e = spec_encode_quest(q);
    match q.requirements {
        None => {
            assert(e.subrange(0, 4) =~= spec_u32_to_le_bytes(q.identifier@.len() as u32));
        },
        Some(r) => {
            assert(e.subrange(0, 4) =~= spec_u32_to_le_bytes(q.identifier@.len() as u32));
            assert(e.subrange(4 + q.identifier@.len() as int + 1, 4 + q.identifier@.len() as int
                + 5) =~= spec_u32_to_le_bytes(r.entries@.len() as u32));
            assert(e.skip(4 + q.identifier@.len() as int + 5) =~= spec_encode_entries(
                r.entries@,
                0,
            ));
        },
    }
}

/// The layout of the entry section from position `k` on: four key-length
/// bytes, the key, eight amount bytes, then the rest of the section.
proof fn lemma_encode_entries_shape(s: Seq<(Vec<u8>, u64)>, k: int)
    requires
        0 <= k < s.len(),
        s[k].0@.len() <= u32::MAX,
    ensures
        spec_encode_entries(s, k).len() == 12 + s[k].0@.len() + spec_encode_entries(
            s,
            k + 1,
        ).len(),
        spec_encode_entries(s, k).subrange(0, 4) == spec_u32_to_le_bytes(s[k].0@.len() as u32),
        spec_encode_entries(s, k).subrange(4, 4 + s[k].0@.len() as int) == s[k].0@,
        spec_encode_entries(s, k).skip(12 + s[k].0@.len() as int) == spec_encode_entries(
            s,
            k + 1,
        ),
        spec_encode_entries(s, k).len() >= 12,
{
    lemma_auto_spec_u32_to_from_le_bytes();
    lemma_auto_spec_u64_to_from_le_bytes();
    let e = spec_encode_entries(s, k);
    assert(e.subrange(0, 4) =~= spec_u32_to_le_bytes(s[k].0@.len() as u32));
    assert(e.subrange(4, 4 + s[k].0@.len() as int) =~= s[k].0@);
    assert(e.skip(12 + s[k].0@.len() as int) =~= spec_encode_entries(s, k + 1));
}

/// Parse a quest. The parse succeeds on exactly the wire images of
/// well-formed quests: on success re-serializing the result reproduces the
/// input (so nothing is ever read into a quest that its encoding would not
/// show), and on any byte string some well-formed quest encodes to, a quest
/// is returned.
pub fn decode_quest(bytes: &Vec<u8>) -> (r: Option<GuildQuest>)
    ensures
        r matches Some(q) ==> spec_encode_quest(q) == bytes@ && spec_quest_wire_wf(q),
        spec_quest_encodable(bytes@) ==> r is Some,
{
    let ghost enc = spec_quest_encodable(bytes@);
    let ghost qq = choose|q: GuildQuest| spec_quest_wire_wf(q) && bytes@ == spec_encode_quest(q);
    proof {
        lemma_auto_spec_u32_to_from_le_bytes();
        lemma_auto_spec_u64_to_from_le_bytes();
    }
    let n = bytes.len();
    if n < 4 {
        proof {
            if enc {
                lemma_encode_quest_shape(qq);
                assert(false);
            }
        }
        return None;
    }
    let idlen = u32_from_le_bytes(slice_subrange(bytes.as_slice(), 0, 4));
    proof {
        if enc {
            lemma_auto_spec_u32_to_from_le_bytes();
            lemma_encode_quest_shape(qq);
            assert(bytes@.subrange(0, 4) == spec_u32_to_le_bytes(qq.identifier@.len() as u32));
            assert(idlen == qq.identifier@.len() as u32);
            assert(idlen as int == qq.identifier@.len());
        }
    }
    if (idlen as u64) > (n - 4) as u64 {
        proof {
            if enc {
                lemma_encode_quest_shape(qq);
                assert(n >= 4 + qq.identifier@.len() + 1);
                assert(false);
            }
        }
        return None;
    }
    let id_end: usize = 4 + idlen as usize;
    let identifier = slice_to_vec(slice_subrange(bytes.as_slice(), 4, id_end));
    proof {
        assert(spec_u32_to_le_bytes(idlen) == bytes@.subrange(0, 4));
        assert(identifier@ == bytes@.subrange(4, id_end as int));
        assert(identifier@.len() == idlen);
    }
    if id_end >= n {
        proof {
            if enc {
                lemma_encode_quest_shape(qq);
                assert(false);
            }
        }
        return None;
    }
    let flag = bytes[id_end];
    proof {
        if enc {
            lemma_encode_quest_shape(qq);
            assert(flag == (match qq.requirements {
                None => 0u8,
                Some(_) => 1u8,
            }));
        }
    }
    let mut pos: usize = id_end + 1;
    if flag == 0 {
        if pos != n {
            proof {
                if enc {
                    lemma_encode_quest_shape(qq);
                    assert(qq.requirements is None);
                    assert(n == id_end + 1);
                    assert(false);
                }
            }
            return None;
        }
        let q = GuildQuest { identifier, requirements: None };
        proof {
            assert(spec_encode_quest(q) =~= bytes@);
        }
        return Some(q);
    }
    if flag != 1 {
        proof {
            if enc {
                assert(false);
            }
        }
        return None;
    }
    proof {
        if enc {
            assert(qq.requirements is Some);
        }
    }
    if n - pos < 4 {
        proof {
            if enc {
                lemma_encode_quest_shape(qq);
                assert(n == id_end + 5 + spec_encode_entries(spec_req_entries(qq), 0).len());
                assert(false);
            }
        }
        return None;
    }
    let count = u32_from_le_bytes(slice_subrange(bytes.as_slice(), pos, pos + 4));
    proof {
        assert(spec_u32_to_le_bytes(count) == bytes@.subrange(pos as int, pos as int + 4));
        if enc {
            lemma_auto_spec_u32_to_from_le_bytes();
            lemma_encode_quest_shape(qq);
            assert(bytes@.subrange(pos as int, pos as int + 4) == spec_u32_to_le_bytes(
                spec_req_entries(qq).len() as u32,
            ));
            assert(count == spec_req_entries(qq).len() as u32);
            assert(count as int == spec_req_entries(qq).len());
            assert(bytes@.skip(pos as int + 4) == spec_encode_entries(spec_req_entries(qq), 0));
        }
    }
    pos = pos + 4;
    let ghost head = bytes@.subrange(0, pos as int);
    let mut entries: Vec<(Vec<u8>, u64)> = Vec::new();
    let mut k: usize = 0;
    while k < count as usize
        invariant
            n == bytes@.len(),
            pos <= n,
            k <= count,
            entries@.len() == k,
            forall|i: int| 0 <= i < k ==> (#[trigger] entries@[i]).0@.len() <= u32::MAX,
            head + spec_encode_entries(entries@, 0) == bytes@.subrange(0, pos as int),
            head == bytes@.subrange(0, (id_end + 5) as int),
            id_end + 5 <= pos,
            enc == spec_quest_encodable(bytes@),
            enc ==> spec_quest_wire_wf(qq) && bytes@ == spec_encode_quest(qq),
            enc ==> qq.requirements is Some,
            enc ==> count as int == spec_req_entries(qq).len(),
            enc ==> bytes@.skip(pos as int) == spec_encode_entries(
                spec_req_entries(qq),
                k as int,
            ),
        decreases count - k,
    {
        proof {
            if enc {
                assert((k as int) < spec_req_entries(qq).len());
                assert(spec_req_entries(qq)[k as int].0@.len() <= u32::MAX);
                lemma_encode_entries_shape(spec_req_entries(qq), k as int);
                assert(bytes@.skip(pos as int).len() == n - pos);
                assert(n - pos >= 12);
                assert(bytes@.subrange(pos as int, pos as int + 4) =~= bytes@.skip(
                    pos as int,
                ).subrange(0, 4));
            }
        }
        if n - pos < 4 {
            proof {
                if enc {
                    assert(false);
                }
            }
            return None;
        }
        let klen = u32_from_le_bytes(slice_subrange(bytes.as_slice(), pos, pos + 4));
        proof {
            lemma_auto_spec_u32_to_from_le_bytes();
            lemma_auto_spec_u64_to_from_le_bytes();
            assert(spec_u32_to_le_bytes(klen) == bytes@.subrange(pos as int, pos as int + 4));
            if enc {
                assert(bytes@.subrange(pos as int, pos as int + 4) == spec_u32_to_le_bytes(
                    spec_req_entries(qq)[k as int].0@.len() as u32,
                ));
                assert(klen == spec_req_entries(qq)[k as int].0@.len() as u32);
                assert(klen as int == spec_req_entries(qq)[k as int].0@.len());
            }
        }
        if (klen as u64) > (n - pos - 4) as u64 {
            proof {
                if enc {
                    assert(n - pos == 12 + klen + spec_encode_entries(
                        spec_req_entries(qq),
                        k as int + 1,
                    ).len());
                    assert(false);
                }
            }
            return None;
        }
        let key_end: usize = pos + 4 + klen as usize;
        let key = slice_to_vec(slice_subrange(bytes.as_slice(), pos + 4, key_end));
        proof {
            assert(key@ == bytes@.subrange(pos as int + 4, key_end as int));
            assert(key@.len() == klen);
        }
        if n - key_end < 8 {
            proof {
                if enc {
                    assert(n - pos == 12 + klen + spec_encode_entries(
                        spec_req_entries(qq),
                        k as int + 1,
                    ).len());
                    assert(false);
                }
            }
            return None;
        }
        let amount = u64_from_le_bytes(slice_subrange(bytes.as_slice(), key_end, key_end + 8));
        proof {
            lemma_auto_spec_u64_to_from_le_bytes();
            assert(spec_u64_to_le_bytes(amount) == bytes@.subrange(
                key_end as int,
                key_end as int + 8,
            ));
        }
        let ghost pre = entries@;
        entries.push((key, amount));
        proof {
            assert(entries@.take(k as int) =~= pre);
            assert(entries@.take(k as int + 1) =~= entries@);
            lemma_encode_entries_snoc(entries@, k as int);
            assert(entries@[k as int].0@ == key@);
            assert(entries@[k as int].1 == amount);
            assert(entries@[k as int].0@.len() as u32 == klen);
            assert(spec_encode_entries(entries@, 0) == spec_encode_entries(pre, 0)
                + spec_u32_to_le_bytes(klen) + key@ + spec_u64_to_le_bytes(amount));
            assert(head + spec_encode_entries(pre, 0) == bytes@.subrange(0, pos as int));
            assert(bytes@.subrange(0, key_end as int + 8) =~= bytes@.subrange(0, pos as int)
                + bytes@.subrange(pos as int, pos as int + 4) + bytes@.subrange(
                pos as int + 4,
                key_end as int,
            ) + bytes@.subrange(key_end as int, key_end as int + 8));
            assert(head + spec_encode_entries(entries@, 0) =~= bytes@.subrange(
                0,
                key_end as int + 8,
            ));
            if enc {
                lemma_encode_entries_shape(spec_req_entries(qq), k as int);
                assert(bytes@.skip(key_end as int + 8) =~= bytes@.skip(pos as int).skip(
                    12 + klen as int,
                ));
                assert(bytes@.skip(key_end as int + 8) == spec_encode_entries(
                    spec_req_entries(qq),
                    k as int + 1,
                ));
            }
        }
        pos = key_end + 8;
        k = k + 1;
    }
    if pos != n {
        proof {
            if enc {
                assert(spec_encode_entries(spec_req_entries(qq), count as int)
                    == Seq::<u8>::empty());
                assert(bytes@.skip(pos as int).len() == 0);
                assert(false);
            }
        }
        return None;
    }
    let req = Resources { entries };
    let q = GuildQuest { identifier, requirements: Some(req) };
    proof {
        assert(bytes@.subrange(0, n as int) =~= bytes@);
        assert(spec_encode_quest(q) =~= head + spec_encode_entries(req.entries@, 0));
        assert(spec_encode_quest(q) == bytes@);
    }
    Some(q)
}

} // verus!

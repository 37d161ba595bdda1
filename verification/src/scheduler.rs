//! The work-dispatch scheduler: a worker that subscribes to a broadcast
//! quest board and its own unicast topic, matches quest resource
//! requirements against its advertised capabilities, and answers accept or
//! deny on the request's reply subject. The bus transport runs outside the
//! library; every decision is made here.
use vstd::prelude::*;
use vstd::string::StringExecFns;
use vstd::string::StringSliceAdditionalSpecFns;

verus! {

/// The broadcast topic every worker watches for quests.
pub fn guild_quest_board_topic() -> (r: &'static str)
    ensures
        r@ == "guild.quest.board"@,
{
    "guild.quest.board"
}

/// The prefix of each worker's unicast topic.
pub fn guild_mercenary_topic() -> (r: &'static str)
    ensures
        r@ == "guild.mercenary"@,
{
    "guild.mercenary"
}

/// The queue group shared by all workers on the broadcast topic, so that
/// exactly one worker of the party receives a given quest.
pub fn guild_default_party() -> (r: &'static str)
    ensures
        r@ == "guild.party.default"@,
{
    "guild.party.default"
}

/// Byte-string equality.
pub fn bytes_eq(a: &Vec<u8>, b: &Vec<u8>) -> (r: bool)
    ensures
        r == (a@ == b@),
{
    if a.len() != b.len() {
        proof {
            assert(a@.len() != b@.len());
        }
        return false;
    }
    let n = a.len();
    let mut i: usize = 0;
    while i < n
        invariant
            n == a@.len(),
            n == b@.len(),
            i <= n,
            forall|j: int| 0 <= j < i ==> a@[j] == b@[j],
        decreases n - i,
    {
        if a[i] != b[i] {
            return false;
        }
        i = i + 1;
    }
    proof {
        assert(a@ =~= b@);
    }
    true
}

/// A bag of named resource amounts: a worker's capabilities, or a quest's
/// requirements.
pub struct Resources {
    pub entries: Vec<(Vec<u8>, u64)>,
}

/// The amount recorded for `key` from position `i` on; a key that does not
/// occur supplies zero.
pub open spec fn spec_amount_from(s: Seq<(Vec<u8>, u64)>, key: Seq<u8>, i: int) -> u64
    decreases s.len() - i,
{
    if i < 0 || i >= s.len() {
        0
    } else if s[i].0@ == key {
        s[i].1
    } else {
        spec_amount_from(s, key, i + 1)
    }
}

impl Resources {
    /// No key occurs twice.
    pub open spec fn wf(self) -> bool {
        forall|i: int, j: int|
            0 <= i < j < self.entries@.len() ==> (#[trigger] self.entries@[i]).0@ != (
            #[trigger] self.entries@[j]).0@
    }

    /// The amount this bag supplies for `key`; zero when the key is absent.
    pub open spec fn spec_amount(self, key: Seq<u8>) -> u64 {
        spec_amount_from(self.entries@, key, 0)
    }

    /// An empty bag.
    pub fn new() -> (r: Resources)
        ensures
            r.wf(),
            r.entries@.len() == 0,
    {
        Resources { entries: Vec::new() }
    }

    /// Record a new capability. The key must not be present yet.
    pub fn add(&mut self, name: Vec<u8>, amount: u64)
        requires
            old(self).wf(),
            forall|i: int|
                0 <= i < old(self).entries@.len() ==> (#[trigger] old(self).entries@[i]).0@
                    != name@,
        ensures
            final(self).wf(),
            final(self).entries@.len() == old(self).entries@.len() + 1,
            forall|i: int|
                0 <= i < old(self).entries@.len() ==> final(self).entries@[i] == old(
                    self,
                ).entries@[i],
            final(self).entries@[old(self).entries@.len() as int].0@ == name@,
            final(self).entries@[old(self).entries@.len() as int].1 == amount,
    {
        self.entries.push((name, amount));
    }

    /// The recorded amount for `key`, zero when absent.
    pub fn amount_of(&self, key: &Vec<u8>) -> (r: u64)
        ensures
            r == self.spec_amount(key@),
    {
        let n = self.entries.len();
        let mut i: usize = 0;
        while i < n
            invariant
                n == self.entries@.len(),
                i <= n,
                spec_amount_from(self.entries@, key@, 0) == spec_amount_from(
                    self.entries@,
                    key@,
                    i as int,
                ),
            decreases n - i,
        {
            if bytes_eq(&self.entries[i].0, key) {
                return self.entries[i].1;
            }
            i = i + 1;
        }
        0
    }

    /// A supplier satisfies a request exactly when, for every requested
    /// key, the supplied amount is at least the requested amount; keys the
    /// supplier does not advertise supply zero and thus fail any positive
    /// request.
    pub open spec fn spec_satisfies(self, req: Resources) -> bool {
        forall|i: int|
            0 <= i < req.entries@.len() ==> self.spec_amount(
                (#[trigger] req.entries@[i]).0@,
            ) >= req.entries@[i].1
    }

    pub fn satisfies(&self, req: &Resources) -> (r: bool)
        ensures
            r == self.spec_satisfies(*req),
    {
        let n = req.entries.len();
        let mut i: usize = 0;
        while i < n
            invariant
                n == req.entries@.len(),
                i <= n,
                forall|j: int|
                    0 <= j < i ==> self.spec_amount((#[trigger] req.entries@[j]).0@)
                        >= req.entries@[j].1,
            decreases n - i,
        {
            let supplied = self.amount_of(&req.entries[i].0);
            if supplied < req.entries[i].1 {
                return false;
            }
            i = i + 1;
        }
        true
    }
}

/// A work unit: an identifier and optional resource requirements. A quest
/// without requirements is satisfied by every worker.
pub struct GuildQuest {
    pub identifier: Vec<u8>,
    pub requirements: Option<Resources>,
}

/// An acknowledgement's verdict.
#[derive(Clone, Copy, Debug, PartialEq, Eq, Structural)]
pub enum AckStatus {
    ACCEPT,
    DENY,
}

/// The reply published on a quest's reply subject: the quest id, the
/// verdict, and — on acceptance — the worker that took the quest.
pub struct GuildQuestAcknowledgement {
    pub quest_id: Vec<u8>,
    pub status: AckStatus,
    pub worker_id: Option<Vec<u8>>,
}

impl GuildQuestAcknowledgement {
    /// An acceptance, carrying the accepting worker's id.
    pub fn accept(quest_id: Vec<u8>, worker_id: Vec<u8>) -> (r: GuildQuestAcknowledgement)
        ensures
            r.quest_id@ == quest_id@,
            r.status == AckStatus::ACCEPT,
            r.worker_id matches Some(w) && w@ == worker_id@,
    {
        GuildQuestAcknowledgement {
            quest_id,
            status: AckStatus::ACCEPT,
            worker_id: Some(worker_id),
        }
    }

    /// A denial.
    pub fn deny(quest_id: Vec<u8>) -> (r: GuildQuestAcknowledgement)
        ensures
            r.quest_id@ == quest_id@,
            r.status == AckStatus::DENY,
            r.worker_id is None,
    {
        GuildQuestAcknowledgement { quest_id, status: AckStatus::DENY, worker_id: None }
    }
}

/// One subscription a worker joins: a topic and a queue group.
pub struct MercenaryChannel {
    pub topic: String,
    pub queue_group: String,
}

impl MercenaryChannel {
    pub fn new(topic: String, queue_group: String) -> (r: MercenaryChannel)
        ensures
            r.topic@ == topic@,
            r.queue_group@ == queue_group@,
    {
        MercenaryChannel { topic, queue_group }
    }
}

/// Relies on uuid's `Uuid::new_v4` and `to_string`: a fresh random identity
/// in the canonical hyphenated form, 36 ASCII characters.
#[verifier::external_body]
fn fresh_worker_id() -> (r: String)
    ensures
        r@.len() == 36,
        vstd::utf8::is_ascii_chars(r@),
{
    uuid::Uuid::new_v4().to_string()
}

/// A worker: a fresh identity (also kept as its wire bytes) and advertised
/// capabilities.
pub struct Mercenary {
    pub identifier: String,
    pub identifier_bytes: Vec<u8>,
    pub capabilities: Resources,
}

impl Mercenary {
    /// The wire bytes are the UTF-8 encoding of the identifier, and the
    /// capability bag has no duplicate keys.
    pub open spec fn wf(self) -> bool {
        &&& self.identifier_bytes@ == vstd::utf8::encode_utf8(self.identifier@)
        &&& self.capabilities.wf()
    }

    /// A worker with a fresh identity — the canonical hyphenated UUID form,
    /// 36 ASCII characters — and no advertised capabilities.
    pub fn new() -> (r: Mercenary)
        ensures
            r.wf(),
            r.identifier@.len() == 36,
            vstd::utf8::is_ascii_chars(r.identifier@),
            r.capabilities.entries@.len() == 0,
    {
        let identifier = fresh_worker_id();
        let identifier_bytes = vstd::slice::slice_to_vec(identifier.as_str().as_bytes());
        Mercenary { identifier, identifier_bytes, capabilities: Resources::new() }
    }

    /// A worker with a given identity and capabilities, for deterministic
    /// construction.
    pub fn with_identity(identifier: String, capabilities: Resources) -> (r: Mercenary)
        requires
            capabilities.wf(),
        ensures
            r.wf(),
            r.identifier@ == identifier@,
            r.identifier_bytes@ == vstd::utf8::encode_utf8(identifier@),
            r.capabilities == capabilities,
    {
        let identifier_bytes = vstd::slice::slice_to_vec(identifier.as_str().as_bytes());
        Mercenary { identifier, identifier_bytes, capabilities }
    }

    /// The worker's identity.
    pub fn identifier(&self) -> (r: String)
        ensures
            r@ == self.identifier@,
    {
        self.identifier.clone()
    }

    /// The worker's unicast topic: the mercenary prefix, a dot, its id.
    pub fn topic(&self) -> (r: String)
        ensures
            r@ == "guild.mercenary."@ + self.identifier@,
    {
        let mut s = String::from_str("guild.mercenary.");
        s.append(self.identifier.as_str());
        s
    }

    /// The two subscriptions the worker's routine joins: the shared quest
    /// board under the default party, and its own unicast topic under a
    /// queue group of its own.
    pub fn channels(&self) -> (r: Vec<MercenaryChannel>)
        ensures
            r@.len() == 2,
            r@[0].topic@ == "guild.quest.board"@,
            r@[0].queue_group@ == "guild.party.default"@,
            r@[1].topic@ == "guild.mercenary."@ + self.identifier@,
            r@[1].queue_group@ == self.identifier@,
    {
        let mut r: Vec<MercenaryChannel> = Vec::new();
        r.push(
            MercenaryChannel::new(
                String::from_str(guild_quest_board_topic()),
                String::from_str(guild_default_party()),
            ),
        );
        r.push(MercenaryChannel::new(self.topic(), self.identifier()));
        r
    }

    /// Decide one inbound quest: the worker accepts when the quest has no
    /// requirements or its capabilities satisfy them. When the message
    /// carries a reply subject, the decision is answered with an
    /// acceptance naming this worker, or a denial.
    pub fn handle_quest(&self, quest: &GuildQuest, has_reply: bool) -> (r: (
        bool,
        Option<GuildQuestAcknowledgement>,
    ))
        ensures
            r.0 == match quest.requirements {
                None => true,
                Some(req) => self.capabilities.spec_satisfies(req),
            },
            r.1 is Some <==> has_reply,
            has_reply ==> (r.1 matches Some(ack) && {
                &&& ack.quest_id@ == quest.identifier@
                &&& r.0 ==> ack.status == AckStatus::ACCEPT && (ack.worker_id matches Some(w)
                    && w@ == self.identifier_bytes@)
                &&& !r.0 ==> ack.status == AckStatus::DENY && ack.worker_id is None
            }),
    {
        let satisfied = match &quest.requirements {
            None => true,
            Some(req) => self.capabilities.satisfies(req),
        };
        let ack = if has_reply {
            let quest_id = crate::pipeline::copy_bytes(&quest.identifier);
            if satisfied {
                let worker = crate::pipeline::copy_bytes(&self.identifier_bytes);
                Some(GuildQuestAcknowledgement::accept(quest_id, worker))
            } else {
                Some(GuildQuestAcknowledgement::deny(quest_id))
            }
        } else {
            None
        };
        (satisfied, ack)
    }
}

} // verus!

//! The runtime view of Codex credentials: the credentials the control
//! plane last published, projected onto every channel that serves them,
//! and which of them may serve a request.

use std::collections::HashMap;

use vstd::prelude::*;
use vstd::string::StringExecFns;

use crate::codex::{
    credential_availability, credential_availability_spec, credential_status_spec, CodexCredentialStatus,
    CodexCredentialUnavailable,
};

verus! {

broadcast use vstd::std_specs::hash::group_hash_axioms;

/// A stored Codex credential as the runtime reads it. Channel ids are the
/// 128-bit values of their UUIDs; the expiry is in Unix seconds.
pub struct CodexCredentialRecord {
    pub channel_id: u128,
    pub projection_channel_ids: Vec<u128>,
    pub account_id: Option<String>,
    pub access_token: String,
    pub is_fedramp: bool,
    pub access_token_expires_at: Option<i64>,
    pub refresh_generation: i64,
    pub runtime_status: String,
}

/// A credential ready to serve requests.
pub struct CompiledCodexCredential {
    credential_id: u128,
    account_id: Option<String>,
    access_token: String,
    is_fedramp: bool,
    access_token_expires_at: Option<i64>,
    refresh_generation: i64,
    status: CodexCredentialStatus,
}

/// The view of a credential: id, account, token, FedRAMP flag, expiry,
/// refresh generation and status.
pub type CredentialView = (
    u128,
    Option<Seq<char>>,
    Seq<char>,
    bool,
    Option<i64>,
    i64,
    CodexCredentialStatus,
);

pub open spec fn optional_text(value: Option<String>) -> Option<Seq<char>> {
    match value {
        Some(text) => Some(text@),
        None => None,
    }
}

impl View for CompiledCodexCredential {
    type V = CredentialView;

    closed spec fn view(&self) -> CredentialView {
        (
            self.credential_id,
            optional_text(self.account_id),
            self.access_token@,
            self.is_fedramp,
            self.access_token_expires_at,
            self.refresh_generation,
            self.status,
        )
    }
}

/// Whether a token with this expiry has expired at `now`: it has once the
/// expiry is reached; a token without expiry never does.
pub open spec fn expired_at(expires_at: Option<i64>, now: i64) -> bool {
    match expires_at {
        Some(expires_at) => expires_at <= now,
        None => false,
    }
}

/// The name of a credential status.
pub open spec fn status_name(status: CodexCredentialStatus) -> Seq<char> {
    match status {
        CodexCredentialStatus::Active => "Active"@,
        CodexCredentialStatus::Draining => "Draining"@,
        CodexCredentialStatus::Unavailable => "Unavailable"@,
        CodexCredentialStatus::Disabled => "Disabled"@,
    }
}

/// The description of a credential for logs: its account, FedRAMP flag and
/// status, with the access token written as `REDACTED`.
pub open spec fn redacted_description_spec(credential: CredentialView) -> Seq<char> {
    "CompiledCodexCredential { account_id: "@ + (match credential.1 {
        Some(account) => account,
        None => "none"@,
    }) + ", access_token: REDACTED, is_fedramp: "@ + (if credential.3 {
        "true"@
    } else {
        "false"@
    }) + ", status: "@ + status_name(credential.6) + " }"@
}

impl CompiledCodexCredential {
    /// A description for logs that never holds the access token.
    pub fn redacted_description(&self) -> (text: String)
        ensures
            text@ == redacted_description_spec(self@),
    {
        let mut text = String::from_str("CompiledCodexCredential { account_id: ");
        match &self.account_id {
            Some(account) => text.append(account.as_str()),
            None => text.append("none"),
        }
        text.append(", access_token: REDACTED, is_fedramp: ");
        text.append(if self.is_fedramp { "true" } else { "false" });
        text.append(", status: ");
        text.append(
            match self.status {
                CodexCredentialStatus::Active => "Active",
                CodexCredentialStatus::Draining => "Draining",
                CodexCredentialStatus::Unavailable => "Unavailable",
                CodexCredentialStatus::Disabled => "Disabled",
            },
        );
        text.append(" }");
        text
    }

    pub fn credential_id(&self) -> (id: u128)
        ensures
            id == self@.0,
    {
        self.credential_id
    }

    pub fn account_id(&self) -> (account: Option<&str>)
        ensures
            match account {
                Some(account) => self@.1 == Some(account@),
                None => self@.1 is None,
            },
    {
        match &self.account_id {
            Some(account) => Some(account.as_str()),
            None => None,
        }
    }

    pub fn access_token(&self) -> (token: &str)
        ensures
            token@ == self@.2,
    {
        self.access_token.as_str()
    }

    pub fn is_fedramp(&self) -> (fedramp: bool)
        ensures
            fedramp == self@.3,
    {
        self.is_fedramp
    }

    pub fn refresh_generation(&self) -> (generation: i64)
        ensures
            generation == self@.5,
    {
        self.refresh_generation
    }

    /// A copy of the credential, as sharing one would give.
    pub fn copy(&self) -> (copy: Self)
        ensures
            copy@ == self@,
    {
        CompiledCodexCredential {
            credential_id: self.credential_id,
            account_id: copy_text(&self.account_id),
            access_token: self.access_token.clone(),
            is_fedramp: self.is_fedramp,
            access_token_expires_at: self.access_token_expires_at,
            refresh_generation: self.refresh_generation,
            status: self.status,
        }
    }

    /// Whether the access token has expired at `now` (Unix seconds).
    pub fn access_token_expired(&self, now: i64) -> (expired: bool)
        ensures
            expired == expired_at(self@.4, now),
    {
        match self.access_token_expires_at {
            Some(expires_at) => expires_at <= now,
            None => false,
        }
    }
}

/// The view of a stored record: channel, projections, account, token,
/// FedRAMP flag, expiry, refresh generation and status text.
pub type RecordView = (u128, Seq<u128>, Option<Seq<char>>, Seq<char>, bool, Option<i64>, i64, Seq<char>);

pub open spec fn record_view(record: CodexCredentialRecord) -> RecordView {
    (
        record.channel_id,
        record.projection_channel_ids@,
        optional_text(record.account_id),
        record.access_token@,
        record.is_fedramp,
        record.access_token_expires_at,
        record.refresh_generation,
        record.runtime_status@,
    )
}

pub open spec fn record_views(records: Seq<CodexCredentialRecord>) -> Seq<RecordView> {
    records.map_values(|record: CodexCredentialRecord| record_view(record))
}

/// The channels a record serves: its projections, or its own channel when
/// it lists none.
pub open spec fn projection_ids(record: RecordView) -> Seq<u128> {
    if record.1.len() == 0 {
        seq![record.0]
    } else {
        record.1
    }
}

/// The published credentials by channel: each record with a known status
/// serves each of its projected channels, a later record replacing an
/// earlier one on a shared channel; records with an unknown status are
/// skipped.
pub open spec fn projected(records: Seq<RecordView>) -> Map<u128, CredentialView>
    decreases records.len(),
{
    if records.len() == 0 {
        Map::empty()
    } else {
        let before = projected(records.drop_last());
        let record = records.last();
        match credential_status_spec(record.7) {
            None => before,
            Some(status) => before.union_prefer_right(
                Map::new(
                    |channel: u128| projection_ids(record).contains(channel),
                    |channel: u128| (record.0, record.2, record.3, record.4, record.5, record.6, status),
                ),
            ),
        }
    }
}

/// The credentials of the last publication, shared by the channels that
/// serve them: each channel maps to the place of its credential.
pub struct CodexCredentialRuntime {
    credentials: Vec<CompiledCodexCredential>,
    slots: HashMap<u128, usize>,
}

pub open spec fn credential_views(credentials: Seq<CompiledCodexCredential>) -> Seq<CredentialView> {
    credentials.map_values(|credential: CompiledCodexCredential| credential@)
}

/// The credential served on each channel.
pub open spec fn slot_map(slots: Map<u128, usize>, credentials: Seq<CredentialView>) -> Map<u128, CredentialView> {
    Map::new(|channel: u128| slots.contains_key(channel), |channel: u128| credentials[slots[channel] as int])
}

pub open spec fn slots_valid(slots: Map<u128, usize>, count: nat) -> bool {
    forall|channel: u128| #[trigger] slots.contains_key(channel) ==> slots[channel] < count
}

impl View for CodexCredentialRuntime {
    type V = Map<u128, CredentialView>;

    closed spec fn view(&self) -> Map<u128, CredentialView> {
        slot_map(self.slots@, credential_views(self.credentials@))
    }
}

proof fn lemma_take_one_more(s: Seq<u128>, p: int, c: u128)
    requires
        0 <= p < s.len(),
    ensures
        s.take(p + 1).contains(c) == (s.take(p).contains(c) || c == s[p]),
{
    let prefix = s.take(p);
    let extended = s.take(p + 1);
    if c == s[p] {
        assert(extended[p] == c);
    }
    if prefix.contains(c) {
        let i = choose|i: int| 0 <= i < prefix.len() && #[trigger] prefix[i] == c;
        assert(extended[i] == c);
    }
    if extended.contains(c) {
        let i = choose|i: int| 0 <= i < extended.len() && #[trigger] extended[i] == c;
        if i < p {
            assert(prefix[i] == c);
        }
    }
}

/// Pointing one more projected channel at the record's credential.
proof fn lemma_slot_step(
    previous: Map<u128, usize>,
    views: Seq<CredentialView>,
    before: Map<u128, CredentialView>,
    ids: Seq<u128>,
    p: int,
    index: usize,
    value: CredentialView,
)
    requires
        0 <= p < ids.len(),
        index < views.len(),
        views[index as int] == value,
        slot_map(previous, views) == before.union_prefer_right(
            Map::new(|c: u128| ids.take(p).contains(c), |c: u128| value),
        ),
    ensures
        slot_map(previous.insert(ids[p], index), views) == before.union_prefer_right(
            Map::new(|c: u128| ids.take(p + 1).contains(c), |c: u128| value),
        ),
{
    let slots = previous.insert(ids[p], index);
    let old_map = slot_map(previous, views);
    let target = before.union_prefer_right(Map::new(|c: u128| ids.take(p + 1).contains(c), |c: u128| value));
    assert forall|c: u128| #[trigger] slot_map(slots, views).contains_key(c) == target.contains_key(c) && (
    slot_map(slots, views).contains_key(c) ==> slot_map(slots, views)[c] == target[c]) by {
        lemma_take_one_more(ids, p, c);
        assert(old_map.contains_key(c) == previous.contains_key(c));
        if c != ids[p] && previous.contains_key(c) {
            assert(old_map[c] == views[previous[c] as int]);
        }
    }
    assert(slot_map(slots, views) =~= target);
}

fn copy_text(text: &Option<String>) -> (copy: Option<String>)
    ensures
        optional_text(copy) == optional_text(*text),
{
    match text {
        Some(text) => Some(text.clone()),
        None => None,
    }
}

impl CodexCredentialRuntime {
    /// Slots point at published credentials.
    pub closed spec fn wf(&self) -> bool {
        slots_valid(self.slots@, self.credentials@.len())
    }

    /// A runtime with nothing published.
    pub fn new() -> (runtime: Self)
        ensures
            runtime.wf(),
            runtime@ == Map::<u128, CredentialView>::empty(),
    {
        let runtime = CodexCredentialRuntime { credentials: Vec::new(), slots: HashMap::new() };
        assert(runtime@ =~= Map::<u128, CredentialView>::empty());
        runtime
    }

    /// Publishes a new set of credentials in place of the previous one.
    pub fn replace(&mut self, records: Vec<CodexCredentialRecord>)
        ensures
            final(self).wf(),
            final(self)@ == projected(record_views(records@)),
    {
        let mut credentials: Vec<CompiledCodexCredential> = Vec::new();
        let mut slots: HashMap<u128, usize> = HashMap::new();
        let ghost views = record_views(records@);
        let mut r: usize = 0;
        assert(slot_map(slots@, credential_views(credentials@)) =~= projected(views.take(0)));
        while r < records.len()
            invariant
                r <= records@.len(),
                views == record_views(records@),
                slots_valid(slots@, credentials@.len()),
                slot_map(slots@, credential_views(credentials@)) == projected(views.take(r as int)),
            decreases records@.len() - r,
        {
            let record = &records[r];
            let ghost before = projected(views.take(r as int));
            proof {
                assert(views.take(r + 1).drop_last() =~= views.take(r as int));
                assert(views.take(r + 1).last() == record_view(*record));
            }
            let status = match CodexCredentialStatus::parse(record.runtime_status.as_str()) {
                Some(status) => status,
                None => {
                    r += 1;
                    continue;
                },
            };
            let index = credentials.len();
            let ghost old_views = credential_views(credentials@);
            credentials.push(
                CompiledCodexCredential {
                    credential_id: record.channel_id,
                    account_id: copy_text(&record.account_id),
                    access_token: record.access_token.clone(),
                    is_fedramp: record.is_fedramp,
                    access_token_expires_at: record.access_token_expires_at,
                    refresh_generation: record.refresh_generation,
                    status,
                },
            );
            let ghost value = (
                record.channel_id,
                optional_text(record.account_id),
                record.access_token@,
                record.is_fedramp,
                record.access_token_expires_at,
                record.refresh_generation,
                status,
            );
            proof {
                assert(credential_views(credentials@) =~= old_views.push(value));
                assert(slot_map(slots@, credential_views(credentials@)) =~= before);
            }
            let single: Vec<u128> = vec![record.channel_id];
            let ids: &Vec<u128> = if record.projection_channel_ids.len() == 0 {
                &single
            } else {
                &record.projection_channel_ids
            };
            assert(ids@ == projection_ids(record_view(*record)));
            let mut p: usize = 0;
            assert(before.union_prefer_right(
                Map::new(|channel: u128| ids@.take(0).contains(channel), |channel: u128| value),
            ) =~= before);
            while p < ids.len()
                invariant
                    p <= ids@.len(),
                    index < credentials@.len(),
                    credential_views(credentials@)[index as int] == value,
                    slots_valid(slots@, credentials@.len()),
                    slot_map(slots@, credential_views(credentials@)) == before.union_prefer_right(
                        Map::new(|channel: u128| ids@.take(p as int).contains(channel), |channel: u128| value),
                    ),
                decreases ids@.len() - p,
            {
                let channel = ids[p];
                let ghost previous = slots@;
                slots.insert(channel, index);
                proof {
                    lemma_slot_step(
                        previous,
                        credential_views(credentials@),
                        before,
                        ids@,
                        p as int,
                        index,
                        value,
                    );
                }
                p += 1;
            }
            proof {
                assert(ids@.take(ids@.len() as int) =~= ids@);
                assert(slot_map(slots@, credential_views(credentials@)) =~= projected(views.take(r + 1)));
            }
            r += 1;
        }
        assert(views.take(records@.len() as int) =~= views);
        self.credentials = credentials;
        self.slots = slots;
    }

    /// The credential serving `channel_id` for a request at `now` (Unix
    /// seconds): a missing, disabled or unavailable credential is refused;
    /// a draining one serves only a session already pinned to it; an
    /// expired token is refused last.
    pub fn credential(&self, channel_id: u128, affinity_cache_hit: bool, now: i64) -> (credential: Result<
        &CompiledCodexCredential,
        CodexCredentialUnavailable,
    >)
        requires
            self.wf(),
        ensures
            match credential {
                Ok(credential) => self@.contains_key(channel_id) && credential@ == self@[channel_id]
                    && credential_availability_spec(
                    Some(self@[channel_id].6),
                    affinity_cache_hit,
                    expired_at(self@[channel_id].4, now),
                ) is Ok,
                Err(reason) => if self@.contains_key(channel_id) {
                    credential_availability_spec(
                        Some(self@[channel_id].6),
                        affinity_cache_hit,
                        expired_at(self@[channel_id].4, now),
                    ) == Err::<(), CodexCredentialUnavailable>(reason)
                } else {
                    reason == CodexCredentialUnavailable::Missing
                },
            },
    {
        let index = match self.slots.get(&channel_id) {
            Some(index) => *index,
            None => {
                return Err(CodexCredentialUnavailable::Missing);
            },
        };
        let credential = &self.credentials[index];
        assert(credential_views(self.credentials@)[index as int] == credential@);
        let expired = credential.access_token_expired(now);
        match credential_availability(Some(credential.status), affinity_cache_hit, expired) {
            Ok(()) => Ok(credential),
            Err(reason) => Err(reason),
        }
    }
}

} // verus!

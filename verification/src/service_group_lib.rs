use vstd::prelude::*;
use vstd::string::*;
use crate::errors::{CacheError, RemoteError};
use crate::json::push_char;
use crate::types::Direction;

verus! {

/// The fixed name every channel-scoped group is created under.
pub fn message_up_group_name() -> (r: &'static str)
    ensures
        r@ == "A_message_up_group"@,
{
    "A_message_up_group"
}

/// The deterministic cache key of an ordered recipient list: the
/// identifiers joined with `_`, in call order.  Permutations of the
/// same set give different keys, so they get different cache entries.
pub open spec fn signature_of(ids: Seq<Seq<char>>) -> Seq<char>
    decreases ids.len(),
{
    if ids.len() == 0 {
        Seq::empty()
    } else if ids.len() == 1 {
        ids[0]
    } else {
        ids[0] + seq!['_'] + signature_of(ids.drop_first())
    }
}

/// Appending one identifier extends the key by a delimiter and that
/// identifier (or is that identifier alone, for the first one).
proof fn lemma_signature_snoc(ids: Seq<Seq<char>>, x: Seq<char>)
    ensures
        signature_of(ids.push(x)) == if ids.len() == 0 {
            x
        } else {
            signature_of(ids) + seq!['_'] + x
        },
    decreases ids.len(),
{
    if ids.len() == 0 {
        assert(ids.push(x) =~= seq![x]);
        assert(signature_of(seq![x]) == x);
    } else {
        lemma_signature_snoc(ids.drop_first(), x);
        assert(ids.push(x).drop_first() =~= ids.drop_first().push(x));
        if ids.len() == 1 {
            assert(signature_of(ids.push(x)) == ids[0] + seq!['_'] + signature_of(ids.drop_first().push(x)));
            assert(ids.drop_first().push(x) =~= seq![x]);
            assert(signature_of(ids) == ids[0]);
        } else {
            assert(signature_of(ids.push(x)) == ids[0] + seq!['_'] + signature_of(ids.drop_first().push(x)));
            assert(ids[0] + seq!['_'] + (signature_of(ids.drop_first()) + seq!['_'] + x)
                =~= (ids[0] + seq!['_'] + signature_of(ids.drop_first())) + seq!['_'] + x);
        }
    }
}

/// The joined key of a recipient list.
pub fn join_ids(ids: &Vec<String>) -> (r: String)
    ensures
        r@ == signature_of(ids.deep_view()),
{
    let mut out = String::new();
    let mut i: usize = 0;
    while i < ids.len()
        invariant
            i <= ids.len(),
            out@ == signature_of(ids.deep_view().subrange(0, i as int)),
        decreases ids.len() - i,
    {
        if i > 0 {
            push_char(&mut out, '_');
        }
        out.append(ids[i].as_str());
        proof {
            let pre = ids.deep_view().subrange(0, i as int);
            lemma_signature_snoc(pre, ids.deep_view()[i as int]);
            assert(ids.deep_view().subrange(0, i + 1) =~= pre.push(ids.deep_view()[i as int]));
            assert(ids.deep_view()[i as int] == ids@[i as int]@);
        }
        i = i + 1;
    }
    proof {
        assert(ids.deep_view().subrange(0, ids.len() as int) =~= ids.deep_view());
    }
    out
}

/// First-match lookup in a key/group-id list.
spec fn sig_lookup(entries: Seq<(String, String)>, key: Seq<char>) -> Option<Seq<char>>
    decreases entries.len(),
{
    if entries.len() == 0 {
        None
    } else if entries[0].0@ == key {
        Some(entries[0].1@)
    } else {
        sig_lookup(entries.drop_first(), key)
    }
}

/// First-match lookup in a group-id/member-list list.
spec fn rev_lookup(entries: Seq<(String, Vec<String>)>, key: Seq<char>) -> Option<
    Seq<Seq<char>>,
>
    decreases entries.len(),
{
    if entries.len() == 0 {
        None
    } else if entries[0].0@ == key {
        Some(entries[0].1.deep_view())
    } else {
        rev_lookup(entries.drop_first(), key)
    }
}

proof fn lemma_sig_lookup_push(entries: Seq<(String, String)>, e: (String, String), key: Seq<char>)
    ensures
        sig_lookup(entries.push(e), key) == if sig_lookup(entries, key) is Some {
            sig_lookup(entries, key)
        } else if e.0@ == key {
            Some(e.1@)
        } else {
            None::<Seq<char>>
        },
    decreases entries.len(),
{
    if entries.len() > 0 {
        assert(entries.push(e)[0] == entries[0]);
        assert(entries.push(e).drop_first() =~= entries.drop_first().push(e));
        lemma_sig_lookup_push(entries.drop_first(), e, key);
        if entries[0].0@ == key {
            assert(sig_lookup(entries, key) == Some(entries[0].1@));
            assert(sig_lookup(entries.push(e), key) == Some(entries[0].1@));
        } else {
            assert(sig_lookup(entries, key) == sig_lookup(entries.drop_first(), key));
            assert(sig_lookup(entries.push(e), key) == sig_lookup(entries.drop_first().push(e), key));
        }
    } else {
        assert(entries.push(e) =~= seq![e]);
        assert(entries.push(e).drop_first() =~= Seq::<(String, String)>::empty());
        assert(sig_lookup(entries, key) is None);
        if e.0@ == key {
            assert(sig_lookup(entries.push(e), key) == Some(e.1@));
        } else {
            assert(sig_lookup(entries.push(e), key) == sig_lookup(entries.push(e).drop_first(), key));
        }
    }
}

proof fn lemma_rev_lookup_push(
    entries: Seq<(String, Vec<String>)>,
    e: (String, Vec<String>),
    key: Seq<char>,
)
    ensures
        rev_lookup(entries.push(e), key) == if rev_lookup(entries, key) is Some {
            rev_lookup(entries, key)
        } else if e.0@ == key {
            Some(e.1.deep_view())
        } else {
            None::<Seq<Seq<char>>>
        },
    decreases entries.len(),
{
    if entries.len() > 0 {
        assert(entries.push(e)[0] == entries[0]);
        assert(entries.push(e).drop_first() =~= entries.drop_first().push(e));
        lemma_rev_lookup_push(entries.drop_first(), e, key);
        if entries[0].0@ == key {
            assert(rev_lookup(entries, key) == Some(entries[0].1.deep_view()));
            assert(rev_lookup(entries.push(e), key) == Some(entries[0].1.deep_view()));
        } else {
            assert(rev_lookup(entries, key) == rev_lookup(entries.drop_first(), key));
            assert(rev_lookup(entries.push(e), key) == rev_lookup(entries.drop_first().push(e), key));
        }
    } else {
        assert(entries.push(e) =~= seq![e]);
        assert(entries.push(e).drop_first() =~= Seq::<(String, Vec<String>)>::empty());
        assert(rev_lookup(entries, key) is None);
        if e.0@ == key {
            assert(rev_lookup(entries.push(e), key) == Some(e.1.deep_view()));
        } else {
            assert(rev_lookup(entries.push(e), key) == rev_lookup(entries.push(e).drop_first(), key));
        }
    }
}

/// One direction's pair of tables: forward (signature to group id, used
/// to avoid duplicate remote creation) and reverse (group id to
/// recipient list, used for membership introspection).
pub struct DirectionTable {
    forward: Vec<(String, String)>,
    reverse: Vec<(String, Vec<String>)>,
}

impl DirectionTable {
    /// The forward table as a map from signature to group id.
    pub closed spec fn fwd(&self) -> Map<Seq<char>, Seq<char>> {
        Map::new(
            |k: Seq<char>| sig_lookup(self.forward@, k) is Some,
            |k: Seq<char>| sig_lookup(self.forward@, k)->Some_0,
        )
    }

    /// The reverse table as a map from group id to recipient list.
    pub closed spec fn rev(&self) -> Map<Seq<char>, Seq<Seq<char>>> {
        Map::new(
            |k: Seq<char>| rev_lookup(self.reverse@, k) is Some,
            |k: Seq<char>| rev_lookup(self.reverse@, k)->Some_0,
        )
    }

    /// The two tables are a bijection: a signature maps to a group id
    /// exactly when that group id maps back to a recipient list with
    /// that signature.
    pub open spec fn wf(&self) -> bool {
        &&& forall|sig: Seq<char>| #[trigger]
            self.fwd().contains_key(sig) ==> self.rev().contains_key(self.fwd()[sig])
                && signature_of(self.rev()[self.fwd()[sig]]) == sig
        &&& forall|gid: Seq<char>| #[trigger]
            self.rev().contains_key(gid) ==> self.fwd().contains_key(
                signature_of(self.rev()[gid]),
            ) && self.fwd()[signature_of(self.rev()[gid])] == gid
    }

    fn new() -> (r: Self)
        ensures
            r.fwd() == Map::<Seq<char>, Seq<char>>::empty(),
            r.rev() == Map::<Seq<char>, Seq<Seq<char>>>::empty(),
            r.wf(),
    {
        let r = DirectionTable { forward: Vec::new(), reverse: Vec::new() };
        proof {
            assert(r.fwd() =~= Map::<Seq<char>, Seq<char>>::empty());
            assert(r.rev() =~= Map::<Seq<char>, Seq<Seq<char>>>::empty());
        }
        r
    }

    /// The cached group id of a signature, if the signature has one.
    fn get(&self, key: &String) -> (r: Option<String>)
        ensures
            match r {
                Some(gid) => self.fwd().contains_key(key@) && self.fwd()[key@] == gid@,
                None => !self.fwd().contains_key(key@),
            },
    {
        let n = self.forward.len();
        let mut i: usize = 0;
        proof {
            assert(self.forward@.skip(0) =~= self.forward@);
        }
        while i < n
            invariant
                n == self.forward.len(),
                i <= n,
                sig_lookup(self.forward@, key@) == sig_lookup(self.forward@.skip(i as int), key@),
            decreases n - i,
        {
            proof {
                assert(self.forward@.skip(i as int)[0] == self.forward@[i as int]);
            }
            if self.forward[i].0 == *key {
                return Some(self.forward[i].1.clone());
            }
            proof {
                assert(self.forward@.skip(i as int).drop_first() =~= self.forward@.skip(i + 1));
            }
            i = i + 1;
        }
        proof {
            assert(self.forward@.skip(n as int) =~= Seq::<(String, String)>::empty());
        }
        None
    }

    /// The recipient list behind a group id, if the id is known.
    fn members(&self, gid: &String) -> (r: Option<&Vec<String>>)
        ensures
            match r {
                Some(ids) => self.rev().contains_key(gid@) && self.rev()[gid@] == ids.deep_view(),
                None => !self.rev().contains_key(gid@),
            },
    {
        let n = self.reverse.len();
        let mut i: usize = 0;
        proof {
            assert(self.reverse@.skip(0) =~= self.reverse@);
        }
        while i < n
            invariant
                n == self.reverse.len(),
                i <= n,
                rev_lookup(self.reverse@, gid@) == rev_lookup(self.reverse@.skip(i as int), gid@),
            decreases n - i,
        {
            proof {
                assert(self.reverse@.skip(i as int)[0] == self.reverse@[i as int]);
            }
            if self.reverse[i].0 == *gid {
                return Some(&self.reverse[i].1);
            }
            proof {
                assert(self.reverse@.skip(i as int).drop_first() =~= self.reverse@.skip(i + 1));
            }
            i = i + 1;
        }
        proof {
            assert(self.reverse@.skip(n as int) =~= Seq::<(String, Vec<String>)>::empty());
        }
        None
    }

    /// Records a freshly created group: both tables gain one entry.
    fn insert(&mut self, sig: String, gid: String, ids: Vec<String>)
        requires
            old(self).wf(),
            !old(self).fwd().contains_key(sig@),
            !old(self).rev().contains_key(gid@),
            signature_of(ids.deep_view()) == sig@,
        ensures
            final(self).fwd() == old(self).fwd().insert(sig@, gid@),
            final(self).rev() == old(self).rev().insert(gid@, ids.deep_view()),
            final(self).wf(),
    {
        let ghost old_fwd = self.forward@;
        let ghost old_rev = self.reverse@;
        let gid_copy = gid.clone();
        self.forward.push((sig, gid));
        self.reverse.push((gid_copy, ids));
        proof {
            assert forall|k: Seq<char>| true implies sig_lookup(self.forward@, k)
                == sig_lookup(old_fwd.push((sig, gid)), k) by {
                assert(self.forward@ =~= old_fwd.push((sig, gid)));
            }
            assert forall|k: Seq<char>| true implies #[trigger] sig_lookup(self.forward@, k)
                == if sig_lookup(old_fwd, k) is Some {
                    sig_lookup(old_fwd, k)
                } else if sig@ == k {
                    Some(gid@)
                } else {
                    None::<Seq<char>>
                } by {
                lemma_sig_lookup_push(old_fwd, (sig, gid), k);
            }
            assert forall|k: Seq<char>| true implies #[trigger] rev_lookup(self.reverse@, k)
                == if rev_lookup(old_rev, k) is Some {
                    rev_lookup(old_rev, k)
                } else if gid@ == k {
                    Some(ids.deep_view())
                } else {
                    None::<Seq<Seq<char>>>
                } by {
                assert(self.reverse@ =~= old_rev.push((gid_copy, ids)));
                lemma_rev_lookup_push(old_rev, (gid_copy, ids), k);
            }
            assert(self.fwd() =~= old(self).fwd().insert(sig@, gid@));
            assert(self.rev() =~= old(self).rev().insert(gid@, ids.deep_view()));
            assert forall|s: Seq<char>| self.fwd().contains_key(s) implies #[trigger] self.rev().contains_key(self.fwd()[s])
                && signature_of(self.rev()[self.fwd()[s]]) == s by {
                if s == sig@ {
                    assert(self.fwd()[s] == gid@);
                    assert(self.rev()[gid@] == ids.deep_view());
                } else {
                    assert(old(self).fwd().contains_key(s));
                    assert(old(self).rev().contains_key(old(self).fwd()[s]));
                    assert(old(self).fwd()[s] != gid@);
                    assert(self.rev()[self.fwd()[s]] == old(self).rev()[old(self).fwd()[s]]);
                }
            }
            assert forall|g: Seq<char>| self.rev().contains_key(g) implies #[trigger] self.fwd().contains_key(
                signature_of(self.rev()[g]),
            ) && self.fwd()[signature_of(self.rev()[g])] == g by {
                if g == gid@ {
                    assert(self.rev()[g] == ids.deep_view());
                    assert(signature_of(ids.deep_view()) == sig@);
                    assert(self.fwd()[sig@] == gid@);
                } else {
                    assert(old(self).rev().contains_key(g));
                    let s0 = signature_of(old(self).rev()[g]);
                    assert(old(self).fwd().contains_key(s0) && old(self).fwd()[s0] == g);
                    assert(s0 != sig@);
                    assert(self.rev()[g] == old(self).rev()[g]);
                    assert(self.fwd()[s0] == g);
                }
            }
        }
    }
}

/// The next step of one resolution call, decided from the cache alone.
/// `Resolved` means no remote call is made; the two `Create` steps name
/// the remote operation the caller must perform, whose outcome it hands
/// to `record_group`.
#[derive(Debug)]
pub enum ConvertStep {
    /// The empty sentinel or a cache hit: this group id, no remote call.
    Resolved(String),
    /// The call fails without a remote call.
    Failed(CacheError),
    /// Outbound miss: create a service-level group from the recipient
    /// list.
    CreateServiceGroup,
    /// Inbound miss: create a channel-level group, under this channel
    /// id, from the recipient list.
    CreateChannelGroup(String),
}

/// The memoizing layer that converts recipient-id lists into remote
/// group ids: two independent bidirectional tables, one per traffic
/// direction.  Entries are created only on a miss and never updated or
/// deleted.  The check-then-create step of one resolution must be
/// atomic per direction: the owner guards each direction with its own
/// exclusive lock and holds it from `convert_list` through
/// `record_group`, so that at most one remote group is created per
/// distinct signature per direction.  That trade (one creation in
/// flight per direction) is deliberate: creation is rare next to sends.
pub struct ServiceGroupLib {
    outbound: DirectionTable,
    inbound: DirectionTable,
}

impl ServiceGroupLib {
    /// The chosen direction's forward map, signature to group id.
    pub closed spec fn table(&self, d: Direction) -> Map<Seq<char>, Seq<char>> {
        match d {
            Direction::Outbound => self.outbound.fwd(),
            Direction::Inbound => self.inbound.fwd(),
        }
    }

    /// The chosen direction's reverse map, group id to recipient list.
    pub closed spec fn members_of(&self, d: Direction) -> Map<Seq<char>, Seq<Seq<char>>> {
        match d {
            Direction::Outbound => self.outbound.rev(),
            Direction::Inbound => self.inbound.rev(),
        }
    }

    /// Both directions' tables are bijections.
    pub closed spec fn wf(&self) -> bool {
        self.outbound.wf() && self.inbound.wf()
    }

    /// A fresh cache: both directions empty.
    pub fn new() -> (r: Self)
        ensures
            r.wf(),
            r.table(Direction::Outbound) == Map::<Seq<char>, Seq<char>>::empty(),
            r.table(Direction::Inbound) == Map::<Seq<char>, Seq<char>>::empty(),
            r.members_of(Direction::Outbound) == Map::<Seq<char>, Seq<Seq<char>>>::empty(),
            r.members_of(Direction::Inbound) == Map::<Seq<char>, Seq<Seq<char>>>::empty(),
    {
        ServiceGroupLib { outbound: DirectionTable::new(), inbound: DirectionTable::new() }
    }

    /// Whether a group id is already present in a direction's reverse
    /// table.  The remote service assigns group ids; the owner checks a
    /// newly assigned id with this before handing it to `record_group`.
    pub fn has_group_id(&self, direction: Direction, gid: &String) -> (r: bool)
        ensures
            r == self.members_of(direction).contains_key(gid@),
    {
        let table = match direction {
            Direction::Outbound => &self.outbound,
            Direction::Inbound => &self.inbound,
        };
        table.members(gid).is_some()
    }

    /// The recipient list behind a group id of one direction, if known.
    pub fn group_members(&self, direction: Direction, gid: &String) -> (r: Option<&Vec<String>>)
        ensures
            match r {
                Some(ids) => self.members_of(direction).contains_key(gid@)
                    && self.members_of(direction)[gid@] == ids.deep_view(),
                None => !self.members_of(direction).contains_key(gid@),
            },
    {
        let table = match direction {
            Direction::Outbound => &self.outbound,
            Direction::Inbound => &self.inbound,
        };
        table.members(gid)
    }

    /// Decides one resolution call from the cache alone: the empty list
    /// short-circuits to the empty sentinel, a cached signature is a
    /// hit, an inbound miss without a channel id fails, and any other
    /// miss names the remote creation the caller must perform.
    pub fn convert_list(
        &self,
        direction: Direction,
        character_ids: &Vec<String>,
        channel_id: Option<&String>,
    ) -> (r: ConvertStep)
        ensures
            ({
                let sig = signature_of(character_ids.deep_view());
                if character_ids@.len() == 0 {
                    r matches ConvertStep::Resolved(g) && g@ == Seq::<char>::empty()
                } else if self.table(direction).contains_key(sig) {
                    r matches ConvertStep::Resolved(g) && g@ == self.table(direction)[sig]
                } else if direction == Direction::Inbound && channel_id is None {
                    r == ConvertStep::Failed(CacheError::MissingChannelId)
                } else if direction == Direction::Outbound {
                    r == ConvertStep::CreateServiceGroup
                } else {
                    r matches ConvertStep::CreateChannelGroup(ch) && ch@
                        == channel_id->Some_0@
                }
            }),
    {
        if character_ids.len() == 0 {
            return ConvertStep::Resolved(String::new());
        }
        let sig = join_ids(character_ids);
        let table = match direction {
            Direction::Outbound => &self.outbound,
            Direction::Inbound => &self.inbound,
        };
        match table.get(&sig) {
            Some(gid) => ConvertStep::Resolved(gid),
            None => match direction {
                Direction::Outbound => ConvertStep::CreateServiceGroup,
                Direction::Inbound => match channel_id {
                    None => ConvertStep::Failed(CacheError::MissingChannelId),
                    Some(ch) => ConvertStep::CreateChannelGroup(ch.clone()),
                },
            },
        }
    }

    /// Records the outcome of the remote creation that `convert_list`
    /// asked for.  On success both tables of that direction gain the
    /// new entry and the group id is returned; on failure nothing is
    /// written, so a later call with the same recipient list retries
    /// creation.  The other direction is untouched either way.
    pub fn record_group(
        &mut self,
        direction: Direction,
        character_ids: &Vec<String>,
        outcome: Result<String, RemoteError>,
    ) -> (r: Result<String, CacheError>)
        requires
            old(self).wf(),
            character_ids@.len() > 0,
            !old(self).table(direction).contains_key(signature_of(character_ids.deep_view())),
            outcome matches Ok(gid) ==> !old(self).members_of(direction).contains_key(gid@),
        ensures
            final(self).wf(),
            ({
                let sig = signature_of(character_ids.deep_view());
                let other = if direction == Direction::Outbound {
                    Direction::Inbound
                } else {
                    Direction::Outbound
                };
                &&& final(self).table(other) == old(self).table(other)
                &&& final(self).members_of(other) == old(self).members_of(other)
                &&& match outcome {
                    Ok(gid) => {
                        &&& r matches Ok(g) && g@ == gid@
                        &&& final(self).table(direction) == old(self).table(direction).insert(
                            sig,
                            gid@,
                        )
                        &&& final(self).members_of(direction) == old(self).members_of(
                            direction,
                        ).insert(gid@, character_ids.deep_view())
                    },
                    Err(_) => {
                        &&& r == Err::<String, CacheError>(CacheError::RemoteCreateFailed)
                        &&& final(self).table(direction) == old(self).table(direction)
                        &&& final(self).members_of(direction) == old(self).members_of(direction)
                    },
                }
            }),
    {
        match outcome {
            Err(_) => Err(CacheError::RemoteCreateFailed),
            Ok(gid) => {
                let sig = join_ids(character_ids);
                let ids = clone_ids(character_ids);
                let gid_out = gid.clone();
                let table = match direction {
                    Direction::Outbound => &mut self.outbound,
                    Direction::Inbound => &mut self.inbound,
                };
                table.insert(sig, gid, ids);
                Ok(gid_out)
            },
        }
    }
}

/// Law: resolution is idempotent per direction.  Once one successful
/// creation has been recorded for a recipient list (`record_group`'s
/// success ensures: the forward table gains exactly that entry), the
/// list's signature is cached with that group id — so `convert_list`,
/// whose result on a cached signature is `Resolved` with the cached id,
/// returns the same group id again and asks for no second remote
/// creation.
pub proof fn lemma_idempotent_resolution(
    before: ServiceGroupLib,
    after: ServiceGroupLib,
    d: Direction,
    ids: Seq<Seq<char>>,
    gid: Seq<char>,
)
    requires
        ids.len() > 0,
        !before.table(d).contains_key(signature_of(ids)),
        after.table(d) == before.table(d).insert(signature_of(ids), gid),
    ensures
        after.table(d).contains_key(signature_of(ids)),
        after.table(d)[signature_of(ids)] == gid,
{
}

/// Law: the two directions are isolated.  Recording a creation under
/// one direction leaves the other direction's table word-for-word
/// unchanged, so the same recipient list still misses there and needs
/// its own remote creation.
pub proof fn lemma_directional_isolation(
    before: ServiceGroupLib,
    after: ServiceGroupLib,
    d: Direction,
    other: Direction,
    ids: Seq<Seq<char>>,
)
    requires
        d != other,
        after.table(other) == before.table(other),
        !before.table(other).contains_key(signature_of(ids)),
    ensures
        !after.table(other).contains_key(signature_of(ids)),
{
}

/// Law: the cache only grows.  Entries are created by a recorded
/// creation alone and never updated or deleted, so every binding of
/// both tables survives it; only the one new pair is added.
pub proof fn lemma_cache_grows_monotonically(
    before: ServiceGroupLib,
    after: ServiceGroupLib,
    d: Direction,
    ids: Seq<Seq<char>>,
    gid: Seq<char>,
)
    requires
        ids.len() > 0,
        !before.table(d).contains_key(signature_of(ids)),
        !before.members_of(d).contains_key(gid),
        after.table(d) == before.table(d).insert(signature_of(ids), gid),
        after.members_of(d) == before.members_of(d).insert(gid, ids),
    ensures
        forall|sig: Seq<char>| #[trigger]
            before.table(d).contains_key(sig) ==> after.table(d).contains_key(sig)
                && after.table(d)[sig] == before.table(d)[sig],
        forall|g: Seq<char>| #[trigger]
            before.members_of(d).contains_key(g) ==> after.members_of(d).contains_key(g)
                && after.members_of(d)[g] == before.members_of(d)[g],
{
}

/// Law: the cache key is order-sensitive, not canonicalized.  Two
/// recipient lists holding the same two distinct identifiers in
/// opposite orders have different signatures, hence separate cache
/// entries and separate remote creations.  The equal-length bound is
/// needed: the join is not injective for identifiers that themselves
/// contain the delimiter (`"p"` before `"p_p"` joins to the same key
/// as `"p_p"` before `"p"`).
pub proof fn lemma_order_sensitive(a: Seq<char>, b: Seq<char>)
    requires
        a.len() == b.len(),
        a != b,
    ensures
        signature_of(seq![a, b]) != signature_of(seq![b, a]),
{
    let left = signature_of(seq![a, b]);
    let right = signature_of(seq![b, a]);
    assert(seq![a, b].len() == 2 && seq![a, b][0] == a);
    assert(seq![b, a].len() == 2 && seq![b, a][0] == b);
    assert(seq![a, b].drop_first() =~= seq![b]);
    assert(seq![b, a].drop_first() =~= seq![a]);
    assert(seq![b].len() == 1 && seq![b][0] == b);
    assert(seq![a].len() == 1 && seq![a][0] == a);
    assert(signature_of(seq![b]) == b);
    assert(signature_of(seq![a]) == a);
    assert(left == a + seq!['_'] + b);
    assert(right == b + seq!['_'] + a);
    if left == right {
        assert forall|i: int| 0 <= i < a.len() implies a[i] == b[i] by {
            assert(left[i] == a[i]);
            assert(right[i] == b[i]);
        }
        assert(a =~= b);
    }
}

/// A copy of a recipient list.
fn clone_ids(ids: &Vec<String>) -> (r: Vec<String>)
    ensures
        r.deep_view() == ids.deep_view(),
        r@.len() == ids@.len(),
{
    let mut out: Vec<String> = Vec::new();
    let mut i: usize = 0;
    while i < ids.len()
        invariant
            i <= ids.len(),
            out@.len() == i,
            forall|j: int| 0 <= j < i ==> out@[j]@ == ids@[j]@,
        decreases ids.len() - i,
    {
        out.push(ids[i].clone());
        i = i + 1;
    }
    proof {
        assert(out.deep_view() =~= ids.deep_view());
    }
    out
}

} // verus!

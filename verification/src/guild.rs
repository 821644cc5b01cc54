//! The guild registry: one named group record per owning account, numbered
//! from a counter that only ever moves forward.

use vstd::prelude::*;
use crate::account::AccountId;

verus! {

/// Identifier of a guild.
pub type GuildId = u64;

/// A named group owned by one account.
#[derive(Clone, Debug, PartialEq, Eq)]
pub struct Guild {
    pub id: GuildId,
    pub name: Vec<u8>,
    pub members: Vec<AccountId>,
}

/// What a guild holds, as mathematical values.
pub struct GuildView {
    pub id: GuildId,
    pub name: Seq<u8>,
    pub members: Seq<Seq<u8>>,
}

impl View for Guild {
    type V = GuildView;

    open spec fn view(&self) -> GuildView {
        GuildView {
            id: self.id,
            name: self.name@,
            members: self.members@.map_values(|a: AccountId| a@),
        }
    }
}

/// The changes an owner asks for.
#[derive(Clone, Debug, PartialEq, Eq)]
pub struct GuildUpdate {
    pub members: Vec<AccountId>,
    pub name: Vec<u8>,
}

/// What the registry reports to the outside.
#[derive(Clone, Debug, PartialEq, Eq)]
pub enum Event {
    /// A guild was created: its id, its name, its owner.
    GuildCreated(GuildId, Vec<u8>, AccountId),
    /// An owner asked for an update: the id given, the new name.
    GuildUpdated(GuildId, Vec<u8>),
}

/// An event as mathematical values.
pub enum EventView {
    GuildCreated(GuildId, Seq<u8>, Seq<u8>),
    GuildUpdated(GuildId, Seq<u8>),
}

impl View for Event {
    type V = EventView;

    open spec fn view(&self) -> EventView {
        match *self {
            Event::GuildCreated(id, name, owner) => EventView::GuildCreated(id, name@, owner@),
            Event::GuildUpdated(id, name) => EventView::GuildUpdated(id, name@),
        }
    }
}

/// Why a request was turned down.
#[derive(Clone, Copy, Debug, PartialEq, Eq)]
pub enum Error {
    /// The caller owns no guild.
    NoGuildFound,
}

/// The registry as mathematical values: the guild of each owner, and the id
/// that the next guild will get.
pub struct RegistryView {
    pub guilds: Map<Seq<u8>, GuildView>,
    pub next_guild_id: nat,
}

impl RegistryView {
    /// The registry before any guild exists.
    pub open spec fn initial() -> RegistryView {
        RegistryView { guilds: Map::empty(), next_guild_id: 1 }
    }

    /// The guild that `create_guild` stores.
    pub open spec fn new_guild(self, name: Seq<u8>) -> GuildView {
        GuildView { id: self.next_guild_id as GuildId, name, members: Seq::empty() }
    }

    /// The registry after `owner` has created a guild called `name`.
    pub open spec fn create_guild(self, owner: Seq<u8>, name: Seq<u8>) -> RegistryView {
        RegistryView {
            guilds: self.guilds.insert(owner, self.new_guild(name)),
            next_guild_id: self.next_guild_id + 1,
        }
    }

    /// The registry after the calls have been served, first to last.
    pub open spec fn after(self, calls: Seq<CreateGuild>) -> RegistryView
        decreases calls.len(),
    {
        if calls.len() == 0 {
            self
        } else {
            self.after(calls.drop_last()).create_guild(calls.last().owner, calls.last().name)
        }
    }

    /// Every id in use lies between 1 and the counter, the counter left out,
    /// and no two owners hold the same id.
    pub open spec fn ids_are_spent(self) -> bool {
        &&& 1 <= self.next_guild_id
        &&& forall|owner: Seq<u8>| #[trigger]
            self.guilds.dom().contains(owner) ==> 1 <= self.guilds[owner].id < self.next_guild_id
        &&& forall|a: Seq<u8>, b: Seq<u8>|
            #![trigger self.guilds[a], self.guilds[b]]
            self.guilds.dom().contains(a) && self.guilds.dom().contains(b) && a != b
                ==> self.guilds[a].id != self.guilds[b].id
    }
}

/// One call of `create_guild`: who calls, and the name asked for.
pub struct CreateGuild {
    pub owner: Seq<u8>,
    pub name: Seq<u8>,
}

/// Serving calls moves the counter on by one for each, whoever calls.
pub proof fn lemma_counter_counts_calls(start: RegistryView, calls: Seq<CreateGuild>)
    ensures
        start.after(calls).next_guild_id == start.next_guild_id + calls.len(),
    decreases calls.len(),
{
    if calls.len() > 0 {
        lemma_counter_counts_calls(start, calls.drop_last());
    }
}

/// From an empty registry, the call at place `i` (the first at place 0) gets
/// the id `i + 1`, whoever calls: the ids count up from 1 and leave no gap.
pub proof fn lemma_ids_count_up(calls: Seq<CreateGuild>, i: int)
    requires
        0 <= i < calls.len(),
    ensures
        RegistryView::initial().after(calls.take(i)).next_guild_id == i + 1,
{
    lemma_counter_counts_calls(RegistryView::initial(), calls.take(i));
}

/// After the calls, an account has a guild exactly if it had one before or
/// made one of the calls.
pub proof fn lemma_owners_are_callers(start: RegistryView, calls: Seq<CreateGuild>, who: Seq<u8>)
    ensures
        start.after(calls).guilds.dom().contains(who) <==> start.guilds.dom().contains(who)
            || exists|i: int| 0 <= i < calls.len() && (#[trigger] calls[i]).owner == who,
    decreases calls.len(),
{
    if calls.len() > 0 {
        let earlier = calls.drop_last();
        lemma_owners_are_callers(start, earlier, who);
        if exists|i: int| 0 <= i < earlier.len() && (#[trigger] earlier[i]).owner == who {
            let i = choose|i: int| 0 <= i < earlier.len() && (#[trigger] earlier[i]).owner == who;
            assert(calls[i].owner == who);
        }
        if exists|i: int| 0 <= i < calls.len() && (#[trigger] calls[i]).owner == who {
            let i = choose|i: int| 0 <= i < calls.len() && (#[trigger] calls[i]).owner == who;
            if i < earlier.len() {
                assert(earlier[i].owner == who);
            }
        }
        if calls.last().owner == who {
            assert(calls[calls.len() - 1].owner == who);
        }
    }
}

/// After the calls, an account holds the guild of its last call, the call at
/// place `i`: the guild that this call stored, with the id that the counter
/// showed then and the name asked for, in place of any guild that the account
/// had.
pub proof fn lemma_last_call_wins(start: RegistryView, calls: Seq<CreateGuild>, i: int)
    requires
        0 <= i < calls.len(),
        forall|j: int| i < j < calls.len() ==> (#[trigger] calls[j]).owner != calls[i].owner,
    ensures
        start.after(calls).guilds.dom().contains(calls[i].owner),
        start.after(calls).guilds[calls[i].owner] == start.after(calls.take(i)).new_guild(
            calls[i].name,
        ),
        start.after(calls.take(i)).next_guild_id == start.next_guild_id + i,
    decreases calls.len(),
{
    let earlier = calls.drop_last();
    lemma_counter_counts_calls(start, calls.take(i));
    if i == calls.len() - 1 {
        assert(calls.take(i) =~= earlier);
    } else {
        assert(calls[calls.len() - 1].owner != calls[i].owner);
        assert forall|j: int| i < j < earlier.len() implies (#[trigger] earlier[j]).owner
            != earlier[i].owner by {
            assert(calls[j].owner != calls[i].owner);
        }
        assert(earlier.take(i) =~= calls.take(i));
        lemma_last_call_wins(start, earlier, i);
    }
}

/// An id that was given out is not given out again: where every id in use
/// lies below the counter, that is so after one more guild, too.
pub proof fn lemma_ids_stay_spent(before: RegistryView, owner: Seq<u8>, name: Seq<u8>)
    requires
        before.ids_are_spent(),
        before.next_guild_id <= GuildId::MAX,
    ensures
        before.create_guild(owner, name).ids_are_spent(),
        before.create_guild(owner, name).guilds[owner].id == before.next_guild_id,
{
    let after = before.create_guild(owner, name);
    assert forall|a: Seq<u8>, b: Seq<u8>|
        #![trigger after.guilds[a], after.guilds[b]]
        after.guilds.dom().contains(a) && after.guilds.dom().contains(b) && a != b
            implies after.guilds[a].id != after.guilds[b].id by {
        if a != owner {
            assert(before.guilds.dom().contains(a));
        }
        if b != owner {
            assert(before.guilds.dom().contains(b));
        }
    }
}

struct GuildEntry {
    owner: AccountId,
    guild: Guild,
}

/// No owner occurs twice among the entries, and the map holds what they hold.
spec fn consistent(entries: Seq<GuildEntry>, guilds: Map<Seq<u8>, GuildView>) -> bool {
    &&& forall|i: int, j: int|
        0 <= i < j < entries.len() ==> (#[trigger] entries[i]).owner@ != (#[trigger] entries[j]).owner@
    &&& forall|i: int|
        0 <= i < entries.len() ==> {
            &&& guilds.dom().contains((#[trigger] entries[i]).owner@)
            &&& guilds[entries[i].owner@] == entries[i].guild@
        }
    &&& forall|k: Seq<u8>| #[trigger]
        guilds.dom().contains(k) ==> exists|i: int|
            0 <= i < entries.len() && (#[trigger] entries[i]).owner@ == k
}

/// The guilds, each under the account that owns it, and the id counter.
pub struct GuildRegistry {
    entries: Vec<GuildEntry>,
    next_guild_id: GuildId,
    guilds: Ghost<Map<Seq<u8>, GuildView>>,
}

impl View for GuildRegistry {
    type V = RegistryView;

    closed spec fn view(&self) -> RegistryView {
        RegistryView { guilds: self.guilds@, next_guild_id: self.next_guild_id as nat }
    }
}

impl GuildRegistry {
    #[verifier::type_invariant]
    spec fn inv(self) -> bool {
        &&& consistent(self.entries@, self.guilds@)
        &&& self@.ids_are_spent()
    }

    /// A registry without guilds, whose first guild will get the id 1.
    pub fn new() -> (registry: GuildRegistry)
        ensures
            registry@ == RegistryView::initial(),
            registry@.ids_are_spent(),
    {
        GuildRegistry { entries: Vec::new(), next_guild_id: 1, guilds: Ghost(Map::empty()) }
    }

    /// The id that the next guild will get.
    pub fn next_guild_id(&self) -> (id: GuildId)
        ensures
            id == self@.next_guild_id,
    {
        self.next_guild_id
    }

    fn position(&self, who: &AccountId) -> (found: Option<usize>)
        ensures
            found matches Some(i) ==> i < self.entries.len() && self.entries[i as int].owner@
                == who@,
            found is None ==> forall|j: int|
                0 <= j < self.entries.len() ==> self.entries[j].owner@ != who@,
    {
        let mut i: usize = 0;
        while i < self.entries.len()
            invariant
                i <= self.entries.len(),
                forall|j: int| 0 <= j < i ==> self.entries[j].owner@ != who@,
            decreases self.entries.len() - i,
        {
            if self.entries[i].owner.same_as(who) {
                return Some(i);
            }
            i += 1;
        }
        None
    }

    /// The guild that `who` owns, if any.
    pub fn guild(&self, who: &AccountId) -> (found: Option<&Guild>)
        ensures
            found is Some <==> self@.guilds.dom().contains(who@),
            found matches Some(g) ==> g@ == self@.guilds[who@],
            self@.ids_are_spent(),
    {
        proof {
            use_type_invariant(self);
        }
        match self.position(who) {
            Some(i) => Some(&self.entries[i].guild),
            None => None,
        }
    }

    /// Creates a guild called `guild_name` for `owner`, in place of the one
    /// that `owner` had, and moves the counter on by one.
    pub fn create_guild(&mut self, owner: AccountId, guild_name: Vec<u8>) -> (event: Event)
        requires
            old(self)@.next_guild_id < u64::MAX,
        ensures
            final(self)@ == old(self)@.create_guild(owner@, guild_name@),
            final(self)@.ids_are_spent(),
            event@ == EventView::GuildCreated(
                old(self)@.next_guild_id as GuildId,
                guild_name@,
                owner@,
            ),
    {
        proof {
            use_type_invariant(&*self);
        }
        let id = self.next_guild_id;
        let found = self.position(&owner);
        let mut taken = GuildRegistry::new();
        std::mem::swap(self, &mut taken);
        let GuildRegistry { mut entries, next_guild_id: _, guilds } = taken;
        let guild = Guild { id, name: guild_name.clone(), members: Vec::new() };
        let ghost stored = guild@;
        let ghost before = entries@;
        assert(guild.name@ == guild_name@);
        assert(stored.members =~= Seq::empty());
        let entry = GuildEntry { owner, guild };
        match found {
            Some(i) => {
                entries.set(i, entry);
            },
            None => {
                entries.push(entry);
            },
        }
        proof {
            let after = entries@;
            let map = guilds@.insert(owner@, stored);
            assert forall|i: int, j: int| 0 <= i < j < after.len() implies (#[trigger] after[i])
                .owner@ != (#[trigger] after[j]).owner@ by {
                if i < before.len() && after[i].owner@ != owner@ {
                    assert(after[i] == before[i]);
                }
                if j < before.len() && after[j].owner@ != owner@ {
                    assert(after[j] == before[j]);
                }
            }
            assert forall|i: int| 0 <= i < after.len() implies {
                &&& map.dom().contains((#[trigger] after[i]).owner@)
                &&& map[after[i].owner@] == after[i].guild@
            } by {
                if after[i].owner@ != owner@ {
                    assert(after[i] == before[i]);
                }
            }
            assert forall|k: Seq<u8>| #[trigger] map.dom().contains(k) implies exists|i: int|
                0 <= i < after.len() && (#[trigger] after[i]).owner@ == k by {
                if k == owner@ {
                    let at = if found is Some { found.unwrap() as int } else { before.len() as int };
                    assert(after[at].owner@ == k);
                } else {
                    assert(guilds@.dom().contains(k));
                    let i = choose|i: int| 0 <= i < before.len() && before[i].owner@ == k;
                    assert(after[i].owner@ == k);
                }
            }
            assert(consistent(after, map));
            lemma_ids_stay_spent(old(self)@, owner@, guild_name@);
        }
        *self = GuildRegistry {
            entries,
            next_guild_id: id + 1,
            guilds: Ghost(guilds@.insert(owner@, stored)),
        };
        Event::GuildCreated(id, guild_name, owner)
    }

    /// Reports the update that `owner` asks for; the stored guild stays as it is.
    pub fn update_guild(
        &self,
        owner: &AccountId,
        guild_id: GuildId,
        update: GuildUpdate,
    ) -> (result: Result<Event, Error>)
        ensures
            result is Ok <==> self@.guilds.dom().contains(owner@),
            result matches Ok(event) ==> event@ == EventView::GuildUpdated(guild_id, update.name@),
            result matches Err(e) ==> e == Error::NoGuildFound,
    {
        proof {
            use_type_invariant(self);
        }
        match self.position(owner) {
            Some(_) => Ok(Event::GuildUpdated(guild_id, update.name)),
            None => Err(Error::NoGuildFound),
        }
    }
}

} // verus!

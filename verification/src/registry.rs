//! The live-entry registries: bounded, insertion-ordered collections of
//! the bot's still-interactive responses, looked up by the id of the
//! input message they answer or by the ids of the messages they show.
use vstd::prelude::*;
use crate::markup::MathSnip;
use crate::markup::snip_output_ids;
use crate::wolfram::WolfMessage;
use crate::wolfram::wolf_output_ids;
use crate::wolfram::wolf_wf;

verus! {

/// One outstanding bot response, whichever kind it is.
pub enum LiveEntry {
    Math(MathSnip),
    Wolf(WolfMessage),
}

/// The id of the input message an entry answers.
pub open spec fn entry_input_id(e: LiveEntry) -> u64 {
    match e {
        LiveEntry::Math(m) => m.inp_message.id,
        LiveEntry::Wolf(w) => w.inp_message.id,
    }
}

/// The ids of the bot messages an entry currently shows.
pub open spec fn entry_output_ids(e: LiveEntry) -> Seq<u64> {
    match e {
        LiveEntry::Math(m) => snip_output_ids(m),
        LiveEntry::Wolf(w) => wolf_output_ids(w),
    }
}

/// The user whose interactions an entry accepts.
pub open spec fn entry_owner_id(e: LiveEntry) -> u64 {
    match e {
        LiveEntry::Math(m) => m.inp_message.author.id,
        LiveEntry::Wolf(w) => w.inp_message.author.id,
    }
}

/// Well-formedness of one entry.
pub open spec fn entry_wf(e: LiveEntry) -> bool {
    match e {
        LiveEntry::Math(_) => true,
        LiveEntry::Wolf(w) => wolf_wf(w),
    }
}

impl LiveEntry {
    /// The id of the input message this entry answers.
    pub fn get_input_message_id(&self) -> (r: u64)
        ensures
            r == entry_input_id(*self),
    {
        match self {
            LiveEntry::Math(m) => m.get_input_message_id(),
            LiveEntry::Wolf(w) => w.get_input_message_id(),
        }
    }

    /// The ids of the bot messages this entry currently shows.
    pub fn get_response_message_id(&self) -> (r: Vec<u64>)
        ensures
            r@ == entry_output_ids(*self),
    {
        match self {
            LiveEntry::Math(m) => m.get_response_message_id(),
            LiveEntry::Wolf(w) => w.get_response_message_id(),
        }
    }

    /// The user whose interactions this entry accepts.
    pub fn owner_user_id(&self) -> (r: u64)
        ensures
            r == entry_owner_id(*self),
    {
        match self {
            LiveEntry::Math(m) => m.inp_message.author.id,
            LiveEntry::Wolf(w) => w.inp_message.author.id,
        }
    }
}

/// A bounded, insertion-ordered collection of live entries: new entries
/// go in at the front, and everything past the capacity is dropped from
/// the back.
pub struct Registry {
    pub entries: Vec<LiveEntry>,
    pub capacity: usize,
}

/// The registry never holds more entries than its capacity.
pub open spec fn reg_wf(r: Registry) -> bool {
    r.entries@.len() <= r.capacity
}

/// The contents after a push: the new entry at the front, the existing
/// entries shifted back, and everything past the capacity dropped.
pub open spec fn push_model(s: Seq<LiveEntry>, cap: nat, e: LiveEntry) -> Seq<LiveEntry> {
    let grown = s.insert(0, e);
    if grown.len() > cap {
        grown.take(cap as int)
    } else {
        grown
    }
}

/// The capacity bound and the eviction order of a push: the result
/// stays within the capacity; the new entry stands at the front with
/// the old entries behind it in order; and when the collection was
/// full, exactly the oldest entry is gone.
pub proof fn lemma_push_bounded(s: Seq<LiveEntry>, cap: nat, e: LiveEntry)
    requires
        s.len() <= cap,
    ensures
        push_model(s, cap, e).len() <= cap,
        push_model(s, cap, e).len() == if s.len() < cap {
            s.len() + 1
        } else {
            cap
        },
        cap > 0 ==> push_model(s, cap, e)[0] == e,
        forall|i: int| 0 <= i < push_model(s, cap, e).len() - 1 ==> push_model(s, cap, e)[i + 1]
            == s[i],
        s.len() == cap && cap > 0 ==> push_model(s, cap, e) == s.insert(0, e).drop_last(),
{
    let grown = s.insert(0, e);
    if s.len() == cap && cap > 0 {
        assert(push_model(s, cap, e) =~= grown.drop_last());
    }
}

/// The contents after a whole sequence of pushes, oldest push first.
pub open spec fn push_all(s: Seq<LiveEntry>, cap: nat, es: Seq<LiveEntry>) -> Seq<LiveEntry>
    decreases es.len(),
{
    if es.len() == 0 {
        s
    } else {
        push_model(push_all(s, cap, es.drop_last()), cap, es.last())
    }
}

/// After any sequence of pushes a registry within its capacity stays
/// within its capacity.
pub proof fn lemma_pushes_bounded(s: Seq<LiveEntry>, cap: nat, es: Seq<LiveEntry>)
    requires
        s.len() <= cap,
    ensures
        push_all(s, cap, es).len() <= cap,
    decreases es.len(),
{
    if es.len() > 0 {
        lemma_pushes_bounded(s, cap, es.drop_last());
        lemma_push_bounded(push_all(s, cap, es.drop_last()), cap, es.last());
    }
}

impl Registry {
    /// An empty registry that will keep at most `capacity` entries.
    pub fn new(capacity: usize) -> (r: Registry)
        ensures
            r.entries@.len() == 0,
            r.capacity == capacity,
            reg_wf(r),
    {
        Registry { entries: Vec::new(), capacity }
    }

    /// How many entries are held.
    pub fn len(&self) -> (r: usize)
        ensures
            r == self.entries@.len(),
    {
        self.entries.len()
    }

    /// The entry at `i`.
    pub fn get(&self, i: usize) -> (r: &LiveEntry)
        requires
            i < self.entries@.len(),
        ensures
            *r == self.entries@[i as int],
    {
        &self.entries[i]
    }

    /// Inserts `e` at the front; when the capacity is exceeded, the
    /// oldest entries are dropped from the back.
    pub fn push(&mut self, e: LiveEntry)
        requires
            reg_wf(*old(self)),
        ensures
            reg_wf(*final(self)),
            final(self).capacity == old(self).capacity,
            final(self).entries@ == push_model(
                old(self).entries@,
                old(self).capacity as nat,
                e,
            ),
    {
        self.entries.insert(0, e);
        if self.entries.len() > self.capacity {
            self.entries.truncate(self.capacity);
        }
    }

    /// Replaces the entry at `i`, keeping its position.
    pub fn replace_at(&mut self, i: usize, e: LiveEntry)
        requires
            i < old(self).entries@.len(),
        ensures
            final(self).capacity == old(self).capacity,
            final(self).entries@ == old(self).entries@.update(i as int, e),
    {
        self.entries[i] = e;
        proof {
            assert(self.entries@ =~= old(self).entries@.update(i as int, e));
        }
    }

    /// The position of the first entry answering input message `id`.
    pub fn find_by_input(&self, id: u64) -> (r: Option<usize>)
        ensures
            match r {
                Some(p) => p < self.entries@.len() && entry_input_id(self.entries@[p as int]) == id
                    && (forall|k: int|
                    0 <= k < p ==> entry_input_id(#[trigger] self.entries@[k]) != id),
                None => forall|k: int|
                    0 <= k < self.entries@.len() ==> entry_input_id(#[trigger] self.entries@[k])
                        != id,
            },
    {
        let n = self.entries.len();
        let mut i: usize = 0;
        while i < n
            invariant
                i <= n,
                n == self.entries@.len(),
                forall|k: int| 0 <= k < i ==> entry_input_id(#[trigger] self.entries@[k]) != id,
            decreases n - i,
        {
            if self.entries[i].get_input_message_id() == id {
                return Some(i);
            }
            i = i + 1;
        }
        None
    }

    /// The position of the first entry showing output message `id`.
    pub fn find_by_output(&self, id: u64) -> (r: Option<usize>)
        ensures
            match r {
                Some(p) => p < self.entries@.len() && entry_output_ids(
                    self.entries@[p as int],
                ).contains(id) && (forall|k: int|
                    0 <= k < p ==> !entry_output_ids(#[trigger] self.entries@[k]).contains(id)),
                None => forall|k: int|
                    0 <= k < self.entries@.len() ==> !entry_output_ids(
                        #[trigger] self.entries@[k],
                    ).contains(id),
            },
    {
        let n = self.entries.len();
        let mut i: usize = 0;
        while i < n
            invariant
                i <= n,
                n == self.entries@.len(),
                forall|k: int|
                    0 <= k < i ==> !entry_output_ids(#[trigger] self.entries@[k]).contains(id),
            decreases n - i,
        {
            let outputs = self.entries[i].get_response_message_id();
            if contains_id(&outputs, id) {
                return Some(i);
            }
            i = i + 1;
        }
        None
    }
}

/// Whether `v` holds `id`.
pub fn contains_id(v: &Vec<u64>, id: u64) -> (r: bool)
    ensures
        r == v@.contains(id),
{
    let n = v.len();
    let mut i: usize = 0;
    while i < n
        invariant
            i <= n,
            n == v@.len(),
            forall|k: int| 0 <= k < i ==> v@[k] != id,
        decreases n - i,
    {
        if v[i] == id {
            return true;
        }
        i = i + 1;
    }
    proof {
        if v@.contains(id) {
            let k = choose|k: int| 0 <= k < v@.len() && v@[k] == id;
            assert(false);
        }
    }
    false
}

/// The registry serving message-edit lookups, keyed by input message
/// id.
pub struct Editables {
    pub reg: Registry,
}

impl Editables {
    /// An empty edit registry with the given capacity.
    pub fn new(capacity: usize) -> (r: Editables)
        ensures
            r.reg.entries@.len() == 0,
            r.reg.capacity == capacity,
            reg_wf(r.reg),
    {
        Editables { reg: Registry::new(capacity) }
    }
}

/// The registry serving component-interaction lookups, keyed by the
/// shown message ids.
pub struct Interactables {
    pub reg: Registry,
}

impl Interactables {
    /// An empty interaction registry with the given capacity.
    pub fn new(capacity: usize) -> (r: Interactables)
        ensures
            r.reg.entries@.len() == 0,
            r.reg.capacity == capacity,
            reg_wf(r.reg),
    {
        Interactables { reg: Registry::new(capacity) }
    }
}

/// Inserts a fresh entry at the front of the edit registry, dropping
/// the oldest entries beyond its capacity.
pub fn push_to_editables(ed: &mut Editables, e: LiveEntry)
    requires
        reg_wf(old(ed).reg),
    ensures
        reg_wf(final(ed).reg),
        final(ed).reg.capacity == old(ed).reg.capacity,
        final(ed).reg.entries@ == push_model(
            old(ed).reg.entries@,
            old(ed).reg.capacity as nat,
            e,
        ),
{
    ed.reg.push(e);
}

/// Inserts a fresh entry at the front of the interaction registry,
/// dropping the oldest entries beyond its capacity.
pub fn push_to_interactables(it: &mut Interactables, e: LiveEntry)
    requires
        reg_wf(old(it).reg),
    ensures
        reg_wf(final(it).reg),
        final(it).reg.capacity == old(it).reg.capacity,
        final(it).reg.entries@ == push_model(
            old(it).reg.entries@,
            old(it).reg.capacity as nat,
            e,
        ),
{
    it.reg.push(e);
}

} // verus!

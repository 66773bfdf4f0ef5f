//! What a driver remembers between turns.

use vstd::prelude::*;

use crate::text::str_equal;

verus! {

/// What a driver knows of one conversation.
#[derive(Debug, PartialEq, Eq)]
pub struct ThreadState {
    pub thread_id: String,
    pub model: String,
    pub sent_message_count: usize,
}

/// The value of what a driver knows of one conversation.
pub struct ThreadView {
    pub thread_id: Seq<char>,
    pub model: Seq<char>,
    pub sent_message_count: usize,
}

impl View for ThreadState {
    type V = ThreadView;

    open spec fn view(&self) -> ThreadView {
        ThreadView {
            thread_id: self.thread_id@,
            model: self.model@,
            sent_message_count: self.sent_message_count,
        }
    }
}

/// A conversation and what is known of it.
#[derive(Debug, PartialEq, Eq)]
pub struct ThreadEntry {
    pub key: String,
    pub thread: ThreadState,
}

/// The conversations of a driver; of two entries with one key the later counts.
#[derive(Debug, PartialEq, Eq)]
pub struct ThreadTable {
    pub entries: Vec<ThreadEntry>,
}

/// The entries by key.
pub open spec fn threads_by_key(entries: Seq<ThreadEntry>) -> Map<Seq<char>, ThreadView>
    decreases entries.len(),
{
    if entries.len() == 0 {
        Map::empty()
    } else {
        threads_by_key(entries.drop_last()).insert(entries.last().key@, entries.last().thread@)
    }
}

impl View for ThreadTable {
    type V = Map<Seq<char>, ThreadView>;

    open spec fn view(&self) -> Map<Seq<char>, ThreadView> {
        threads_by_key(self.entries@)
    }
}

/// The session that a driver talks to.
#[derive(Debug, PartialEq, Eq)]
pub struct AppServerSession {
    /// The id of the next request.
    pub next_id: u64,
}

/// What a driver remembers between turns.
#[derive(Debug, PartialEq, Eq)]
pub struct DriverState {
    pub session: Option<AppServerSession>,
    pub threads: ThreadTable,
}

/// The value of what a driver remembers: the next request id of its session and
/// its conversations.
#[verifier::ext_equal]
pub struct StateView {
    pub session: Option<u64>,
    pub threads: Map<Seq<char>, ThreadView>,
}

impl View for DriverState {
    type V = StateView;

    open spec fn view(&self) -> StateView {
        StateView {
            session: match self.session {
                Some(s) => Some(s.next_id),
                None => None,
            },
            threads: self.threads@,
        }
    }
}

impl DriverState {
    /// The state of a new driver.
    pub fn new() -> (r: DriverState)
        ensures
            r@ == (StateView { session: None, threads: Map::empty() }),
    {
        DriverState { session: None, threads: ThreadTable { entries: Vec::new() } }
    }
}

/// Replacing the last entry with a key replaces the key's value.
proof fn lemma_replace_entry(entries: Seq<ThreadEntry>, i: int, entry: ThreadEntry)
    requires
        0 <= i < entries.len(),
        entries[i].key@ == entry.key@,
        forall|j: int| i < j < entries.len() ==> (#[trigger] entries[j]).key@ != entry.key@,
    ensures
        threads_by_key(entries.update(i, entry)) == threads_by_key(entries).insert(
            entry.key@,
            entry.thread@,
        ),
    decreases entries.len(),
{
    let updated = entries.update(i, entry);
    if i == entries.len() - 1 {
        assert(updated.drop_last() =~= entries.drop_last());
        assert(threads_by_key(updated) =~= threads_by_key(entries).insert(
            entry.key@,
            entry.thread@,
        ));
    } else {
        assert(updated.drop_last() =~= entries.drop_last().update(i, entry));
        lemma_replace_entry(entries.drop_last(), i, entry);
        assert(entries[entries.len() - 1].key@ != entry.key@);
        assert(threads_by_key(updated) =~= threads_by_key(entries).insert(
            entry.key@,
            entry.thread@,
        ));
    }
}

/// The value of an optional thread.
pub open spec fn thread_option(t: Option<&ThreadState>) -> Option<ThreadView> {
    match t {
        Some(s) => Some(s@),
        None => None,
    }
}

/// The entry of a table with the given key.
pub open spec fn lookup(threads: Map<Seq<char>, ThreadView>, key: Seq<char>) -> Option<ThreadView> {
    if threads.contains_key(key) {
        Some(threads[key])
    } else {
        None
    }
}

impl ThreadTable {
    /// Position behind the last entry with the given key, or 0.
    fn position(&self, key: &str) -> (r: usize)
        ensures
            r <= self.entries@.len(),
            r > 0 ==> self.entries@[r - 1].key@ == key@,
            forall|j: int| r <= j < self.entries@.len() ==> (#[trigger] self.entries@[j]).key@ != key@,
            r > 0 ==> self@.contains_key(key@) && self@[key@] == self.entries@[r - 1].thread@,
            r == 0 ==> !self@.contains_key(key@),
    {
        let mut n: usize = self.entries.len();
        assert(self.entries@.take(n as int) =~= self.entries@);
        while n > 0 && !str_equal(self.entries[n - 1].key.as_str(), key)
            invariant
                n <= self.entries@.len(),
                forall|j: int|
                    n <= j < self.entries@.len() ==> (#[trigger] self.entries@[j]).key@ != key@,
                lookup(threads_by_key(self.entries@.take(n as int)), key@) == lookup(self@, key@),
            decreases n,
        {
            assert(self.entries@.take(n as int).drop_last() =~= self.entries@.take(n - 1));
            n = n - 1;
        }
        assert(n == 0 ==> threads_by_key(self.entries@.take(0)) =~= Map::<
            Seq<char>,
            ThreadView,
        >::empty());
        n
    }

    /// What is known of a conversation.
    pub fn get(&self, key: &str) -> (r: Option<&ThreadState>)
        ensures
            thread_option(r) == lookup(self@, key@),
    {
        let n: usize = self.position(key);
        if n > 0 {
            Some(&self.entries[n - 1].thread)
        } else {
            None
        }
    }

    /// Sets what is known of a conversation.
    pub fn put(&mut self, key: &str, thread: ThreadState)
        ensures
            final(self)@ == old(self)@.insert(key@, thread@),
    {
        let n: usize = self.position(key);
        let entry: ThreadEntry = ThreadEntry { key: key.to_owned(), thread };
        let ghost before = self.entries@;
        if n > 0 {
            proof {
                lemma_replace_entry(before, n - 1, entry);
            }
            self.entries.set(n - 1, entry);
        } else {
            self.entries.push(entry);
            assert(self.entries@.drop_last() =~= before);
        }
    }
}

} // verus!

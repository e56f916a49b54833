//! The store owned by the core actor, and the commands executed against it.

use crate::resp::RespData;
use crate::resp::RespDataView;
use vstd::hash_map::StringHashMap;
use vstd::prelude::*;

verus! {

/// Mathematical model of a [`Command`]: the same variants over character
/// sequences and unbounded integers.
pub enum CommandView {
    Put(Seq<char>, RespDataView),
    Get(Seq<char>),
    FlushAll,
    Incr(Seq<char>, Option<int>),
    Decr(Seq<char>, Option<int>),
    Unknown,
}

/// A request to the dispatcher: one of the recognized operations with its
/// operands, or `Unknown` for anything a decoder could not recognize.
pub enum Command {
    Put(String, RespData),
    Get(String),
    FlushAll,
    Incr(String, Option<i64>),
    Decr(String, Option<i64>),
    Unknown,
}

impl View for Command {
    type V = CommandView;

    open spec fn view(&self) -> CommandView {
        match self {
            Command::Put(k, v) => CommandView::Put(k@, v@),
            Command::Get(k) => CommandView::Get(k@),
            Command::FlushAll => CommandView::FlushAll,
            Command::Incr(k, by) => CommandView::Incr(
                k@,
                match by {
                    Some(b) => Some(*b as int),
                    None => None,
                },
            ),
            Command::Decr(k, by) => CommandView::Decr(
                k@,
                match by {
                    Some(b) => Some(*b as int),
                    None => None,
                },
            ),
            Command::Unknown => CommandView::Unknown,
        }
    }
}

/// The entire state of the database: a mapping from string keys to values,
/// exclusively owned by the core actor and mutated only by the dispatcher.
pub struct CoreState {
    keyval: StringHashMap<RespData>,
}

impl View for CoreState {
    type V = Map<Seq<char>, RespDataView>;

    closed spec fn view(&self) -> Map<Seq<char>, RespDataView> {
        self.keyval@.map_values(|v: RespData| v@)
    }
}

impl CoreState {
    /// Creates the empty store a core actor starts with.
    pub fn new() -> (s: CoreState)
        ensures
            s@ == Map::<Seq<char>, RespDataView>::empty(),
    {
        let s = CoreState { keyval: StringHashMap::new() };
        proof {
            assert(s@ =~= Map::<Seq<char>, RespDataView>::empty());
        }
        s
    }

    /// The number of keys currently present.
    pub fn len(&self) -> (n: usize)
        ensures
            n == self@.len(),
    {
        proof {
            assert(self@.dom() =~= self.keyval@.dom());
        }
        self.keyval.len()
    }

    /// Looks a key up, returning a reference to its value if present.
    pub fn get<'a>(&'a self, k: &str) -> (r: Option<&'a RespData>)
        ensures
            match r {
                Some(v) => self@.contains_key(k@) && v@ == self@[k@],
                None => !self@.contains_key(k@),
            },
    {
        let r = self.keyval.get(k);
        proof {
            if self.keyval@.contains_key(k@) {
                assert(self@[k@] == self.keyval@[k@]@);
            }
        }
        r
    }

    /// Inserts or overwrites the value stored at a key.
    pub fn insert(&mut self, k: String, v: RespData)
        ensures
            final(self)@ == old(self)@.insert(k@, v@),
    {
        self.keyval.insert(k, v);
        proof {
            assert(self@ =~= old(self)@.insert(k@, v@));
        }
    }

    /// Removes every entry, leaving the store empty.
    pub fn clear(&mut self)
        ensures
            final(self)@ == Map::<Seq<char>, RespDataView>::empty(),
    {
        self.keyval.clear();
        proof {
            assert(self@ =~= Map::<Seq<char>, RespDataView>::empty());
        }
    }
}

} // verus!

//! The latest health event of each PLC.

use crate::core_model::json::{json_as_text, json_member, member_of, text_of};
use crate::text;
use vstd::prelude::*;
use vstd::string::*;

verus! {

/// Name of the PLC that a health event is about, if it names one.
pub open spec fn plc_of(event: serde_json::Value) -> Option<Seq<char>> {
    match member_of(event, "plc"@) {
        Some(v) => text_of(v),
        None => None,
    }
}

/// Some name of `known` is `plc`.
pub open spec fn knows(known: Seq<Seq<char>>, plc: Seq<char>) -> bool {
    exists|i: int| 0 <= i < known.len() && #[trigger] known[i] == plc
}

/// The latest health events of the PLCs that the configuration names.
pub struct HealthBoard {
    known: Vec<String>,
    latest: dashmap::DashMap<String, serde_json::Value>,
}

/// What a [`HealthBoard`] holds.
#[verifier::ext_equal]
pub ghost struct HealthBoardView {
    /// Names of the PLCs.
    pub known: Seq<Seq<char>>,
    /// Latest event of each PLC that had one.
    pub latest: Map<Seq<char>, serde_json::Value>,
}

impl HealthBoardView {
    /// The board after an event: one about a PLC that is not known changes nothing.
    pub open spec fn record(self, event: serde_json::Value) -> HealthBoardView {
        match plc_of(event) {
            Some(plc) => if knows(self.known, plc) {
                HealthBoardView { latest: self.latest.insert(plc, event), ..self }
            } else {
                self
            },
            None => self,
        }
    }
}

impl View for HealthBoard {
    type V = HealthBoardView;

    closed spec fn view(&self) -> HealthBoardView {
        HealthBoardView {
            known: Seq::new(self.known@.len(), |i: int| self.known@[i]@),
            latest: board_contents(self.latest),
        }
    }
}

impl HealthBoard {
    /// An empty board of the PLCs with these names.
    pub fn new(known: Vec<String>) -> (r: HealthBoard)
        ensures
            r@.known.len() == known@.len(),
            forall|i: int| 0 <= i < known@.len() ==> #[trigger] r@.known[i] == known@[i]@,
            r@.latest == Map::<Seq<char>, serde_json::Value>::empty(),
    {
        let board = HealthBoard { known, latest: new_board() };
        assert(board@.latest =~= Map::<Seq<char>, serde_json::Value>::empty());
        board
    }

    fn is_known(&self, plc: &str) -> (r: bool)
        ensures
            r == knows(self@.known, plc@),
    {
        let mut i: usize = 0;
        while i < self.known.len()
            invariant
                i <= self.known@.len(),
                forall|j: int| 0 <= j < i ==> #[trigger] self@.known[j] != plc@,
            decreases self.known@.len() - i,
        {
            if text::same(self.known[i].as_str(), plc) {
                assert(self@.known[i as int] == plc@);
                return true;
            }
            i = i + 1;
        }
        false
    }

    /// Take an event. One that names no PLC, or one that is not known, is dropped.
    pub fn record(&mut self, event: serde_json::Value)
        ensures
            final(self)@ == old(self)@.record(event),
    {
        let plc: String = match json_member(&event, "plc") {
            Some(v) => match json_as_text(v) {
                Some(s) => s.to_owned(),
                None => {
                    return ;
                },
            },
            None => {
                return ;
            },
        };
        if self.is_known(plc.as_str()) {
            put_event(&mut self.latest, plc, event);
        }
    }

    /// The latest event of a PLC.
    pub fn latest(&self, plc: &str) -> (r: Option<serde_json::Value>)
        ensures
            r == (if self@.latest.contains_key(plc@) {
                Some(self@.latest[plc@])
            } else {
                None
            }),
    {
        event_of(&self.latest, plc)
    }
}

/// Only events of known PLCs stand on the board, each under the name that it gives.
pub open spec fn board_is_sound(b: HealthBoardView) -> bool {
    forall|plc: Seq<char>| #[trigger]
        b.latest.contains_key(plc) ==> knows(b.known, plc) && plc_of(b.latest[plc]) == Some(plc)
}

/// A board stays sound, whatever events it takes.
pub proof fn board_stays_sound(b: HealthBoardView, event: serde_json::Value)
    requires
        board_is_sound(b),
    ensures
        board_is_sound(b.record(event)),
{
}

// ---------------------------------------------------------------------------
// Calls into dashmap
// ---------------------------------------------------------------------------

/// `dashmap::DashMap`, a map that threads can share.
#[verifier::external_type_specification]
#[verifier::external_body]
#[verifier::reject_recursive_types(K)]
#[verifier::reject_recursive_types(V)]
#[verifier::reject_recursive_types(S)]
pub struct ExDashMap<K, V, S>(dashmap::DashMap<K, V, S>);

/// The entries that a `dashmap::DashMap` holds, by key.
pub uninterp spec fn board_contents(m: dashmap::DashMap<String, serde_json::Value>) -> Map<
    Seq<char>,
    serde_json::Value,
>;

/// `dashmap::DashMap::new`: no entries.
#[verifier::external_body]
fn new_board() -> (r: dashmap::DashMap<String, serde_json::Value>)
    ensures
        board_contents(r).dom() == Set::<Seq<char>>::empty(),
{
    dashmap::DashMap::new()
}

/// `dashmap::DashMap::insert`: the value stands under the key, in place of one that stood there.
/// The map is held exclusively, so no other thread changes it meanwhile.
#[verifier::external_body]
fn put_event(
    m: &mut dashmap::DashMap<String, serde_json::Value>,
    key: String,
    value: serde_json::Value,
)
    ensures
        board_contents(*final(m)) == board_contents(*old(m)).insert(key@, value),
{
    m.insert(key, value);
}

/// `dashmap::DashMap::get`: a copy of the value that stands under the key.
#[verifier::external_body]
fn event_of(m: &dashmap::DashMap<String, serde_json::Value>, key: &str) -> (r: Option<
    serde_json::Value,
>)
    ensures
        r == (if board_contents(*m).contains_key(key@) {
            Some(board_contents(*m)[key@])
        } else {
            None
        }),
{
    m.get(key).map(|entry| entry.value().clone())
}

} // verus!

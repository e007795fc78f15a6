//! The Multi Streaming STT mode's bookkeeping: which panel slots stream, and
//! on which stream slot.

use vstd::prelude::*;
use crate::settings::MULTI_STT_MAX_EXTRA_MODELS;

verus! {

/// How many extra models the Multi-STT list can hold.
pub const EXTRA_MODELS: usize = MULTI_STT_MAX_EXTRA_MODELS;

/// The stream slot of a panel position: slot 0 is the primary's, so
/// position `i` streams on slot `i + 1` (modulo the byte a slot is).
pub fn stream_slot_of(model_index: usize) -> (slot: u8)
    requires
        model_index < usize::MAX,
    ensures
        slot as int == (model_index + 1) % 256,
{
    ((model_index % 256 + 1) % 256) as u8
}

/// The streaming slots of a panel, as (stream slot, model id): every
/// position holding a model that the catalog knows and can stream, in order.
pub open spec fn streaming_slots_spec(ids: Seq<Option<Seq<char>>>, streams: Seq<Option<bool>>) -> Seq<(int, Seq<char>)>
    decreases ids.len(),
{
    if ids.len() == 0 {
        Seq::empty()
    } else {
        let i = ids.len() - 1;
        let rest = streaming_slots_spec(ids.drop_last(), streams);
        if ids[i] is Some && i < streams.len() && streams[i] == Some(true) {
            rest.push(((i + 1) % 256, ids[i]->0))
        } else {
            rest
        }
    }
}

/// An optional string as optional characters.
pub open spec fn ids_view(ids: Seq<Option<String>>) -> Seq<Option<Seq<char>>> {
    ids.map_values(|o: Option<String>| crate::settings::opt_chars(o))
}

/// A slot as characters.
pub open spec fn slot_view(s: (u8, String)) -> (int, Seq<char>) {
    (s.0 as int, s.1@)
}

/// The panel slots the mode streams from (see [`streaming_slots_spec`]):
/// `ids` is the panel's model ids, `streams[i]` whether the catalog entry of
/// `ids[i]` can stream (`None` for a model the catalog does not know).
pub fn streaming_slots(ids: &Vec<Option<String>>, streams: &Vec<Option<bool>>) -> (slots: Vec<(u8, String)>)
    requires
        ids@.len() < usize::MAX,
    ensures
        slots@.map_values(|s: (u8, String)| slot_view(s)) == streaming_slots_spec(ids_view(ids@), streams@),
{
    let mut slots: Vec<(u8, String)> = Vec::new();
    let mut i: usize = 0;
    while i < ids.len()
        invariant
            i <= ids@.len() < usize::MAX,
            slots@.map_values(|s: (u8, String)| slot_view(s)) == streaming_slots_spec(ids_view(ids@.take(i as int)), streams@),
        decreases ids.len() - i,
    {
        let ghost before = ids@.take(i as int);
        assert(ids_view(ids@.take(i + 1)).drop_last() =~= ids_view(before));
        assert(ids_view(ids@.take(i + 1))[i as int] == crate::settings::opt_chars(ids@[i as int]));
        let streams_here = i < streams.len() && streams[i] == Some(true);
        match &ids[i] {
            Some(id) => {
                if streams_here {
                    let ghost old_slots = slots@;
                    slots.push((stream_slot_of(i), id.clone()));
                    assert(slots@.map_values(|s: (u8, String)| slot_view(s))
                        =~= old_slots.map_values(|s: (u8, String)| slot_view(s)).push(((i + 1) % 256, id@)));
                }
            },
            None => {},
        }
        i = i + 1;
    }
    assert(ids@.take(ids@.len() as int) =~= ids@);
    slots
}

/// Where a finished extra stream's result goes: index `slot - 1` of the
/// per-model results, for the extra slots `1..=EXTRA_MODELS` only.
pub fn extra_result_index(slot: u8) -> (r: Option<usize>)
    ensures
        r == if 1 <= slot && slot <= EXTRA_MODELS { Some((slot - 1) as usize) } else { None::<usize> },
{
    if slot == 0 || slot as usize > EXTRA_MODELS {
        None
    } else {
        Some((slot - 1) as usize)
    }
}

} // verus!

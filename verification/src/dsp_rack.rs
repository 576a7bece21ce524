//! The device chain of a track's DSP rack: selecting, reordering, adding
//! and removing slots. The slots themselves are the host's (`T`).

use vstd::prelude::*;
use vstd::string::StringExecFns;
use crate::text::{decimal, push_decimal};

verus! {

/// An arrow key pressed over the rack.
#[derive(Clone, Copy, Debug, PartialEq, Eq, Structural)]
pub enum RackKey {
    Left,
    Right,
}

/// `chain` with the neighbouring slots `lo` and `lo + 1` exchanged.
pub open spec fn swapped<T>(chain: Seq<T>, lo: int) -> Seq<T> {
    chain.update(lo, chain[lo + 1]).update(lo + 1, chain[lo])
}

/// The selection after an arrow key, and the neighbour the selected slot
/// trades places with (Shift held), as its lower position. The selection
/// moves one slot while there is one in that direction.
pub open spec fn key_step(selected: int, len: int, key: RackKey, shift: bool) -> (int, Option<int>) {
    match key {
        RackKey::Left => if selected > 0 {
            (selected - 1, if shift { Some(selected - 1) } else { None })
        } else {
            (selected, None)
        },
        RackKey::Right => if selected + 1 < len {
            (selected + 1, if shift { Some(selected) } else { None })
        } else {
            (selected, None)
        },
    }
}

/// Exchanges slots `lo` and `lo + 1`.
fn swap_adjacent<T>(chain: &mut Vec<T>, lo: usize)
    requires
        lo + 1 < old(chain)@.len(),
    ensures
        final(chain)@ == swapped(old(chain)@, lo as int),
{
    let n = chain.len();
    assert(lo + 1 < n);
    let upper = chain.remove(lo + 1);
    chain.insert(lo, upper);
    assert(chain@ =~= swapped(old(chain)@, lo as int));
}

/// Handles an arrow key: moves the selection one slot left or right and,
/// with Shift, carries the selected slot along. Returns whether the
/// selection moved (the view then scrolls to it).
pub fn rack_key_press<T>(chain: &mut Vec<T>, selected: &mut usize, key: RackKey, shift: bool) -> (moved: bool)
    requires
        shift && key == RackKey::Left && *old(selected) > 0 ==> *old(selected) < old(chain)@.len(),
    ensures
        *final(selected) == key_step(*old(selected) as int, old(chain)@.len() as int, key, shift).0,
        moved == (*final(selected) != *old(selected)),
        final(chain)@ == (match key_step(*old(selected) as int, old(chain)@.len() as int, key, shift).1 {
            Some(lo) => swapped(old(chain)@, lo),
            None => old(chain)@,
        }),
{
    let n = chain.len();
    match key {
        RackKey::Left => {
            if *selected > 0 {
                if shift {
                    swap_adjacent(chain, *selected - 1);
                }
                *selected = *selected - 1;
                true
            } else {
                false
            }
        },
        RackKey::Right => {
            if *selected < n && *selected + 1 < n {
                if shift {
                    swap_adjacent(chain, *selected);
                }
                *selected = *selected + 1;
                true
            } else {
                false
            }
        },
    }
}

/// The arrow buttons of slot `idx`: it trades places with its left or
/// right neighbour (if it has one there) and becomes the selected slot.
pub fn rack_move_slot<T>(chain: &mut Vec<T>, selected: &mut usize, idx: usize, left: bool)
    requires
        idx < old(chain)@.len(),
    ensures
        left && idx > 0 ==> final(chain)@ == swapped(old(chain)@, idx - 1) && *final(selected) == idx - 1,
        !left && idx + 1 < old(chain)@.len() ==> final(chain)@ == swapped(old(chain)@, idx as int)
            && *final(selected) == idx + 1,
        (left && idx == 0) || (!left && idx + 1 >= old(chain)@.len()) ==> final(chain)@ == old(chain)@
            && *final(selected) == *old(selected),
{
    let n = chain.len();
    if left {
        if idx > 0 {
            swap_adjacent(chain, idx - 1);
            *selected = idx - 1;
        }
    } else if idx + 1 < n {
        swap_adjacent(chain, idx);
        *selected = idx + 1;
    }
}

/// Appends a slot to the chain and selects it.
pub fn rack_add_slot<T>(chain: &mut Vec<T>, selected: &mut usize, slot: T)
    requires
        old(chain)@.len() < usize::MAX,
    ensures
        final(chain)@ == old(chain)@.push(slot),
        *final(selected) == old(chain)@.len(),
{
    chain.push(slot);
    *selected = chain.len() - 1;
}

/// Removes the last slot; a selection past the new end moves to the last
/// slot (it stays as it was when the chain becomes empty).
pub fn rack_remove_slot<T>(chain: &mut Vec<T>, selected: &mut usize)
    ensures
        final(chain)@ == (if old(chain)@.len() > 0 {
            old(chain)@.drop_last()
        } else {
            old(chain)@
        }),
        *final(selected) == (if *old(selected) >= final(chain)@.len() && final(chain)@.len() > 0 {
            (final(chain)@.len() - 1) as usize
        } else {
            *old(selected)
        }),
{
    let _ = chain.pop();
    if *selected >= chain.len() && chain.len() > 0 {
        *selected = chain.len() - 1;
    }
}

/// The rack's title: the track, and the scene of the selected matrix slot.
pub open spec fn rack_title_text(track_name: Seq<char>, matrix_slot: Option<(usize, usize)>) -> Seq<char> {
    match matrix_slot {
        Some((_, s)) => "DSP RACK: "@ + track_name + " | Scene "@ + decimal((s + 1) as nat),
        None => "DSP RACK: "@ + track_name,
    }
}

/// The rack's title (see [`rack_title_text`]).
pub fn rack_title(track_name: &str, matrix_slot: Option<(usize, usize)>) -> (s: String)
    requires
        matrix_slot matches Some((_, s)) ==> s < usize::MAX,
    ensures
        s@ == rack_title_text(track_name@, matrix_slot),
{
    let mut s = String::from_str("DSP RACK: ");
    s.append(track_name);
    if let Some((_, scene)) = matrix_slot {
        s.append(" | Scene ");
        push_decimal(&mut s, (scene + 1) as u64);
    }
    s
}

/// Moving the selected slot one place left with Shift+Left and back with
/// Shift+Right restores both the chain and the selection.
pub proof fn law_shift_left_then_right_restores<T>(chain: Seq<T>, selected: int)
    requires
        0 < selected < chain.len(),
    ensures
        ({
            let (s1, sw1) = key_step(selected, chain.len() as int, RackKey::Left, true);
            let c1 = swapped(chain, sw1->0);
            let (s2, sw2) = key_step(s1, c1.len() as int, RackKey::Right, true);
            &&& sw1 is Some && sw2 is Some
            &&& s2 == selected
            &&& swapped(c1, sw2->0) == chain
        }),
{
    let c1 = swapped(chain, selected - 1);
    assert(swapped(c1, selected - 1) =~= chain);
}

} // verus!

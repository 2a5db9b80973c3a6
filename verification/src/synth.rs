//! The input synthesizer's verified half: deciding what a replacement
//! sends — how many backspaces, which characters — and expanding resolved
//! key taps into the exact sequence of synthetic key-up/down events.

use vstd::prelude::*;
use crate::text::str_to_chars;

verus! {

/// Virtual-key code of the backspace key.
pub const VK_BACK: u16 = 8;

/// One key struck together with the modifier keys needed to produce it.
#[derive(Debug, Clone, PartialEq)]
pub struct KeyTap {
    pub modifiers: Vec<u16>,
    pub key: u16,
}

/// Mathematical model of a key tap.
pub ghost struct KeyTapV {
    pub modifiers: Seq<u16>,
    pub key: u16,
}

impl View for KeyTap {
    type V = KeyTapV;

    open spec fn view(&self) -> KeyTapV {
        KeyTapV { modifiers: self.modifiers@, key: self.key }
    }
}

/// One synthetic key transition.
#[derive(Debug, Clone, Copy, PartialEq, Eq, Structural)]
pub struct SyntheticEvent {
    pub vk: u16,
    pub down: bool,
}

/// The down-transitions of the modifiers, in press order.
pub open spec fn spec_modifier_downs(mods: Seq<u16>) -> Seq<SyntheticEvent> {
    Seq::new(mods.len(), |i: int| SyntheticEvent { vk: mods[i], down: true })
}

/// The up-transitions of the modifiers, in reverse press order.
pub open spec fn spec_modifier_ups_reversed(mods: Seq<u16>) -> Seq<SyntheticEvent> {
    Seq::new(mods.len(), |i: int| SyntheticEvent { vk: mods[mods.len() - 1 - i], down: false })
}

/// Everything one tap sends: modifiers down in order, the key down, the
/// key up, the modifiers up in reverse order.
pub open spec fn spec_tap_events(t: KeyTapV) -> Seq<SyntheticEvent> {
    spec_modifier_downs(t.modifiers)
        + seq![SyntheticEvent { vk: t.key, down: true }]
        + seq![SyntheticEvent { vk: t.key, down: false }]
        + spec_modifier_ups_reversed(t.modifiers)
}

/// Everything a sequence of taps sends, in order.
pub open spec fn spec_taps_events(ts: Seq<KeyTapV>) -> Seq<SyntheticEvent>
    decreases ts.len(),
{
    if ts.len() == 0 {
        Seq::<SyntheticEvent>::empty()
    } else {
        spec_tap_events(ts[0]) + spec_taps_events(ts.skip(1))
    }
}

proof fn lemma_taps_events_snoc(ts: Seq<KeyTapV>, t: KeyTapV)
    ensures
        spec_taps_events(ts.push(t)) == spec_taps_events(ts) + spec_tap_events(t),
    decreases ts.len(),
{
    if ts.len() == 0 {
        assert(ts.push(t)[0] == t);
        assert(ts.push(t).skip(1) =~= Seq::<KeyTapV>::empty());
        assert(spec_taps_events(Seq::<KeyTapV>::empty()) == Seq::<SyntheticEvent>::empty());
        assert(spec_taps_events(ts.push(t))
            == spec_tap_events(t) + spec_taps_events(ts.push(t).skip(1)));
        assert(spec_taps_events(ts) == Seq::<SyntheticEvent>::empty());
        assert(spec_taps_events(ts.push(t)) =~= spec_taps_events(ts) + spec_tap_events(t));
    } else {
        lemma_taps_events_snoc(ts.skip(1), t);
        assert(ts.push(t).skip(1) =~= ts.skip(1).push(t));
        assert(ts.push(t)[0] == ts[0]);
        assert(spec_taps_events(ts.push(t)) =~= spec_taps_events(ts) + spec_tap_events(t));
    }
}

/// The taps of a vector, as their models.
pub open spec fn taps_view(ts: Seq<KeyTap>) -> Seq<KeyTapV> {
    Seq::new(ts.len(), |i: int| ts[i]@)
}

/// What a replacement sends before the replacement text: one plain
/// backspace tap per character of the trigger.
pub fn backspace_taps(count: usize) -> (r: Vec<KeyTap>)
    ensures
        r@.len() == count,
        forall|i: int|
            0 <= i < count ==> (#[trigger] r@[i]).key == VK_BACK
                && r@[i].modifiers@ == Seq::<u16>::empty(),
{
    let mut out: Vec<KeyTap> = Vec::new();
    let mut i: usize = 0;
    while i < count
        invariant
            i <= count,
            out@.len() == i,
            forall|k: int|
                0 <= k < i ==> (#[trigger] out@[k]).key == VK_BACK
                    && out@[k].modifiers@ == Seq::<u16>::empty(),
        decreases count - i,
    {
        out.push(KeyTap { modifiers: Vec::new(), key: VK_BACK });
        i += 1;
    }
    out
}

/// Expand resolved key taps into the exact ordered sequence of synthetic
/// key transitions to send.
pub fn expand_taps(taps: &Vec<KeyTap>) -> (r: Vec<SyntheticEvent>)
    ensures
        r@ == spec_taps_events(taps_view(taps@)),
{
    let mut out: Vec<SyntheticEvent> = Vec::new();
    let n = taps.len();
    let mut i: usize = 0;
    proof {
        assert(taps_view(taps@.take(0)) =~= Seq::<KeyTapV>::empty());
    }
    while i < n
        invariant
            n == taps@.len(),
            i <= n,
            out@ == spec_taps_events(taps_view(taps@.take(i as int))),
        decreases n - i,
    {
        let ghost out0 = out@;
        let tap = &taps[i];
        let m = tap.modifiers.len();
        let mut k: usize = 0;
        proof {
            assert(out0 + spec_modifier_downs(tap.modifiers@).take(0) =~= out0);
        }
        while k < m
            invariant
                m == tap.modifiers@.len(),
                k <= m,
                out@ == out0 + spec_modifier_downs(tap.modifiers@).take(k as int),
            decreases m - k,
        {
            out.push(SyntheticEvent { vk: tap.modifiers[k], down: true });
            proof {
                assert(out0 + spec_modifier_downs(tap.modifiers@).take(k as int)
                    + seq![SyntheticEvent { vk: tap.modifiers@[k as int], down: true }]
                    =~= out0 + spec_modifier_downs(tap.modifiers@).take(k as int + 1));
            }
            k += 1;
        }
        proof {
            assert(spec_modifier_downs(tap.modifiers@).take(m as int)
                =~= spec_modifier_downs(tap.modifiers@));
        }
        out.push(SyntheticEvent { vk: tap.key, down: true });
        out.push(SyntheticEvent { vk: tap.key, down: false });
        let ghost out1 = out@;
        let mut q: usize = 0;
        proof {
            assert(out1 + spec_modifier_ups_reversed(tap.modifiers@).take(0) =~= out1);
        }
        while q < m
            invariant
                m == tap.modifiers@.len(),
                q <= m,
                out@ == out1 + spec_modifier_ups_reversed(tap.modifiers@).take(q as int),
            decreases m - q,
        {
            out.push(SyntheticEvent { vk: tap.modifiers[m - 1 - q], down: false });
            proof {
                assert(out1 + spec_modifier_ups_reversed(tap.modifiers@).take(q as int)
                    + seq![SyntheticEvent {
                        vk: tap.modifiers@[m - 1 - q as int],
                        down: false,
                    }]
                    =~= out1 + spec_modifier_ups_reversed(tap.modifiers@).take(q as int + 1));
            }
            q += 1;
        }
        proof {
            assert(spec_modifier_ups_reversed(tap.modifiers@).take(m as int)
                =~= spec_modifier_ups_reversed(tap.modifiers@));
            assert(out@ =~= out0 + spec_tap_events(taps@[i as int]@));
            lemma_taps_events_snoc(taps_view(taps@.take(i as int)), taps@[i as int]@);
            assert(taps_view(taps@.take(i as int)).push(taps@[i as int]@)
                =~= taps_view(taps@.take(i as int + 1)));
        }
        i += 1;
    }
    proof {
        assert(taps_view(taps@.take(n as int)) =~= taps_view(taps@));
    }
    out
}

/// The decision a replacement comes down to: delete this many characters,
/// then type these characters.
#[derive(Debug, Clone, PartialEq)]
pub struct ReplacePlan {
    pub backspaces: usize,
    pub chars: Vec<char>,
}

/// Decide what a replacement performs. With the killswitch held the whole
/// operation is skipped — no deletion and no typing, zero synthetic
/// events; otherwise the plan deletes exactly the trigger's characters and
/// types exactly the replacement text.
pub fn plan_replacement(killswitch: bool, delete_count: usize, text: &str) -> (r: Option<
    ReplacePlan,
>)
    ensures
        killswitch ==> r is None,
        !killswitch ==> match r {
            Some(plan) => plan.backspaces == delete_count && plan.chars@ == text@,
            None => false,
        },
{
    if killswitch {
        return None;
    }
    let chars = str_to_chars(text);
    Some(ReplacePlan { backspaces: delete_count, chars })
}

} // verus!

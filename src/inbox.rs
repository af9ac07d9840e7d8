use vstd::prelude::*;
use vstd::multiset::Multiset;

verus! {

/// Number of slots in the receive inbox.
pub const RX_SLOTS: usize = 4;

/// A frame that the firmware received: its length and the address of the
/// firmware-owned buffer that holds it. The buffer goes back to the firmware
/// once the frame has been consumed; the value is not `Clone`, so each frame
/// is handed back at most once.
#[derive(PartialEq, Eq, Structural, Debug)]
pub struct ReceivedFrame {
    pub len: usize,
    pub buffer: usize,
}

/// The frames held by one slot.
pub open spec fn slot_frames(o: Option<ReceivedFrame>) -> Multiset<ReceivedFrame> {
    match o {
        Some(f) => Multiset::singleton(f),
        None => Multiset::empty(),
    }
}

/// The frames held by a sequence of slots.
pub open spec fn held(s: Seq<Option<ReceivedFrame>>) -> Multiset<ReceivedFrame>
    decreases s.len(),
{
    if s.len() == 0 {
        Multiset::empty()
    } else {
        held(s.drop_last()).add(slot_frames(s.last()))
    }
}

/// `i` is the first empty slot of `s`.
pub open spec fn is_first_free(s: Seq<Option<ReceivedFrame>>, i: int) -> bool {
    0 <= i < s.len() && s[i] is None && forall|j: int| 0 <= j < i ==> s[j] is Some
}

/// `i` is the first occupied slot of `s`.
pub open spec fn is_first_taken(s: Seq<Option<ReceivedFrame>>, i: int) -> bool {
    0 <= i < s.len() && s[i] is Some && forall|j: int| 0 <= j < i ==> s[j] is None
}

/// Replacing one slot swaps that slot's frames for the new ones.
pub proof fn lemma_held_update(s: Seq<Option<ReceivedFrame>>, i: int, x: Option<ReceivedFrame>)
    requires
        0 <= i < s.len(),
    ensures
        held(s.update(i, x)).add(slot_frames(s[i])) =~= held(s).add(slot_frames(x)),
    decreases s.len(),
{
    broadcast use vstd::multiset::group_multiset_axioms;
    let u = s.update(i, x);
    let d = s.drop_last();
    assert(held(u) == held(u.drop_last()).add(slot_frames(u.last())));
    assert(held(s) == held(d).add(slot_frames(s.last())));
    if i == s.len() - 1 {
        assert(u.drop_last() =~= d);
        assert(u.last() == x);
        assert(s.last() == s[i]);
        assert(held(u).add(slot_frames(s[i])) =~= held(s).add(slot_frames(x)));
    } else {
        assert(d[i] == s[i]);
        assert(u.drop_last() =~= d.update(i, x));
        assert(u.last() == s.last());
        lemma_held_update(d, i, x);
        let du = d.update(i, x);
        assert(held(du).add(slot_frames(s[i])) =~= held(d).add(slot_frames(x)));
        assert(held(u) == held(du).add(slot_frames(s.last())));
        assert forall|v: ReceivedFrame|
            #[trigger] held(u).add(slot_frames(s[i])).count(v) == held(s).add(slot_frames(x)).count(v) by {
            assert(held(du).add(slot_frames(s[i])).count(v) == held(d).add(slot_frames(x)).count(v));
        }
    }
}

/// No sequence of slots holds more frames than it has slots.
pub proof fn lemma_held_bounded(s: Seq<Option<ReceivedFrame>>)
    ensures
        held(s).len() <= s.len(),
    decreases s.len(),
{
    if s.len() > 0 {
        lemma_held_bounded(s.drop_last());
    }
}

/// Slots that are all empty hold no frame.
pub proof fn lemma_held_empty(s: Seq<Option<ReceivedFrame>>)
    requires
        forall|j: int| 0 <= j < s.len() ==> s[j] is None,
    ensures
        held(s) =~= Multiset::<ReceivedFrame>::empty(),
    decreases s.len(),
{
    if s.len() > 0 {
        lemma_held_empty(s.drop_last());
    }
}

/// A bounded queue of received frames, filled from the firmware's notify
/// path and drained by the device's receive path.
pub struct FrameInbox {
    slots: Vec<Option<ReceivedFrame>>,
}

impl FrameInbox {
    pub closed spec fn view(&self) -> Seq<Option<ReceivedFrame>> {
        self.slots@
    }

    /// The frames waiting in the inbox.
    pub open spec fn frames(&self) -> Multiset<ReceivedFrame> {
        held(self@)
    }

    pub open spec fn wf(&self) -> bool {
        self@.len() == RX_SLOTS
    }

    /// An inbox with every slot empty.
    pub fn new() -> (b: FrameInbox)
        ensures
            b.wf(),
            forall|j: int| 0 <= j < b@.len() ==> b@[j] is None,
            b.frames() =~= Multiset::<ReceivedFrame>::empty(),
    {
        let mut slots: Vec<Option<ReceivedFrame>> = Vec::new();
        let mut i: usize = 0;
        while i < RX_SLOTS
            invariant
                i <= RX_SLOTS,
                slots@.len() == i,
                forall|j: int| 0 <= j < i ==> slots@[j] is None,
            decreases RX_SLOTS - i,
        {
            slots.push(None);
            i = i + 1;
        }
        let b = FrameInbox { slots };
        proof {
            lemma_held_empty(b@);
        }
        b
    }

    /// Whether some slot holds a frame.
    pub fn has_pending(&self) -> (r: bool)
        ensures
            r == exists|j: int| 0 <= j < self@.len() && self@[j] is Some,
    {
        let mut i: usize = 0;
        while i < self.slots.len()
            invariant
                i <= self@.len(),
                forall|j: int| 0 <= j < i ==> self@[j] is None,
            decreases self@.len() - i,
        {
            if self.slots[i].is_some() {
                return true;
            }
            i = i + 1;
        }
        false
    }

    /// Puts `frame` into the first empty slot and returns that slot's index.
    /// With every slot occupied the inbox is unchanged and the frame comes back.
    pub fn enqueue(&mut self, frame: ReceivedFrame) -> (r: Result<usize, ReceivedFrame>)
        requires
            old(self).wf(),
        ensures
            final(self).wf(),
            r is Ok <==> exists|j: int| 0 <= j < old(self)@.len() && old(self)@[j] is None,
            match r {
                Ok(i) => is_first_free(old(self)@, i as int)
                    && final(self)@ == old(self)@.update(i as int, Some(frame))
                    && final(self).frames() =~= old(self).frames().insert(frame),
                Err(f) => f == frame && final(self)@ == old(self)@,
            },
    {
        let mut i: usize = 0;
        while i < self.slots.len()
            invariant
                i <= self@.len(),
                self@ == old(self)@,
                self.wf(),
                forall|j: int| 0 <= j < i ==> self@[j] is Some,
            decreases self@.len() - i,
        {
            if self.slots[i].is_none() {
                proof {
                    lemma_held_update(self@, i as int, Some(frame));
                }
                self.slots.set(i, Some(frame));
                return Ok(i);
            }
            i = i + 1;
        }
        Err(frame)
    }

    /// Removes and returns the frame of the first occupied slot; `None` when
    /// every slot is empty.
    pub fn try_take_any(&mut self) -> (r: Option<ReceivedFrame>)
        requires
            old(self).wf(),
        ensures
            final(self).wf(),
            r is Some <==> exists|j: int| 0 <= j < old(self)@.len() && old(self)@[j] is Some,
            match r {
                Some(f) => exists|i: int| is_first_taken(old(self)@, i)
                    && old(self)@[i] == Some(f)
                    && final(self)@ == old(self)@.update(i, None),
                None => final(self)@ == old(self)@,
            },
            r matches Some(f) ==> old(self).frames().contains(f)
                && final(self).frames() =~= old(self).frames().remove(f),
    {
        let mut i: usize = 0;
        while i < self.slots.len()
            invariant
                i <= self@.len(),
                self@ == old(self)@,
                self.wf(),
                forall|j: int| 0 <= j < i ==> self@[j] is None,
            decreases self@.len() - i,
        {
            if self.slots[i].is_some() {
                proof {
                    lemma_held_update(self@, i as int, None);
                }
                let taken = self.slots.remove(i);
                self.slots.insert(i, None);
                assert(self@ =~= old(self)@.update(i as int, None));
                proof {
                    let f = old(self)@[i as int]->Some_0;
                    assert(held(self@).add(Multiset::singleton(f)) =~= held(old(self)@));
                    assert(held(old(self)@).count(f) > 0);
                    assert(held(self@) =~= held(old(self)@).remove(f));
                }
                return taken;
            }
            i = i + 1;
        }
        None
    }
}

/// An inbox never holds more frames than it has slots.
pub proof fn lemma_inbox_within_capacity(b: &FrameInbox)
    requires
        b.wf(),
    ensures
        b.frames().len() <= RX_SLOTS,
{
    lemma_held_bounded(b@);
}

} // verus!

//! The MIDI side of the Turing Machine: which messages a step sends.
//!
//! [`MidiRouting`] holds the channel, the controller routings and the note
//! now sounding. For each step it plans the messages to send, in order:
//! a Note Off for the sounding note, a Note On if the step opened its gate, then
//! the routed controller messages. Once the messages are out, the plan is
//! committed, which updates the sounding note as far as the sends went.

use vstd::prelude::*;

use crate::midi::{channel_wire, MidiWire};
use crate::turing::StepSignals;

verus! {

/// The messages of one step and how they move the sounding note.
#[derive(Debug, Clone)]
pub struct TickPlan {
    /// The messages to send, in order.
    pub messages: Vec<MidiWire>,
    /// How many messages must have gone out for the sounding note to
    /// change.
    pub commit_after: usize,
    /// The sounding note once `commit_after` messages have gone out.
    pub next_last_note: Option<u8>,
}

/// A one-message sequence when `m` is `Some`, else an empty one.
pub open spec fn optional_message(m: Option<MidiWire>) -> Seq<MidiWire> {
    match m {
        Some(w) => seq![w],
        None => Seq::empty(),
    }
}

/// The Note Off for the sounding note, if one sounds.
pub open spec fn note_off_for(channel: u8, last_note: Option<u8>) -> Option<MidiWire> {
    match last_note {
        Some(p) => Some(channel_wire(0x80, channel, p, 0, 3)),
        None => None,
    }
}

/// The Note On of a step: for an open gate and a note, with
/// the step's velocity (64 when there is none).
pub open spec fn note_on_for(channel: u8, s: StepSignals) -> Option<MidiWire> {
    if s.gate && s.note is Some {
        let v = match s.velocity {
            Some(v) => v,
            None => 64u8,
        };
        Some(channel_wire(0x90, channel, s.note->0, v, 3))
    } else {
        None
    }
}

/// A controller message on `cc` with `value`, when both are there.
pub open spec fn cc_for(channel: u8, cc: Option<u8>, value: Option<u8>) -> Option<MidiWire> {
    if cc is Some && value is Some {
        Some(channel_wire(0xB0, channel, cc->0, value->0, 3))
    } else {
        None
    }
}

/// The messages of a step, in the order they are sent.
pub open spec fn planned_messages(
    channel: u8,
    note_cc: Option<u8>,
    velocity_cc: Option<u8>,
    noise_cc: Option<u8>,
    last_note: Option<u8>,
    s: StepSignals,
) -> Seq<MidiWire> {
    optional_message(note_off_for(channel, last_note)) + optional_message(note_on_for(channel, s))
        + optional_message(cc_for(channel, noise_cc, Some(s.noise_cc))) + optional_message(
        cc_for(channel, note_cc, s.note),
    ) + optional_message(cc_for(channel, velocity_cc, s.velocity))
}

/// The sounding note once a step's messages are out: the new note when the
/// gate opens with a note, nothing when it stays shut, and the
/// same note otherwise.
pub open spec fn sounding_after(last_note: Option<u8>, s: StepSignals) -> Option<u8> {
    if s.gate {
        if s.note is Some {
            s.note
        } else {
            last_note
        }
    } else {
        None
    }
}

/// How many messages of the plan must go out before the sounding note
/// changes: the Note On when there is one, else the Note Off.
pub open spec fn commit_point(last_note: Option<u8>, s: StepSignals) -> int {
    let off = if last_note is Some { 1int } else { 0 };
    if s.gate && s.note is Some {
        off + 1
    } else if s.gate {
        0
    } else {
        off
    }
}

/// Routes a Turing Machine's outputs to MIDI messages on one channel.
#[derive(Debug)]
pub struct MidiRouting {
    channel: u8,
    note_cc: Option<u8>,
    velocity_cc: Option<u8>,
    noise_cc_num: Option<u8>,
    gate_note: u8,
    last_note: Option<u8>,
}

/// A controller number in the 7-bit range.
pub open spec fn cc_ok(cc: Option<u8>) -> bool {
    cc matches Some(c) ==> c <= 127
}

impl MidiRouting {
    #[verifier::type_invariant]
    spec fn inv(&self) -> bool {
        &&& self.channel <= 15
        &&& cc_ok(self.note_cc)
        &&& cc_ok(self.velocity_cc)
        &&& cc_ok(self.noise_cc_num)
    }

    /// The MIDI channel (0--15).
    pub closed spec fn spec_channel(&self) -> u8 {
        self.channel
    }

    /// The controller the note output goes to, if any.
    pub closed spec fn spec_note_cc(&self) -> Option<u8> {
        self.note_cc
    }

    /// The controller the velocity output goes to, if any.
    pub closed spec fn spec_velocity_cc(&self) -> Option<u8> {
        self.velocity_cc
    }

    /// The controller the noise output goes to, if any.
    pub closed spec fn spec_noise_cc(&self) -> Option<u8> {
        self.noise_cc_num
    }

    /// The note now sounding, if any.
    pub closed spec fn spec_last_note(&self) -> Option<u8> {
        self.last_note
    }

    /// Creates a routing on `channel` (clamped to 0--15) with no
    /// controller routings and no sounding note.
    pub fn new(channel: u8) -> (r: Self)
        ensures
            r.spec_channel() == if channel > 15 { 15 } else { channel },
            r.spec_note_cc() is None,
            r.spec_velocity_cc() is None,
            r.spec_noise_cc() is None,
            r.spec_last_note() is None,
    {
        MidiRouting {
            channel: if channel > 15 {
                15
            } else {
                channel
            },
            note_cc: None,
            velocity_cc: None,
            noise_cc_num: None,
            gate_note: 60,
            last_note: None,
        }
    }

    /// Plans the messages of a step: Note Off for the sounding note, Note
    /// On for an open gate, then the routed controllers (noise, note,
    /// velocity).
    pub fn plan_tick(&self, s: &StepSignals) -> (p: TickPlan)
        ensures
            p.messages@ == planned_messages(
                self.spec_channel(),
                self.spec_note_cc(),
                self.spec_velocity_cc(),
                self.spec_noise_cc(),
                self.spec_last_note(),
                *s,
            ),
            p.next_last_note == sounding_after(self.spec_last_note(), *s),
            p.commit_after == commit_point(self.spec_last_note(), *s),
    {
        proof {
            use_type_invariant(self);
        }
        let ch = self.channel;
        let mut messages: Vec<MidiWire> = Vec::new();
        let mut commit_after: usize = 0;
        if let Some(prev) = self.last_note {
            messages.push(MidiWire::note_off(ch, prev, 0));
            commit_after = 1;
        }
        assert(messages@ =~= optional_message(note_off_for(ch, self.last_note)));
        let ghost off = messages@;
        let mut next_last_note = self.last_note;
        if s.gate {
            if let Some(note) = s.note {
                let velocity = match s.velocity {
                    Some(v) => v,
                    None => 64,
                };
                messages.push(MidiWire::note_on(ch, note, velocity));
                commit_after = commit_after + 1;
                next_last_note = Some(note);
            } else {
                commit_after = 0;
            }
        } else {
            next_last_note = None;
        }
        assert(messages@ =~= off + optional_message(note_on_for(ch, *s)));
        let ghost on = messages@;
        if let Some(cc) = self.noise_cc_num {
            messages.push(MidiWire::cc(ch, cc, s.noise_cc));
        }
        assert(messages@ =~= on + optional_message(cc_for(ch, self.noise_cc_num, Some(s.noise_cc))));
        let ghost noise = messages@;
        if let Some(cc) = self.note_cc {
            if let Some(note) = s.note {
                messages.push(MidiWire::cc(ch, cc, note));
            }
        }
        assert(messages@ =~= noise + optional_message(cc_for(ch, self.note_cc, s.note)));
        let ghost notecc = messages@;
        if let Some(cc) = self.velocity_cc {
            if let Some(velocity) = s.velocity {
                messages.push(MidiWire::cc(ch, cc, velocity));
            }
        }
        assert(messages@ =~= notecc + optional_message(cc_for(ch, self.velocity_cc, s.velocity)));
        TickPlan { messages, commit_after, next_last_note }
    }

    /// Records how far a plan went out: the sounding note becomes the
    /// plan's once at least `commit_after` of its messages were sent.
    pub fn commit(&mut self, plan: &TickPlan, sent: usize)
        ensures
            final(self).spec_last_note() == if sent >= plan.commit_after {
                plan.next_last_note
            } else {
                old(self).spec_last_note()
            },
            final(self).spec_channel() == old(self).spec_channel(),
            final(self).spec_note_cc() == old(self).spec_note_cc(),
            final(self).spec_velocity_cc() == old(self).spec_velocity_cc(),
            final(self).spec_noise_cc() == old(self).spec_noise_cc(),
    {
        proof {
            use_type_invariant(&*self);
        }
        if sent >= plan.commit_after {
            self.last_note = plan.next_last_note;
        }
    }

    /// Forgets the sounding note and returns the Note Off for it, if one
    /// sounds.
    pub fn all_notes_off(&mut self) -> (m: Option<MidiWire>)
        ensures
            m == note_off_for(old(self).spec_channel(), old(self).spec_last_note()),
            final(self).spec_last_note() is None,
            final(self).spec_channel() == old(self).spec_channel(),
            final(self).spec_note_cc() == old(self).spec_note_cc(),
            final(self).spec_velocity_cc() == old(self).spec_velocity_cc(),
            final(self).spec_noise_cc() == old(self).spec_noise_cc(),
    {
        proof {
            use_type_invariant(&*self);
        }
        let prev = self.last_note;
        self.last_note = None;
        match prev {
            Some(note) => Some(MidiWire::note_off(self.channel, note, 0)),
            None => None,
        }
    }

    /// Sets the MIDI channel, clamped to 0--15.
    pub fn set_channel(&mut self, channel: u8)
        ensures
            final(self).spec_channel() == if channel > 15 { 15 } else { channel },
            final(self).spec_note_cc() == old(self).spec_note_cc(),
            final(self).spec_velocity_cc() == old(self).spec_velocity_cc(),
            final(self).spec_noise_cc() == old(self).spec_noise_cc(),
            final(self).spec_last_note() == old(self).spec_last_note(),
    {
        proof {
            use_type_invariant(&*self);
        }
        self.channel = if channel > 15 {
            15
        } else {
            channel
        };
    }

    /// Routes the noise output to controller `cc` (masked to 7 bits).
    pub fn route_noise_to_cc(&mut self, cc: u8)
        ensures
            final(self).spec_noise_cc() == Some(cc & 0x7F),
            final(self).spec_channel() == old(self).spec_channel(),
            final(self).spec_note_cc() == old(self).spec_note_cc(),
            final(self).spec_velocity_cc() == old(self).spec_velocity_cc(),
            final(self).spec_last_note() == old(self).spec_last_note(),
    {
        proof {
            use_type_invariant(&*self);
        }
        assert(cc & 0x7F <= 127) by (bit_vector);
        self.noise_cc_num = Some(cc & 0x7F);
    }

    /// Routes the note output to controller `cc` (masked to 7 bits).
    pub fn route_note_to_cc(&mut self, cc: u8)
        ensures
            final(self).spec_note_cc() == Some(cc & 0x7F),
            final(self).spec_channel() == old(self).spec_channel(),
            final(self).spec_velocity_cc() == old(self).spec_velocity_cc(),
            final(self).spec_noise_cc() == old(self).spec_noise_cc(),
            final(self).spec_last_note() == old(self).spec_last_note(),
    {
        proof {
            use_type_invariant(&*self);
        }
        assert(cc & 0x7F <= 127) by (bit_vector);
        self.note_cc = Some(cc & 0x7F);
    }

    /// Routes the velocity output to controller `cc` (masked to 7 bits).
    pub fn route_velocity_to_cc(&mut self, cc: u8)
        ensures
            final(self).spec_velocity_cc() == Some(cc & 0x7F),
            final(self).spec_channel() == old(self).spec_channel(),
            final(self).spec_note_cc() == old(self).spec_note_cc(),
            final(self).spec_noise_cc() == old(self).spec_noise_cc(),
            final(self).spec_last_note() == old(self).spec_last_note(),
    {
        proof {
            use_type_invariant(&*self);
        }
        assert(cc & 0x7F <= 127) by (bit_vector);
        self.velocity_cc = Some(cc & 0x7F);
    }
}

/// The routed controllers carry their own outputs: the velocity controller
/// sends the step's velocity (as the last message of the step), the note
/// controller the step's note, the noise controller the noise value; and
/// the Note On of an open gate carries the step's note and velocity. Each
/// goes out on the routing's channel.
pub proof fn law_messages_carry_their_outputs(
    channel: u8,
    note_cc: Option<u8>,
    velocity_cc: Option<u8>,
    noise_cc: Option<u8>,
    last_note: Option<u8>,
    s: StepSignals,
)
    ensures
        ({
            let ms = planned_messages(channel, note_cc, velocity_cc, noise_cc, last_note, s);
            &&& (velocity_cc is Some && s.velocity is Some) ==> {
                &&& ms.len() > 0
                &&& ms[ms.len() - 1].status == 0xB0 | channel
                &&& ms[ms.len() - 1].data1 == velocity_cc->0
                &&& ms[ms.len() - 1].data2 == s.velocity->0
            }
            &&& (note_cc is Some && s.note is Some) ==> exists|i: int|
                0 <= i < ms.len() && (#[trigger] ms[i]).status == 0xB0 | channel && ms[i].data1
                    == note_cc->0 && ms[i].data2 == s.note->0
            &&& noise_cc is Some ==> exists|i: int|
                0 <= i < ms.len() && (#[trigger] ms[i]).status == 0xB0 | channel && ms[i].data1
                    == noise_cc->0 && ms[i].data2 == s.noise_cc
            &&& (s.gate && s.note is Some && s.velocity is Some) ==> exists|i: int|
                0 <= i < ms.len() && (#[trigger] ms[i]).status == 0x90 | channel && ms[i].data1
                    == s.note->0 && ms[i].data2 == s.velocity->0
        }),
{
    let ms = planned_messages(channel, note_cc, velocity_cc, noise_cc, last_note, s);
    let a = optional_message(note_off_for(channel, last_note));
    let b = optional_message(note_on_for(channel, s));
    let c = optional_message(cc_for(channel, noise_cc, Some(s.noise_cc)));
    let d = optional_message(cc_for(channel, note_cc, s.note));
    let e = optional_message(cc_for(channel, velocity_cc, s.velocity));
    assert(ms == a + b + c + d + e);
    if velocity_cc is Some && s.velocity is Some {
        assert(e.len() == 1);
        assert(ms[ms.len() - 1] == e[0]);
    }
    if note_cc is Some && s.note is Some {
        let i: int = (a.len() + b.len() + c.len()) as int;
        assert(d.len() == 1);
        assert(ms[i] == d[0]);
    }
    if noise_cc is Some {
        let i: int = (a.len() + b.len()) as int;
        assert(c.len() == 1);
        assert(ms[i] == c[0]);
    }
    if s.gate && s.note is Some && s.velocity is Some {
        let i: int = a.len() as int;
        assert(b.len() == 1);
        assert(ms[i] == b[0]);
    }
}

/// Every Note On is answered: when a step's messages all go out and the
/// step turned note `n` on, the next step's first message is the Note Off
/// for `n` on the same channel.
pub proof fn law_note_on_is_turned_off_next(
    channel: u8,
    note_cc: Option<u8>,
    velocity_cc: Option<u8>,
    noise_cc: Option<u8>,
    last_note: Option<u8>,
    s1: StepSignals,
    s2: StepSignals,
)
    requires
        s1.gate,
        s1.note is Some,
    ensures
        planned_messages(channel, note_cc, velocity_cc, noise_cc, sounding_after(last_note, s1), s2)[0]
            == channel_wire(0x80, channel, s1.note->0, 0, 3),
{
    let next = sounding_after(last_note, s1);
    assert(next == s1.note);
    let ms = planned_messages(channel, note_cc, velocity_cc, noise_cc, next, s2);
    let a = optional_message(note_off_for(channel, next));
    let b = optional_message(note_on_for(channel, s2));
    let c = optional_message(cc_for(channel, noise_cc, Some(s2.noise_cc)));
    let d = optional_message(cc_for(channel, note_cc, s2.note));
    let e = optional_message(cc_for(channel, velocity_cc, s2.velocity));
    assert(a.len() == 1);
    assert(ms == a + b + c + d + e);
    assert((a + b + c + d + e)[0] == a[0]);
}

/// A step whose gate is clear leaves no note sounding once its messages are
/// out, and it starts by turning off the note that sounded before it.
pub proof fn law_gate_low_silences(
    channel: u8,
    note_cc: Option<u8>,
    velocity_cc: Option<u8>,
    noise_cc: Option<u8>,
    last_note: Option<u8>,
    s: StepSignals,
)
    requires
        !s.gate,
    ensures
        sounding_after(last_note, s) is None,
        last_note matches Some(n) ==> planned_messages(
            channel,
            note_cc,
            velocity_cc,
            noise_cc,
            last_note,
            s,
        )[0] == channel_wire(0x80, channel, n, 0, 3),
        note_on_for(channel, s) is None,
{
    if last_note is Some {
        let ms = planned_messages(channel, note_cc, velocity_cc, noise_cc, last_note, s);
        let a = optional_message(note_off_for(channel, last_note));
        let b = optional_message(note_on_for(channel, s));
        let c = optional_message(cc_for(channel, noise_cc, Some(s.noise_cc)));
        let d = optional_message(cc_for(channel, note_cc, s.note));
        let e = optional_message(cc_for(channel, velocity_cc, s.velocity));
        assert(a.len() == 1);
        assert(ms == a + b + c + d + e);
        assert((a + b + c + d + e)[0] == a[0]);
    }
}

} // verus!

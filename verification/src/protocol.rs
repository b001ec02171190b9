//! The text protocol spoken to timing clients: per poll, one time message,
//! followed by at most one event message.

use vstd::prelude::*;

use crate::snapshot::GameTime;
use crate::text::{spec_dec, spec_digit, push_decimal};
use crate::tracker::{Event, Update};

verus! {

/// The word an event is announced with: `start` opens a run, `reset`
/// abandons one, and every named milestone is a `split`.
pub open spec fn spec_event_word(e: Event) -> Seq<char> {
    match e {
        Event::NewGame => "start"@,
        Event::Reset => "reset"@,
        _ => "split"@,
    }
}

/// The time message: `setgametime <seconds>.<centiseconds>`, the
/// centiseconds always two digits.
pub open spec fn spec_time_message(t: GameTime) -> Seq<char> {
    "setgametime "@ + spec_dec(t.secs as int) + "."@ + seq![
        spec_digit((t.nanos / 10_000_000) as int / 10),
        spec_digit((t.nanos / 10_000_000) as int % 10),
    ]
}

/// The messages one update produces, in order: the time message always,
/// then the event's word when an event fired.
pub open spec fn spec_messages(u: Update) -> Seq<Seq<char>> {
    match u.event {
        None => seq![spec_time_message(u.time)],
        Some(e) => seq![spec_time_message(u.time), spec_event_word(e)],
    }
}

/// The whole message stream a sequence of updates produces: the messages
/// of each update, in update order. Every subscriber is driven from the
/// same ordered sequence of updates, so every subscriber's stream is this
/// one; the delivery concurrency itself lives outside the library.
pub open spec fn spec_stream(updates: Seq<Update>) -> Seq<Seq<char>>
    decreases updates.len(),
{
    if updates.len() == 0 {
        seq![]
    } else {
        spec_messages(updates[0]) + spec_stream(updates.drop_first())
    }
}

/// One more update extends every subscriber's stream by that update's
/// messages, in order: delivery never reorders across the fan-out.
pub proof fn lemma_stream_append(updates: Seq<Update>, u: Update)
    ensures
        spec_stream(updates.push(u)) == spec_stream(updates) + spec_messages(u),
    decreases updates.len(),
{
    if updates.len() == 0 {
        assert(updates.push(u)[0] == u);
        assert(updates.push(u).drop_first() =~= Seq::<Update>::empty());
        assert(spec_stream(updates.push(u)) =~= spec_messages(u) + spec_stream(
            Seq::<Update>::empty(),
        ));
        assert(spec_messages(u) + Seq::<Seq<char>>::empty() =~= spec_messages(u));
        assert(spec_stream(updates) + spec_messages(u) =~= spec_messages(u));
    } else {
        lemma_stream_append(updates.drop_first(), u);
        assert(updates.push(u).drop_first() =~= updates.drop_first().push(u));
        assert(updates.push(u)[0] == updates[0]);
        assert(spec_stream(updates.push(u)) =~= spec_messages(updates[0]) + spec_stream(
            updates.drop_first().push(u),
        ));
        assert(spec_messages(updates[0]) + (spec_stream(updates.drop_first()) + spec_messages(u))
            =~= (spec_messages(updates[0]) + spec_stream(updates.drop_first())) + spec_messages(
            u,
        ));
    }
}

/// The word announcing `event`.
pub fn event_message(event: Event) -> (r: &'static str)
    ensures
        r@ == spec_event_word(event),
{
    match event {
        Event::NewGame => "start",
        Event::Reset => "reset",
        _ => "split",
    }
}

/// Render the time message for `t`.
pub fn render_time(t: &GameTime) -> (r: String)
    requires
        t.wf(),
    ensures
        r@ == spec_time_message(*t),
{
    let mut out = String::from_str("setgametime ");
    push_decimal(&mut out, t.secs);
    out.append(".");
    let centis: u32 = t.nanos / 10_000_000;
    let mut rest = String::new();
    push_decimal(&mut rest, (centis / 10) as u64);
    push_decimal(&mut rest, (centis % 10) as u64);
    out.append(rest.as_str());
    proof {
        assert(spec_dec((centis / 10) as int) =~= seq![spec_digit((centis / 10) as int)]);
        assert(spec_dec((centis % 10) as int) =~= seq![spec_digit((centis % 10) as int)]);
        assert(out@ =~= spec_time_message(*t));
    }
    out
}

/// Render the messages for one update: the time message, and the event
/// word when an event fired. The caller sends them in this order.
pub fn render_update(u: &Update) -> (msgs: (String, Option<String>))
    requires
        u.time.wf(),
    ensures
        msgs.0@ == spec_time_message(u.time),
        msgs.1 is Some <==> u.event is Some,
        msgs.1 is Some ==> msgs.1.unwrap()@ == spec_event_word(u.event.unwrap()),
        spec_messages(*u) == if msgs.1 is Some {
            seq![msgs.0@, msgs.1.unwrap()@]
        } else {
            seq![msgs.0@]
        },
{
    let time_msg = render_time(&u.time);
    let event_msg: Option<String> = match u.event {
        Some(e) => Some(String::from_str(event_message(e))),
        None => None,
    };
    (time_msg, event_msg)
}

} // verus!

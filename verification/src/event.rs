//! Events the server broadcasts to clients, and their wire codec.

use vstd::prelude::*;
use crate::wire::{
    chars_of, encode_obj3, lemma_one_char_ne, lemma_sp_object_inverts, lookup, lookup_val,
    obj_enc, enc_pairs_view, pairs_view, parse_object, sp_object, string_of, text_is, DecodeError,
};

verus! {

/// Whether a membership change was a join or a leave.
#[derive(Debug, Clone, Copy, PartialEq, Eq, Structural)]
pub enum RoomParticipationStatus {
    Joined,
    Left,
}

/// A membership change in a room.
#[derive(Debug, Clone, PartialEq)]
pub struct RoomParticipationEvent {
    pub room: String,
    pub username: String,
    pub status: RoomParticipationStatus,
}

/// A chat line delivered to a room.
#[derive(Debug, Clone, PartialEq)]
pub struct UserMessageEvent {
    pub room: String,
    pub username: String,
    pub content: String,
}

/// A server-to-client notification: exactly one of the variants,
/// dispatched on the wire by its tag.
#[derive(Debug, Clone, PartialEq)]
pub enum Event {
    RoomParticipation(RoomParticipationEvent),
    UserMessage(UserMessageEvent),
}

/// An event as mathematics: each text field as its character sequence.
pub enum EventView {
    RoomParticipation {
        room: Seq<char>,
        username: Seq<char>,
        status: RoomParticipationStatus,
    },
    UserMessage { room: Seq<char>, username: Seq<char>, content: Seq<char> },
}

impl View for Event {
    type V = EventView;

    open spec fn view(&self) -> EventView {
        match self {
            Event::RoomParticipation(e) => EventView::RoomParticipation {
                room: e.room@,
                username: e.username@,
                status: e.status,
            },
            Event::UserMessage(e) => EventView::UserMessage {
                room: e.room@,
                username: e.username@,
                content: e.content@,
            },
        }
    }
}

/// The wire tag of each event variant.
pub open spec fn tag_room_participation() -> Seq<char> {
    "room_participation"@
}

pub open spec fn tag_user_message() -> Seq<char> {
    "user_message"@
}

/// The wire token of a membership status: lowercase, a plain string.
pub open spec fn status_text(st: RoomParticipationStatus) -> Seq<char> {
    match st {
        RoomParticipationStatus::Joined => "joined"@,
        RoomParticipationStatus::Left => "left"@,
    }
}

/// The encoded form of an event: the tag first, then the variant's fields
/// in declaration order, under their one-letter keys.
pub open spec fn spec_encode_event(m: EventView) -> Seq<char> {
    match m {
        EventView::RoomParticipation { room, username, status } => obj_enc(
            seq![
                ('t', tag_room_participation()),
                ('r', room),
                ('u', username),
                ('s', status_text(status)),
            ],
        ),
        EventView::UserMessage { room, username, content } => obj_enc(
            seq![('t', tag_user_message()), ('r', room), ('u', username), ('c', content)],
        ),
    }
}

/// Which event the members of a decoded object denote, given its tag.
pub open spec fn spec_dispatch_event(
    ps: Seq<(Seq<char>, Seq<char>)>,
    tag: Seq<char>,
) -> Result<EventView, DecodeError> {
    if tag == tag_room_participation() {
        match lookup(ps, seq!['r']) {
            None => Err(DecodeError::MissingField),
            Some(r) => match lookup(ps, seq!['u']) {
                None => Err(DecodeError::MissingField),
                Some(u) => match lookup(ps, seq!['s']) {
                    None => Err(DecodeError::MissingField),
                    Some(sv) => if sv == status_text(RoomParticipationStatus::Joined) {
                        Ok(
                            EventView::RoomParticipation {
                                room: r,
                                username: u,
                                status: RoomParticipationStatus::Joined,
                            },
                        )
                    } else if sv == status_text(RoomParticipationStatus::Left) {
                        Ok(
                            EventView::RoomParticipation {
                                room: r,
                                username: u,
                                status: RoomParticipationStatus::Left,
                            },
                        )
                    } else {
                        Err(DecodeError::TypeMismatch)
                    },
                },
            },
        }
    } else if tag == tag_user_message() {
        match lookup(ps, seq!['r']) {
            None => Err(DecodeError::MissingField),
            Some(r) => match lookup(ps, seq!['u']) {
                None => Err(DecodeError::MissingField),
                Some(u) => match lookup(ps, seq!['c']) {
                    None => Err(DecodeError::MissingField),
                    Some(c) => Ok(
                        EventView::UserMessage { room: r, username: u, content: c },
                    ),
                },
            },
        }
    } else {
        Err(DecodeError::UnknownTag)
    }
}

/// What decoding yields on any input: `TypeMismatch` when the text is not
/// an object of string fields or the status token names no status,
/// `MissingField` when the tag or a field the variant needs is absent,
/// `UnknownTag` when the tag names no variant, and otherwise the denoted
/// event. Key order does not matter.
pub open spec fn spec_decode_event(s: Seq<char>) -> Result<EventView, DecodeError> {
    match sp_object(s) {
        None => Err(DecodeError::TypeMismatch),
        Some(ps) => match lookup(ps, seq!['t']) {
            None => Err(DecodeError::MissingField),
            Some(tag) => spec_dispatch_event(ps, tag),
        },
    }
}

/// Whether an executable decode result carries the mathematical one.
pub open spec fn event_result_matches(
    r: Result<Event, DecodeError>,
    m: Result<EventView, DecodeError>,
) -> bool {
    match r {
        Ok(e) => m == Ok::<EventView, DecodeError>(e@),
        Err(e) => m == Err::<EventView, DecodeError>(e),
    }
}

impl Event {
    /// The wire text of this event. Encoding is total and deterministic:
    /// the tag first, then the variant's fields in declaration order.
    pub fn encode(&self) -> (r: String)
        ensures
            r@ == spec_encode_event(self@),
    {
        match self {
            Event::RoomParticipation(e) => {
                let status = match e.status {
                    RoomParticipationStatus::Joined => "joined",
                    RoomParticipationStatus::Left => "left",
                };
                encode_obj3(
                    "room_participation",
                    'r',
                    e.room.as_str(),
                    'u',
                    e.username.as_str(),
                    's',
                    status,
                )
            },
            Event::UserMessage(e) => encode_obj3(
                "user_message",
                'r',
                e.room.as_str(),
                'u',
                e.username.as_str(),
                'c',
                e.content.as_str(),
            ),
        }
    }

    /// Decodes wire text into an event, in any key order, or reports why
    /// it cannot.
    pub fn decode(s: &str) -> (r: Result<Event, DecodeError>)
        ensures
            event_result_matches(r, spec_decode_event(s@)),
    {
        let v = chars_of(s);
        match parse_object(&v) {
            None => Err(DecodeError::TypeMismatch),
            Some(ps) => {
                proof {
                    assert(pairs_view(ps@).skip(0) =~= pairs_view(ps@));
                }
                match lookup_val(&ps, 0, 't') {
                    None => Err(DecodeError::MissingField),
                    Some(ti) => {
                        if text_is(&ps[ti].1, "room_participation") {
                            match lookup_val(&ps, 0, 'r') {
                                None => Err(DecodeError::MissingField),
                                Some(ri) => match lookup_val(&ps, 0, 'u') {
                                    None => Err(DecodeError::MissingField),
                                    Some(ui) => match lookup_val(&ps, 0, 's') {
                                        None => Err(DecodeError::MissingField),
                                        Some(si) => {
                                            if text_is(&ps[si].1, "joined") {
                                                Ok(
                                                    Event::RoomParticipation(
                                                        RoomParticipationEvent {
                                                            room: string_of(&ps[ri].1),
                                                            username: string_of(&ps[ui].1),
                                                            status: RoomParticipationStatus::Joined,
                                                        },
                                                    ),
                                                )
                                            } else if text_is(&ps[si].1, "left") {
                                                Ok(
                                                    Event::RoomParticipation(
                                                        RoomParticipationEvent {
                                                            room: string_of(&ps[ri].1),
                                                            username: string_of(&ps[ui].1),
                                                            status: RoomParticipationStatus::Left,
                                                        },
                                                    ),
                                                )
                                            } else {
                                                Err(DecodeError::TypeMismatch)
                                            }
                                        },
                                    },
                                },
                            }
                        } else if text_is(&ps[ti].1, "user_message") {
                            match lookup_val(&ps, 0, 'r') {
                                None => Err(DecodeError::MissingField),
                                Some(ri) => match lookup_val(&ps, 0, 'u') {
                                    None => Err(DecodeError::MissingField),
                                    Some(ui) => match lookup_val(&ps, 0, 'c') {
                                        None => Err(DecodeError::MissingField),
                                        Some(ci) => Ok(
                                            Event::UserMessage(
                                                UserMessageEvent {
                                                    room: string_of(&ps[ri].1),
                                                    username: string_of(&ps[ui].1),
                                                    content: string_of(&ps[ci].1),
                                                },
                                            ),
                                        ),
                                    },
                                },
                            }
                        } else {
                            Err(DecodeError::UnknownTag)
                        }
                    },
                }
            },
        }
    }
}

/// Round trip: decoding what an event encodes to yields that event back,
/// whatever its fields hold.
pub proof fn lemma_event_round_trip(m: EventView)
    ensures
        spec_decode_event(spec_encode_event(m)) == Ok::<EventView, DecodeError>(m),
{
    reveal_strlit("room_participation");
    reveal_strlit("user_message");
    reveal_strlit("joined");
    reveal_strlit("left");
    assert(tag_room_participation().len() == 18);
    assert(tag_user_message().len() == 12);
    assert(status_text(RoomParticipationStatus::Joined).len() == 6);
    assert(status_text(RoomParticipationStatus::Left).len() == 4);
    lemma_one_char_ne('t', 'r');
    lemma_one_char_ne('t', 'u');
    lemma_one_char_ne('t', 's');
    lemma_one_char_ne('t', 'c');
    lemma_one_char_ne('r', 'u');
    lemma_one_char_ne('r', 's');
    lemma_one_char_ne('r', 'c');
    lemma_one_char_ne('u', 's');
    lemma_one_char_ne('u', 'c');
    match m {
        EventView::RoomParticipation { room, username, status } => {
            let ps = seq![
                ('t', tag_room_participation()),
                ('r', room),
                ('u', username),
                ('s', status_text(status)),
            ];
            assert(forall|i: int|
                0 <= i < ps.len() ==> (#[trigger] ps[i]).0 != '"' && ps[i].0 != '\\');
            lemma_sp_object_inverts(ps);
            let pv = enc_pairs_view(ps);
            assert(pv =~= seq![
                (seq!['t'], tag_room_participation()),
                (seq!['r'], room),
                (seq!['u'], username),
                (seq!['s'], status_text(status)),
            ]);
            let t1 = seq![(seq!['r'], room), (seq!['u'], username), (seq!['s'], status_text(status))];
            let t2 = seq![(seq!['u'], username), (seq!['s'], status_text(status))];
            let t3 = seq![(seq!['s'], status_text(status))];
            assert(pv.drop_first() =~= t1);
            assert(t1.drop_first() =~= t2);
            assert(t2.drop_first() =~= t3);
            assert(lookup(pv, seq!['t']) == Some(tag_room_participation()));
            assert(lookup(t1, seq!['r']) == Some(room));
            assert(lookup(pv, seq!['r']) == lookup(t1, seq!['r']));
            assert(lookup(t2, seq!['u']) == Some(username));
            assert(lookup(t1, seq!['u']) == lookup(t2, seq!['u']));
            assert(lookup(pv, seq!['u']) == lookup(t1, seq!['u']));
            assert(lookup(t3, seq!['s']) == Some(status_text(status)));
            assert(lookup(t2, seq!['s']) == lookup(t3, seq!['s']));
            assert(lookup(t1, seq!['s']) == lookup(t2, seq!['s']));
            assert(lookup(pv, seq!['s']) == lookup(t1, seq!['s']));
            if status == RoomParticipationStatus::Joined {
                assert(status_text(status) == status_text(RoomParticipationStatus::Joined));
            } else {
                assert(status_text(status) != status_text(RoomParticipationStatus::Joined));
            }
        },
        EventView::UserMessage { room, username, content } => {
            let ps = seq![
                ('t', tag_user_message()),
                ('r', room),
                ('u', username),
                ('c', content),
            ];
            assert(forall|i: int|
                0 <= i < ps.len() ==> (#[trigger] ps[i]).0 != '"' && ps[i].0 != '\\');
            lemma_sp_object_inverts(ps);
            let pv = enc_pairs_view(ps);
            assert(pv =~= seq![
                (seq!['t'], tag_user_message()),
                (seq!['r'], room),
                (seq!['u'], username),
                (seq!['c'], content),
            ]);
            let t1 = seq![(seq!['r'], room), (seq!['u'], username), (seq!['c'], content)];
            let t2 = seq![(seq!['u'], username), (seq!['c'], content)];
            let t3 = seq![(seq!['c'], content)];
            assert(pv.drop_first() =~= t1);
            assert(t1.drop_first() =~= t2);
            assert(t2.drop_first() =~= t3);
            assert(lookup(pv, seq!['t']) == Some(tag_user_message()));
            assert(lookup(t1, seq!['r']) == Some(room));
            assert(lookup(pv, seq!['r']) == lookup(t1, seq!['r']));
            assert(lookup(t2, seq!['u']) == Some(username));
            assert(lookup(t1, seq!['u']) == lookup(t2, seq!['u']));
            assert(lookup(pv, seq!['u']) == lookup(t1, seq!['u']));
            assert(lookup(t3, seq!['c']) == Some(content));
            assert(lookup(t2, seq!['c']) == lookup(t3, seq!['c']));
            assert(lookup(t1, seq!['c']) == lookup(t2, seq!['c']));
            assert(lookup(pv, seq!['c']) == lookup(t1, seq!['c']));
        },
    }
}

} // verus!

//! Commands a client sends to the server, and their wire codec.

use vstd::prelude::*;
use crate::wire::{
    chars_of, encode_obj0, encode_obj1, encode_obj2, lemma_one_char_ne, lemma_sp_object_inverts,
    lookup, lookup_val, obj_enc, enc_pairs_view, pairs_view, parse_object, sp_object, string_of,
    text_is, DecodeError,
};

verus! {

/// Identify the session.
#[derive(Debug, Clone, PartialEq)]
pub struct LoginCommand {
    pub username: String,
}

/// Subscribe to a room.
#[derive(Debug, Clone, PartialEq)]
pub struct JoinRoomCommand {
    pub room: String,
}

/// Unsubscribe from a room.
#[derive(Debug, Clone, PartialEq)]
pub struct LeaveRoomCommand {
    pub room: String,
}

/// Publish a chat line to a room.
#[derive(Debug, Clone, PartialEq)]
pub struct SendMessageCommand {
    pub room: String,
    pub content: String,
}

/// End the session.
#[derive(Debug, Clone, PartialEq)]
pub struct QuitCommand;

/// A client-to-server intent: exactly one of the variants, dispatched on
/// the wire by its tag.
#[derive(Debug, Clone, PartialEq)]
pub enum UserCommand {
    Login(LoginCommand),
    JoinRoom(JoinRoomCommand),
    LeaveRoom(LeaveRoomCommand),
    SendMessage(SendMessageCommand),
    Quit(QuitCommand),
}

/// A command as mathematics: each text field as its character sequence.
pub enum CommandView {
    Login { username: Seq<char> },
    JoinRoom { room: Seq<char> },
    LeaveRoom { room: Seq<char> },
    SendMessage { room: Seq<char>, content: Seq<char> },
    Quit,
}

impl View for UserCommand {
    type V = CommandView;

    open spec fn view(&self) -> CommandView {
        match self {
            UserCommand::Login(c) => CommandView::Login { username: c.username@ },
            UserCommand::JoinRoom(c) => CommandView::JoinRoom { room: c.room@ },
            UserCommand::LeaveRoom(c) => CommandView::LeaveRoom { room: c.room@ },
            UserCommand::SendMessage(c) => CommandView::SendMessage {
                room: c.room@,
                content: c.content@,
            },
            UserCommand::Quit(_) => CommandView::Quit,
        }
    }
}

/// The wire tag of each command variant.
pub open spec fn tag_login() -> Seq<char> {
    "login"@
}

pub open spec fn tag_join_room() -> Seq<char> {
    "join_room"@
}

pub open spec fn tag_leave_room() -> Seq<char> {
    "leave_room"@
}

pub open spec fn tag_send_message() -> Seq<char> {
    "send_message"@
}

pub open spec fn tag_quit() -> Seq<char> {
    "quit"@
}

/// The encoded form of a command: the tag first, then the variant's fields
/// in declaration order, under their one-letter keys.
pub open spec fn spec_encode_command(m: CommandView) -> Seq<char> {
    match m {
        CommandView::Login { username } => obj_enc(seq![('t', tag_login()), ('u', username)]),
        CommandView::JoinRoom { room } => obj_enc(seq![('t', tag_join_room()), ('r', room)]),
        CommandView::LeaveRoom { room } => obj_enc(seq![('t', tag_leave_room()), ('r', room)]),
        CommandView::SendMessage { room, content } => obj_enc(
            seq![('t', tag_send_message()), ('r', room), ('c', content)],
        ),
        CommandView::Quit => obj_enc(seq![('t', tag_quit())]),
    }
}

/// Which command the members of a decoded object denote, given its tag.
pub open spec fn spec_dispatch_command(
    ps: Seq<(Seq<char>, Seq<char>)>,
    tag: Seq<char>,
) -> Result<CommandView, DecodeError> {
    if tag == tag_login() {
        match lookup(ps, seq!['u']) {
            None => Err(DecodeError::MissingField),
            Some(u) => Ok(CommandView::Login { username: u }),
        }
    } else if tag == tag_join_room() {
        match lookup(ps, seq!['r']) {
            None => Err(DecodeError::MissingField),
            Some(r) => Ok(CommandView::JoinRoom { room: r }),
        }
    } else if tag == tag_leave_room() {
        match lookup(ps, seq!['r']) {
            None => Err(DecodeError::MissingField),
            Some(r) => Ok(CommandView::LeaveRoom { room: r }),
        }
    } else if tag == tag_send_message() {
        match lookup(ps, seq!['r']) {
            None => Err(DecodeError::MissingField),
            Some(r) => match lookup(ps, seq!['c']) {
                None => Err(DecodeError::MissingField),
                Some(c) => Ok(CommandView::SendMessage { room: r, content: c }),
            },
        }
    } else if tag == tag_quit() {
        Ok(CommandView::Quit)
    } else {
        Err(DecodeError::UnknownTag)
    }
}

/// What decoding yields on any input: `TypeMismatch` when the text is not
/// an object of string fields, `MissingField` when the tag or a field the
/// variant needs is absent, `UnknownTag` when the tag names no variant,
/// and otherwise the denoted command. Key order does not matter.
pub open spec fn spec_decode_command(s: Seq<char>) -> Result<CommandView, DecodeError> {
    match sp_object(s) {
        None => Err(DecodeError::TypeMismatch),
        Some(ps) => match lookup(ps, seq!['t']) {
            None => Err(DecodeError::MissingField),
            Some(tag) => spec_dispatch_command(ps, tag),
        },
    }
}

/// Whether an executable decode result carries the mathematical one.
pub open spec fn command_result_matches(
    r: Result<UserCommand, DecodeError>,
    m: Result<CommandView, DecodeError>,
) -> bool {
    match r {
        Ok(c) => m == Ok::<CommandView, DecodeError>(c@),
        Err(e) => m == Err::<CommandView, DecodeError>(e),
    }
}

impl UserCommand {
    /// The wire text of this command. Encoding is total and deterministic:
    /// the tag first, then the variant's fields in declaration order.
    pub fn encode(&self) -> (r: String)
        ensures
            r@ == spec_encode_command(self@),
    {
        match self {
            UserCommand::Login(c) => encode_obj1("login", 'u', c.username.as_str()),
            UserCommand::JoinRoom(c) => encode_obj1("join_room", 'r', c.room.as_str()),
            UserCommand::LeaveRoom(c) => encode_obj1("leave_room", 'r', c.room.as_str()),
            UserCommand::SendMessage(c) => encode_obj2(
                "send_message",
                'r',
                c.room.as_str(),
                'c',
                c.content.as_str(),
            ),
            UserCommand::Quit(_) => encode_obj0("quit"),
        }
    }

    /// Decodes wire text into a command, in any key order, or reports why
    /// it cannot.
    pub fn decode(s: &str) -> (r: Result<UserCommand, DecodeError>)
        ensures
            command_result_matches(r, spec_decode_command(s@)),
    {
        let v = chars_of(s);
        match parse_object(&v) {
            None => Err(DecodeError::TypeMismatch),
            Some(ps) => {
                proof {
                    assert(pairs_view(ps@).skip(0) =~= pairs_view(ps@));
                }
                match lookup_val(&ps, 0, 't') {
                    None => Err(DecodeError::MissingField),
                    Some(ti) => {
                        if text_is(&ps[ti].1, "login") {
                            match lookup_val(&ps, 0, 'u') {
                                None => Err(DecodeError::MissingField),
                                Some(ui) => Ok(
                                    UserCommand::Login(
                                        LoginCommand { username: string_of(&ps[ui].1) },
                                    ),
                                ),
                            }
                        } else if text_is(&ps[ti].1, "join_room") {
                            match lookup_val(&ps, 0, 'r') {
                                None => Err(DecodeError::MissingField),
                                Some(ri) => Ok(
                                    UserCommand::JoinRoom(
                                        JoinRoomCommand { room: string_of(&ps[ri].1) },
                                    ),
                                ),
                            }
                        } else if text_is(&ps[ti].1, "leave_room") {
                            match lookup_val(&ps, 0, 'r') {
                                None => Err(DecodeError::MissingField),
                                Some(ri) => Ok(
                                    UserCommand::LeaveRoom(
                                        LeaveRoomCommand { room: string_of(&ps[ri].1) },
                                    ),
                                ),
                            }
                        } else if text_is(&ps[ti].1, "send_message") {
                            match lookup_val(&ps, 0, 'r') {
                                None => Err(DecodeError::MissingField),
                                Some(ri) => match lookup_val(&ps, 0, 'c') {
                                    None => Err(DecodeError::MissingField),
                                    Some(ci) => Ok(
                                        UserCommand::SendMessage(
                                            SendMessageCommand {
                                                room: string_of(&ps[ri].1),
                                                content: string_of(&ps[ci].1),
                                            },
                                        ),
                                    ),
                                },
                            }
                        } else if text_is(&ps[ti].1, "quit") {
                            Ok(UserCommand::Quit(QuitCommand))
                        } else {
                            Err(DecodeError::UnknownTag)
                        }
                    },
                }
            },
        }
    }
}

/// Round trip: decoding what a command encodes to yields that command back,
/// whatever its fields hold.
pub proof fn lemma_command_round_trip(m: CommandView)
    ensures
        spec_decode_command(spec_encode_command(m)) == Ok::<CommandView, DecodeError>(m),
{
    reveal_strlit("login");
    reveal_strlit("join_room");
    reveal_strlit("leave_room");
    reveal_strlit("send_message");
    reveal_strlit("quit");
    assert(tag_login().len() == 5);
    assert(tag_join_room().len() == 9);
    assert(tag_leave_room().len() == 10);
    assert(tag_send_message().len() == 12);
    assert(tag_quit().len() == 4);
    lemma_one_char_ne('t', 'u');
    lemma_one_char_ne('t', 'r');
    lemma_one_char_ne('t', 'c');
    lemma_one_char_ne('r', 'c');
    match m {
        CommandView::Login { username } => {
            let ps = seq![('t', tag_login()), ('u', username)];
            assert(forall|i: int|
                0 <= i < ps.len() ==> (#[trigger] ps[i]).0 != '"' && ps[i].0 != '\\');
            lemma_sp_object_inverts(ps);
            let pv = enc_pairs_view(ps);
            assert(pv =~= seq![(seq!['t'], tag_login()), (seq!['u'], username)]);
            assert(lookup(pv, seq!['t']) == Some(tag_login()));
            let t1 = seq![(seq!['u'], username)];
            assert(pv.drop_first() =~= t1);
            assert(lookup(t1, seq!['u']) == Some(username));
            assert(lookup(pv, seq!['u']) == lookup(t1, seq!['u']));
        },
        CommandView::JoinRoom { room } => {
            let ps = seq![('t', tag_join_room()), ('r', room)];
            assert(forall|i: int|
                0 <= i < ps.len() ==> (#[trigger] ps[i]).0 != '"' && ps[i].0 != '\\');
            lemma_sp_object_inverts(ps);
            let pv = enc_pairs_view(ps);
            assert(pv =~= seq![(seq!['t'], tag_join_room()), (seq!['r'], room)]);
            assert(lookup(pv, seq!['t']) == Some(tag_join_room()));
            let t1 = seq![(seq!['r'], room)];
            assert(pv.drop_first() =~= t1);
            assert(lookup(t1, seq!['r']) == Some(room));
            assert(lookup(pv, seq!['r']) == lookup(t1, seq!['r']));
        },
        CommandView::LeaveRoom { room } => {
            let ps = seq![('t', tag_leave_room()), ('r', room)];
            assert(forall|i: int|
                0 <= i < ps.len() ==> (#[trigger] ps[i]).0 != '"' && ps[i].0 != '\\');
            lemma_sp_object_inverts(ps);
            let pv = enc_pairs_view(ps);
            assert(pv =~= seq![(seq!['t'], tag_leave_room()), (seq!['r'], room)]);
            assert(lookup(pv, seq!['t']) == Some(tag_leave_room()));
            let t1 = seq![(seq!['r'], room)];
            assert(pv.drop_first() =~= t1);
            assert(lookup(t1, seq!['r']) == Some(room));
            assert(lookup(pv, seq!['r']) == lookup(t1, seq!['r']));
        },
        CommandView::SendMessage { room, content } => {
            let ps = seq![('t', tag_send_message()), ('r', room), ('c', content)];
            assert(forall|i: int|
                0 <= i < ps.len() ==> (#[trigger] ps[i]).0 != '"' && ps[i].0 != '\\');
            lemma_sp_object_inverts(ps);
            let pv = enc_pairs_view(ps);
            assert(pv =~= seq![
                (seq!['t'], tag_send_message()),
                (seq!['r'], room),
                (seq!['c'], content),
            ]);
            assert(lookup(pv, seq!['t']) == Some(tag_send_message()));
            let t1 = seq![(seq!['r'], room), (seq!['c'], content)];
            let t2 = seq![(seq!['c'], content)];
            assert(pv.drop_first() =~= t1);
            assert(t1.drop_first() =~= t2);
            assert(lookup(t1, seq!['r']) == Some(room));
            assert(lookup(pv, seq!['r']) == lookup(t1, seq!['r']));
            assert(lookup(t2, seq!['c']) == Some(content));
            assert(lookup(t1, seq!['c']) == lookup(t2, seq!['c']));
            assert(lookup(pv, seq!['c']) == lookup(t1, seq!['c']));
        },
        CommandView::Quit => {
            let ps = seq![('t', tag_quit())];
            assert(forall|i: int|
                0 <= i < ps.len() ==> (#[trigger] ps[i]).0 != '"' && ps[i].0 != '\\');
            lemma_sp_object_inverts(ps);
            let pv = enc_pairs_view(ps);
            assert(pv =~= seq![(seq!['t'], tag_quit())]);
            assert(lookup(pv, seq!['t']) == Some(tag_quit()));
        },
    }
}

} // verus!

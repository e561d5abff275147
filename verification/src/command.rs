//! The command registry: maps a verb or 3-digit code token plus a raw
//! parameter list to a typed payload variant, and back. Decoding consumes
//! required slots left to right; a shortfall or an unrecognised token
//! degrades to the catch-all variant with the token and the untouched
//! parameter list preserved.

use vstd::prelude::*;
use crate::text::str_eq_value;
use crate::types::Command;

verus! {

/// The registry table. For a registered verb or code: the number of required
/// parameter slots, the number of optional slots that follow them, and
/// whether the final field absorbs the entire remaining parameter tail.
pub open spec fn registry_shape(verb: Seq<char>) -> Option<(int, int, bool)> {
    if verb == "CAP"@ {
        Some((1, 1, false))
    } else if verb == "PASS"@ {
        Some((1, 0, false))
    } else if verb == "NICK"@ {
        Some((1, 0, false))
    } else if verb == "USER"@ {
        Some((4, 0, false))
    } else if verb == "PING"@ {
        Some((1, 0, false))
    } else if verb == "PONG"@ {
        Some((1, 1, false))
    } else if verb == "OPER"@ {
        Some((2, 0, false))
    } else if verb == "QUIT"@ {
        Some((0, 1, false))
    } else if verb == "ERROR"@ {
        Some((1, 0, false))
    } else if verb == "JOIN"@ {
        Some((1, 1, false))
    } else if verb == "PRIVMSG"@ {
        Some((2, 0, false))
    } else if verb == "WHO"@ {
        Some((1, 0, false))
    } else if verb == "315"@ {
        Some((2, 0, false))
    } else if verb == "352"@ {
        Some((9, 0, false))
    } else if verb == "353"@ {
        Some((3, 0, true))
    } else if verb == "366"@ {
        Some((2, 0, false))
    } else if verb == "372"@ {
        Some((2, 0, false))
    } else if verb == "375"@ {
        Some((2, 0, false))
    } else if verb == "376"@ {
        Some((1, 0, false))
    } else if verb == "412"@ {
        Some((1, 0, false))
    } else if verb == "431"@ {
        Some((1, 0, false))
    } else if verb == "432"@ {
        Some((2, 0, false))
    } else if verb == "433"@ {
        Some((2, 0, false))
    } else if verb == "436"@ {
        Some((4, 0, false))
    } else if verb == "461"@ {
        Some((2, 0, false))
    } else if verb == "462"@ {
        Some((1, 0, false))
    } else if verb == "464"@ {
        Some((1, 0, false))
    } else {
        None
    }
}

/// The wire token a payload is written with: the verb for command variants,
/// the 3-digit code for numeric variants, and the stored raw token for the
/// catch-all.
pub open spec fn wire_verb(c: Command) -> Seq<char> {
    match c {
        Command::CAP { .. } => "CAP"@,
        Command::PASS { .. } => "PASS"@,
        Command::NICK { .. } => "NICK"@,
        Command::USER { .. } => "USER"@,
        Command::PING { .. } => "PING"@,
        Command::PONG { .. } => "PONG"@,
        Command::OPER { .. } => "OPER"@,
        Command::QUIT { .. } => "QUIT"@,
        Command::ERROR { .. } => "ERROR"@,
        Command::JOIN { .. } => "JOIN"@,
        Command::PRIVMSG { .. } => "PRIVMSG"@,
        Command::WHO { .. } => "WHO"@,
        Command::RPL_ENDOFWHO { .. } => "315"@,
        Command::RPL_WHOREPLY { .. } => "352"@,
        Command::RPL_NAMREPLY { .. } => "353"@,
        Command::RPL_ENDOFNAMES { .. } => "366"@,
        Command::RPL_MOTD { .. } => "372"@,
        Command::RPL_MOTDSTART { .. } => "375"@,
        Command::RPL_ENDOFMOTD { .. } => "376"@,
        Command::ERR_NOTEXTTOSEND { .. } => "412"@,
        Command::ERR_NONICKNAMEGIVEN { .. } => "431"@,
        Command::ERR_ERRONEUSNICKNAME { .. } => "432"@,
        Command::ERR_NICKNAMEINUSE { .. } => "433"@,
        Command::ERR_NICKCOLLISION { .. } => "436"@,
        Command::ERR_NEEDMOREPARAMS { .. } => "461"@,
        Command::ERR_ALREADYREGISTERED { .. } => "462"@,
        Command::ERR_PASSWDMISMATCH { .. } => "464"@,
        Command::UNKNOWN { command, .. } => command@,
    }
}

/// The parameter list a payload is written with: required fields in their
/// declared order, an optional field only when present, and a tail field
/// flattened at the end. The catch-all yields its stored list unchanged.
pub open spec fn wire_params(c: Command) -> Seq<Seq<char>> {
    match c {
        Command::CAP { subcommand, capabilities } => match capabilities {
            Some(x) => seq![subcommand@, x@],
            None => seq![subcommand@],
        },
        Command::PASS { password } => seq![password@],
        Command::NICK { nickname } => seq![nickname@],
        Command::USER { user, mode, unused, realname } => seq![user@, mode@, unused@, realname@],
        Command::PING { token } => seq![token@],
        Command::PONG { token, server } => match server {
            Some(x) => seq![token@, x@],
            None => seq![token@],
        },
        Command::OPER { name, password } => seq![name@, password@],
        Command::QUIT { reason } => match reason {
            Some(x) => seq![x@],
            None => Seq::empty(),
        },
        Command::ERROR { reason } => seq![reason@],
        Command::JOIN { channels, keys } => match keys {
            Some(x) => seq![channels@, x@],
            None => seq![channels@],
        },
        Command::PRIVMSG { targets, text } => seq![targets@, text@],
        Command::WHO { mask } => seq![mask@],
        Command::RPL_ENDOFWHO { client, mask } => seq![client@, mask@],
        Command::RPL_WHOREPLY {
            client,
            channel,
            username,
            host,
            server,
            nick,
            flags,
            hopcount,
            realname,
        } => seq![
            client@,
            channel@,
            username@,
            host@,
            server@,
            nick@,
            flags@,
            hopcount@,
            realname@,
        ],
        Command::RPL_NAMREPLY { client, symbol, channel, members } => seq![
            client@,
            symbol@,
            channel@,
        ] + members.deep_view(),
        Command::RPL_ENDOFNAMES { client, channel } => seq![client@, channel@],
        Command::RPL_MOTD { client, line } => seq![client@, line@],
        Command::RPL_MOTDSTART { client, line } => seq![client@, line@],
        Command::RPL_ENDOFMOTD { client } => seq![client@],
        Command::ERR_NOTEXTTOSEND { client } => seq![client@],
        Command::ERR_NONICKNAMEGIVEN { client } => seq![client@],
        Command::ERR_ERRONEUSNICKNAME { client, nick } => seq![client@, nick@],
        Command::ERR_NICKNAMEINUSE { client, nick } => seq![client@, nick@],
        Command::ERR_NICKCOLLISION { client, nick, user, host } => seq![
            client@,
            nick@,
            user@,
            host@,
        ],
        Command::ERR_NEEDMOREPARAMS { client, command } => seq![client@, command@],
        Command::ERR_ALREADYREGISTERED { client } => seq![client@],
        Command::ERR_PASSWDMISMATCH { client } => seq![client@],
        Command::UNKNOWN { command, params } => params.deep_view(),
    }
}

/// The numeric reply code of a payload; 0 for command variants and for the
/// catch-all.
pub open spec fn numeric_code(c: Command) -> u16 {
    match c {
        Command::RPL_ENDOFWHO { .. } => 315,
        Command::RPL_WHOREPLY { .. } => 352,
        Command::RPL_NAMREPLY { .. } => 353,
        Command::RPL_ENDOFNAMES { .. } => 366,
        Command::RPL_MOTD { .. } => 372,
        Command::RPL_MOTDSTART { .. } => 375,
        Command::RPL_ENDOFMOTD { .. } => 376,
        Command::ERR_NOTEXTTOSEND { .. } => 412,
        Command::ERR_NONICKNAMEGIVEN { .. } => 431,
        Command::ERR_ERRONEUSNICKNAME { .. } => 432,
        Command::ERR_NICKNAMEINUSE { .. } => 433,
        Command::ERR_NICKCOLLISION { .. } => 436,
        Command::ERR_NEEDMOREPARAMS { .. } => 461,
        Command::ERR_ALREADYREGISTERED { .. } => 462,
        Command::ERR_PASSWDMISMATCH { .. } => 464,
        _ => 0,
    }
}

/// The catch-all outcome: the raw token and the untouched parameter list are
/// preserved.
pub open spec fn is_unknown_preserving(verb: Seq<char>, params: Seq<Seq<char>>, c: Command) -> bool {
    c matches Command::UNKNOWN { command: t, params: ps } && t@ == verb && ps.deep_view() == params
}

/// The parameters a registered variant can hold: everything when the variant
/// has a tail field, and at most required-plus-optional slots otherwise.
pub open spec fn clip_params(verb: Seq<char>, params: Seq<Seq<char>>) -> Seq<Seq<char>> {
    let shape = registry_shape(verb).unwrap();
    if shape.2 {
        params
    } else if params.len() <= shape.0 + shape.1 {
        params
    } else {
        params.take(shape.0 + shape.1)
    }
}

/// What decoding a token and parameter list yields. A registered token with
/// enough parameters yields its variant, whose wire form carries the
/// parameters the variant can hold; a registered token with too few
/// parameters, or an unrecognised token, yields the catch-all with the token
/// and the whole parameter list preserved.
pub open spec fn decodes_to(verb: Seq<char>, params: Seq<Seq<char>>, c: Command) -> bool {
    match registry_shape(verb) {
        Some(shape) => {
            if params.len() < shape.0 {
                is_unknown_preserving(verb, params, c)
            } else {
                &&& !(c is UNKNOWN)
                &&& wire_verb(c) == verb
                &&& wire_params(c) == clip_params(verb, params)
            }
        },
        None => is_unknown_preserving(verb, params, c),
    }
}

/// Registry inverse: decoding a registered token with at least its required
/// and at most its admissible number of parameters, then re-encoding the
/// variant, returns the very token and parameter list.
pub proof fn lemma_registry_inverse(verb: Seq<char>, params: Seq<Seq<char>>, c: Command)
    requires
        decodes_to(verb, params, c),
        registry_shape(verb) is Some,
        params.len() >= registry_shape(verb).unwrap().0,
        registry_shape(verb).unwrap().2 || params.len() <= registry_shape(verb).unwrap().0
            + registry_shape(verb).unwrap().1,
    ensures
        !(c is UNKNOWN),
        wire_verb(c) == verb,
        wire_params(c) == params,
{
}

/// Arity shortfall: decoding a registered token with fewer parameters than
/// it requires yields the catch-all carrying the token and the given
/// parameters, never a partially filled variant.
pub proof fn lemma_arity_shortfall(verb: Seq<char>, params: Seq<Seq<char>>, c: Command)
    requires
        decodes_to(verb, params, c),
        registry_shape(verb) is Some,
        params.len() < registry_shape(verb).unwrap().0,
    ensures
        c is UNKNOWN,
        wire_verb(c) == verb,
        wire_params(c) == params,
{
}

/// A one-element parameter vector.
pub(crate) fn vec1(a: String) -> (r: Vec<String>)
    ensures
        r.deep_view() == seq![a@],
{
    let mut r: Vec<String> = Vec::new();
    r.push(a);
    proof {
        assert(r.deep_view() =~= seq![r@[0]@]);
    }
    r
}

/// A two-element parameter vector.
pub(crate) fn vec2(a: String, b: String) -> (r: Vec<String>)
    ensures
        r.deep_view() == seq![a@, b@],
{
    let mut r: Vec<String> = Vec::new();
    r.push(a);
    r.push(b);
    proof {
        assert(r.deep_view() =~= seq![r@[0]@, r@[1]@]);
    }
    r
}

/// A four-element parameter vector.
pub(crate) fn vec4(a: String, b: String, c: String, d: String) -> (r: Vec<String>)
    ensures
        r.deep_view() == seq![a@, b@, c@, d@],
{
    let mut r: Vec<String> = Vec::new();
    r.push(a);
    r.push(b);
    r.push(c);
    r.push(d);
    proof {
        assert(r.deep_view() =~= seq![r@[0]@, r@[1]@, r@[2]@, r@[3]@]);
    }
    r
}

impl Command {
    /// The catch-all, preserving the raw token and the raw parameter list.
    fn unknown_of(command: &str, params: Vec<String>) -> (c: Command)
        ensures
            is_unknown_preserving(command@, params.deep_view(), c),
    {
        Command::UNKNOWN { command: command.to_owned(), params }
    }

    /// Decode a verb or code token and a raw parameter list into a payload.
    pub fn new(command: &str, params: Vec<String>) -> (c: Command)
        ensures
            decodes_to(command@, params.deep_view(), c),
    {
        let ghost dv = params.deep_view();
        if str_eq_value(command, "CAP") {
            if params.len() < 1 {
                return Command::unknown_of(command, params);
            }
            let c = Command::CAP {
                subcommand: params[0].clone(),
                capabilities: if params.len() >= 2 {
                    Some(params[1].clone())
                } else {
                    None
                },
            };
            proof {
                assert(wire_params(c) =~= clip_params(command@, dv));
            }
            c
        } else if str_eq_value(command, "PASS") {
            if params.len() < 1 {
                return Command::unknown_of(command, params);
            }
            let c = Command::PASS { password: params[0].clone() };
            proof {
                assert(wire_params(c) =~= clip_params(command@, dv));
            }
            c
        } else if str_eq_value(command, "NICK") {
            if params.len() < 1 {
                return Command::unknown_of(command, params);
            }
            let c = Command::NICK { nickname: params[0].clone() };
            proof {
                assert(wire_params(c) =~= clip_params(command@, dv));
            }
            c
        } else if str_eq_value(command, "USER") {
            if params.len() < 4 {
                return Command::unknown_of(command, params);
            }
            let c = Command::USER {
                user: params[0].clone(),
                mode: params[1].clone(),
                unused: params[2].clone(),
                realname: params[3].clone(),
            };
            proof {
                assert(wire_params(c) =~= clip_params(command@, dv));
            }
            c
        } else if str_eq_value(command, "PING") {
            if params.len() < 1 {
                return Command::unknown_of(command, params);
            }
            let c = Command::PING { token: params[0].clone() };
            proof {
                assert(wire_params(c) =~= clip_params(command@, dv));
            }
            c
        } else if str_eq_value(command, "PONG") {
            if params.len() < 1 {
                return Command::unknown_of(command, params);
            }
            let c = Command::PONG {
                token: params[0].clone(),
                server: if params.len() >= 2 {
                    Some(params[1].clone())
                } else {
                    None
                },
            };
            proof {
                assert(wire_params(c) =~= clip_params(command@, dv));
            }
            c
        } else if str_eq_value(command, "OPER") {
            if params.len() < 2 {
                return Command::unknown_of(command, params);
            }
            let c = Command::OPER { name: params[0].clone(), password: params[1].clone() };
            proof {
                assert(wire_params(c) =~= clip_params(command@, dv));
            }
            c
        } else if str_eq_value(command, "QUIT") {
            let c = Command::QUIT {
                reason: if params.len() >= 1 {
                    Some(params[0].clone())
                } else {
                    None
                },
            };
            proof {
                assert(wire_params(c) =~= clip_params(command@, dv));
            }
            c
        } else if str_eq_value(command, "ERROR") {
            if params.len() < 1 {
                return Command::unknown_of(command, params);
            }
            let c = Command::ERROR { reason: params[0].clone() };
            proof {
                assert(wire_params(c) =~= clip_params(command@, dv));
            }
            c
        } else if str_eq_value(command, "JOIN") {
            if params.len() < 1 {
                return Command::unknown_of(command, params);
            }
            let c = Command::JOIN {
                channels: params[0].clone(),
                keys: if params.len() >= 2 {
                    Some(params[1].clone())
                } else {
                    None
                },
            };
            proof {
                assert(wire_params(c) =~= clip_params(command@, dv));
            }
            c
        } else if str_eq_value(command, "PRIVMSG") {
            if params.len() < 2 {
                return Command::unknown_of(command, params);
            }
            let c = Command::PRIVMSG { targets: params[0].clone(), text: params[1].clone() };
            proof {
                assert(wire_params(c) =~= clip_params(command@, dv));
            }
            c
        } else if str_eq_value(command, "WHO") {
            if params.len() < 1 {
                return Command::unknown_of(command, params);
            }
            let c = Command::WHO { mask: params[0].clone() };
            proof {
                assert(wire_params(c) =~= clip_params(command@, dv));
            }
            c
        } else if str_eq_value(command, "315") {
            if params.len() < 2 {
                return Command::unknown_of(command, params);
            }
            let c = Command::RPL_ENDOFWHO { client: params[0].clone(), mask: params[1].clone() };
            proof {
                assert(wire_params(c) =~= clip_params(command@, dv));
            }
            c
        } else if str_eq_value(command, "352") {
            if params.len() < 9 {
                return Command::unknown_of(command, params);
            }
            let c = Command::RPL_WHOREPLY {
                client: params[0].clone(),
                channel: params[1].clone(),
                username: params[2].clone(),
                host: params[3].clone(),
                server: params[4].clone(),
                nick: params[5].clone(),
                flags: params[6].clone(),
                hopcount: params[7].clone(),
                realname: params[8].clone(),
            };
            proof {
                assert(wire_params(c) =~= clip_params(command@, dv));
            }
            c
        } else if str_eq_value(command, "353") {
            if params.len() < 3 {
                return Command::unknown_of(command, params);
            }
            let mut members: Vec<String> = Vec::new();
            let mut i: usize = 3;
            proof {
                assert(members.deep_view() =~= dv.subrange(3, 3));
            }
            while i < params.len()
                invariant
                    3 <= i <= params.len(),
                    dv == params.deep_view(),
                    members.deep_view() == dv.subrange(3, i as int),
                decreases params.len() - i,
            {
                let ghost prev = members.deep_view();
                members.push(params[i].clone());
                proof {
                    assert(members.deep_view() =~= prev.push(params@[i as int]@));
                    assert(prev.push(params@[i as int]@) =~= dv.subrange(3, i + 1));
                }
                i = i + 1;
            }
            let c = Command::RPL_NAMREPLY {
                client: params[0].clone(),
                symbol: params[1].clone(),
                channel: params[2].clone(),
                members,
            };
            proof {
                assert(wire_params(c) =~= clip_params(command@, dv));
            }
            c
        } else if str_eq_value(command, "366") {
            if params.len() < 2 {
                return Command::unknown_of(command, params);
            }
            let c = Command::RPL_ENDOFNAMES {
                client: params[0].clone(),
                channel: params[1].clone(),
            };
            proof {
                assert(wire_params(c) =~= clip_params(command@, dv));
            }
            c
        } else if str_eq_value(command, "372") {
            if params.len() < 2 {
                return Command::unknown_of(command, params);
            }
            let c = Command::RPL_MOTD { client: params[0].clone(), line: params[1].clone() };
            proof {
                assert(wire_params(c) =~= clip_params(command@, dv));
            }
            c
        } else if str_eq_value(command, "375") {
            if params.len() < 2 {
                return Command::unknown_of(command, params);
            }
            let c = Command::RPL_MOTDSTART { client: params[0].clone(), line: params[1].clone() };
            proof {
                assert(wire_params(c) =~= clip_params(command@, dv));
            }
            c
        } else if str_eq_value(command, "376") {
            if params.len() < 1 {
                return Command::unknown_of(command, params);
            }
            let c = Command::RPL_ENDOFMOTD { client: params[0].clone() };
            proof {
                assert(wire_params(c) =~= clip_params(command@, dv));
            }
            c
        } else if str_eq_value(command, "412") {
            if params.len() < 1 {
                return Command::unknown_of(command, params);
            }
            let c = Command::ERR_NOTEXTTOSEND { client: params[0].clone() };
            proof {
                assert(wire_params(c) =~= clip_params(command@, dv));
            }
            c
        } else if str_eq_value(command, "431") {
            if params.len() < 1 {
                return Command::unknown_of(command, params);
            }
            let c = Command::ERR_NONICKNAMEGIVEN { client: params[0].clone() };
            proof {
                assert(wire_params(c) =~= clip_params(command@, dv));
            }
            c
        } else if str_eq_value(command, "432") {
            if params.len() < 2 {
                return Command::unknown_of(command, params);
            }
            let c = Command::ERR_ERRONEUSNICKNAME {
                client: params[0].clone(),
                nick: params[1].clone(),
            };
            proof {
                assert(wire_params(c) =~= clip_params(command@, dv));
            }
            c
        } else if str_eq_value(command, "433") {
            if params.len() < 2 {
                return Command::unknown_of(command, params);
            }
            let c = Command::ERR_NICKNAMEINUSE {
                client: params[0].clone(),
                nick: params[1].clone(),
            };
            proof {
                assert(wire_params(c) =~= clip_params(command@, dv));
            }
            c
        } else if str_eq_value(command, "436") {
            if params.len() < 4 {
                return Command::unknown_of(command, params);
            }
            let c = Command::ERR_NICKCOLLISION {
                client: params[0].clone(),
                nick: params[1].clone(),
                user: params[2].clone(),
                host: params[3].clone(),
            };
            proof {
                assert(wire_params(c) =~= clip_params(command@, dv));
            }
            c
        } else if str_eq_value(command, "461") {
            if params.len() < 2 {
                return Command::unknown_of(command, params);
            }
            let c = Command::ERR_NEEDMOREPARAMS {
                client: params[0].clone(),
                command: params[1].clone(),
            };
            proof {
                assert(wire_params(c) =~= clip_params(command@, dv));
            }
            c
        } else if str_eq_value(command, "462") {
            if params.len() < 1 {
                return Command::unknown_of(command, params);
            }
            let c = Command::ERR_ALREADYREGISTERED { client: params[0].clone() };
            proof {
                assert(wire_params(c) =~= clip_params(command@, dv));
            }
            c
        } else if str_eq_value(command, "464") {
            if params.len() < 1 {
                return Command::unknown_of(command, params);
            }
            let c = Command::ERR_PASSWDMISMATCH { client: params[0].clone() };
            proof {
                assert(wire_params(c) =~= clip_params(command@, dv));
            }
            c
        } else {
            Command::unknown_of(command, params)
        }
    }

    /// The parameter list this payload is written with.
    pub fn params(&self) -> (r: Vec<String>)
        ensures
            r.deep_view() == wire_params(*self),
    {
        match self {
            Command::CAP { subcommand, capabilities } => match capabilities {
                Some(cap) => vec2(subcommand.clone(), cap.clone()),
                None => vec1(subcommand.clone()),
            },
            Command::PASS { password } => vec1(password.clone()),
            Command::NICK { nickname } => vec1(nickname.clone()),
            Command::USER { user, mode, unused, realname } => vec4(
                user.clone(),
                mode.clone(),
                unused.clone(),
                realname.clone(),
            ),
            Command::PING { token } => vec1(token.clone()),
            Command::PONG { token, server } => match server {
                Some(srv) => vec2(token.clone(), srv.clone()),
                None => vec1(token.clone()),
            },
            Command::OPER { name, password } => vec2(name.clone(), password.clone()),
            Command::QUIT { reason } => match reason {
                Some(re) => vec1(re.clone()),
                None => Vec::new(),
            },
            Command::ERROR { reason } => vec1(reason.clone()),
            Command::JOIN { channels, keys } => match keys {
                Some(k) => vec2(channels.clone(), k.clone()),
                None => vec1(channels.clone()),
            },
            Command::PRIVMSG { targets, text } => vec2(targets.clone(), text.clone()),
            Command::WHO { mask } => vec1(mask.clone()),
            Command::RPL_ENDOFWHO { client, mask } => vec2(client.clone(), mask.clone()),
            Command::RPL_WHOREPLY {
                client,
                channel,
                username,
                host,
                server,
                nick,
                flags,
                hopcount,
                realname,
            } => {
                let mut r: Vec<String> = Vec::new();
                r.push(client.clone());
                r.push(channel.clone());
                r.push(username.clone());
                r.push(host.clone());
                r.push(server.clone());
                r.push(nick.clone());
                r.push(flags.clone());
                r.push(hopcount.clone());
                r.push(realname.clone());
                proof {
                    assert(r.deep_view() =~= wire_params(*self));
                }
                r
            },
            Command::RPL_NAMREPLY { client, symbol, channel, members } => {
                let mut r: Vec<String> = Vec::new();
                r.push(client.clone());
                r.push(symbol.clone());
                r.push(channel.clone());
                let mut i: usize = 0;
                while i < members.len()
                    invariant
                        i <= members.len(),
                        r.deep_view() == seq![client@, symbol@, channel@]
                            + members.deep_view().take(i as int),
                    decreases members.len() - i,
                {
                    let ghost prev = r.deep_view();
                    r.push(members[i].clone());
                    proof {
                        assert(r.deep_view() =~= prev.push(members@[i as int]@));
                        assert(prev.push(members@[i as int]@) =~= seq![client@, symbol@, channel@]
                            + members.deep_view().take(i + 1));
                    }
                    i = i + 1;
                }
                proof {
                    assert(members.deep_view().take(members@.len() as int) =~= members.deep_view());
                }
                r
            },
            Command::RPL_ENDOFNAMES { client, channel } => vec2(client.clone(), channel.clone()),
            Command::RPL_MOTD { client, line } => vec2(client.clone(), line.clone()),
            Command::RPL_MOTDSTART { client, line } => vec2(client.clone(), line.clone()),
            Command::RPL_ENDOFMOTD { client } => vec1(client.clone()),
            Command::ERR_NOTEXTTOSEND { client } => vec1(client.clone()),
            Command::ERR_NONICKNAMEGIVEN { client } => vec1(client.clone()),
            Command::ERR_ERRONEUSNICKNAME { client, nick } => vec2(client.clone(), nick.clone()),
            Command::ERR_NICKNAMEINUSE { client, nick } => vec2(client.clone(), nick.clone()),
            Command::ERR_NICKCOLLISION { client, nick, user, host } => vec4(
                client.clone(),
                nick.clone(),
                user.clone(),
                host.clone(),
            ),
            Command::ERR_NEEDMOREPARAMS { client, command } => vec2(
                client.clone(),
                command.clone(),
            ),
            Command::ERR_ALREADYREGISTERED { client } => vec1(client.clone()),
            Command::ERR_PASSWDMISMATCH { client } => vec1(client.clone()),
            Command::UNKNOWN { command, params } => {
                let mut r: Vec<String> = Vec::new();
                let mut i: usize = 0;
                while i < params.len()
                    invariant
                        i <= params.len(),
                        r.deep_view() == params.deep_view().take(i as int),
                    decreases params.len() - i,
                {
                    let ghost prev = r.deep_view();
                    r.push(params[i].clone());
                    proof {
                        assert(r.deep_view() =~= prev.push(params@[i as int]@));
                        assert(prev.push(params@[i as int]@) =~= params.deep_view().take(i + 1));
                    }
                    i = i + 1;
                }
                proof {
                    assert(params.deep_view().take(params@.len() as int) =~= params.deep_view());
                }
                r
            },
        }
    }

    /// The wire token this payload is written with: the verb for command
    /// variants, the 3-digit code for numeric variants, and the stored raw
    /// token for the catch-all.
    pub fn command(&self) -> (r: String)
        ensures
            r@ == wire_verb(*self),
    {
        match self {
            Command::CAP { .. } => "CAP".to_owned(),
            Command::PASS { .. } => "PASS".to_owned(),
            Command::NICK { .. } => "NICK".to_owned(),
            Command::USER { .. } => "USER".to_owned(),
            Command::PING { .. } => "PING".to_owned(),
            Command::PONG { .. } => "PONG".to_owned(),
            Command::OPER { .. } => "OPER".to_owned(),
            Command::QUIT { .. } => "QUIT".to_owned(),
            Command::ERROR { .. } => "ERROR".to_owned(),
            Command::JOIN { .. } => "JOIN".to_owned(),
            Command::PRIVMSG { .. } => "PRIVMSG".to_owned(),
            Command::WHO { .. } => "WHO".to_owned(),
            Command::RPL_ENDOFWHO { .. } => "315".to_owned(),
            Command::RPL_WHOREPLY { .. } => "352".to_owned(),
            Command::RPL_NAMREPLY { .. } => "353".to_owned(),
            Command::RPL_ENDOFNAMES { .. } => "366".to_owned(),
            Command::RPL_MOTD { .. } => "372".to_owned(),
            Command::RPL_MOTDSTART { .. } => "375".to_owned(),
            Command::RPL_ENDOFMOTD { .. } => "376".to_owned(),
            Command::ERR_NOTEXTTOSEND { .. } => "412".to_owned(),
            Command::ERR_NONICKNAMEGIVEN { .. } => "431".to_owned(),
            Command::ERR_ERRONEUSNICKNAME { .. } => "432".to_owned(),
            Command::ERR_NICKNAMEINUSE { .. } => "433".to_owned(),
            Command::ERR_NICKCOLLISION { .. } => "436".to_owned(),
            Command::ERR_NEEDMOREPARAMS { .. } => "461".to_owned(),
            Command::ERR_ALREADYREGISTERED { .. } => "462".to_owned(),
            Command::ERR_PASSWDMISMATCH { .. } => "464".to_owned(),
            Command::UNKNOWN { command, .. } => command.clone(),
        }
    }

    /// The numeric reply code of this payload; 0 for command variants and
    /// for the catch-all.
    pub fn numeric(&self) -> (r: u16)
        ensures
            r == numeric_code(*self),
    {
        match self {
            Command::RPL_ENDOFWHO { .. } => 315,
            Command::RPL_WHOREPLY { .. } => 352,
            Command::RPL_NAMREPLY { .. } => 353,
            Command::RPL_ENDOFNAMES { .. } => 366,
            Command::RPL_MOTD { .. } => 372,
            Command::RPL_MOTDSTART { .. } => 375,
            Command::RPL_ENDOFMOTD { .. } => 376,
            Command::ERR_NOTEXTTOSEND { .. } => 412,
            Command::ERR_NONICKNAMEGIVEN { .. } => 431,
            Command::ERR_ERRONEUSNICKNAME { .. } => 432,
            Command::ERR_NICKNAMEINUSE { .. } => 433,
            Command::ERR_NICKCOLLISION { .. } => 436,
            Command::ERR_NEEDMOREPARAMS { .. } => 461,
            Command::ERR_ALREADYREGISTERED { .. } => 462,
            Command::ERR_PASSWDMISMATCH { .. } => 464,
            _ => 0,
        }
    }
}

} // verus!

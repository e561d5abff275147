//! The numeric-reply registry on its own: 3-digit server reply and error
//! codes as a dedicated sum type, for callers that deal in replies only.

use vstd::prelude::*;
use crate::text::str_eq_value;

verus! {

/// A server reply or error identified by a 3-digit code, with its
/// reply-specific fields, plus a catch-all that preserves an unrecognised
/// code (or one given too few parameters) together with its raw parameters.
#[allow(non_camel_case_types)]
#[derive(Debug, Clone, PartialEq)]
pub enum Numeric {
    /// Reply 315
    RPL_ENDOFWHO { client: String, mask: String },
    /// Reply 352
    RPL_WHOREPLY {
        client: String,
        channel: String,
        username: String,
        host: String,
        server: String,
        nick: String,
        flags: String,
        hopcount: String,
        realname: String,
    },
    /// Reply 353
    RPL_NAMREPLY { client: String, symbol: String, channel: String, members: Vec<String> },
    /// Reply 366
    RPL_ENDOFNAMES { client: String, channel: String },
    /// Reply 372
    RPL_MOTD { client: String, line: String },
    /// Reply 375
    RPL_MOTDSTART { client: String, line: String },
    /// Reply 376
    RPL_ENDOFMOTD { client: String },
    /// Error 412
    ERR_NOTEXTTOSEND { client: String },
    /// Error 431
    ERR_NONICKNAMEGIVEN { client: String },
    /// Error 432
    ERR_ERRONEUSNICKNAME { client: String, nick: String },
    /// Error 433
    ERR_NICKNAMEINUSE { client: String, nick: String },
    /// Error 436
    ERR_NICKCOLLISION { client: String, nick: String, user: String, host: String },
    /// Error 461
    ERR_NEEDMOREPARAMS { client: String, command: String },
    /// Error 462
    ERR_ALREADYREGISTERED { client: String },
    /// Error 464
    ERR_PASSWDMISMATCH { client: String },
    /// An unrecognised code, or a registered one given fewer parameters
    /// than it requires, with the raw token and parameters preserved.
    UNKNOWN { numeric: String, params: Vec<String> },
}

/// The reply registry table: required parameter count, and whether the
/// final field absorbs the whole remaining parameter tail.
pub open spec fn reply_shape(code: Seq<char>) -> Option<(int, bool)> {
    if code == "315"@ {
        Some((2, false))
    } else if code == "352"@ {
        Some((9, false))
    } else if code == "353"@ {
        Some((3, true))
    } else if code == "366"@ {
        Some((2, false))
    } else if code == "372"@ {
        Some((2, false))
    } else if code == "375"@ {
        Some((2, false))
    } else if code == "376"@ {
        Some((1, false))
    } else if code == "412"@ {
        Some((1, false))
    } else if code == "431"@ {
        Some((1, false))
    } else if code == "432"@ {
        Some((2, false))
    } else if code == "433"@ {
        Some((2, false))
    } else if code == "436"@ {
        Some((4, false))
    } else if code == "461"@ {
        Some((2, false))
    } else if code == "462"@ {
        Some((1, false))
    } else if code == "464"@ {
        Some((1, false))
    } else {
        None
    }
}

/// The 3-digit token a reply is written with; the stored raw token for the
/// catch-all.
pub open spec fn reply_verb(n: Numeric) -> Seq<char> {
    match n {
        Numeric::RPL_ENDOFWHO { .. } => "315"@,
        Numeric::RPL_WHOREPLY { .. } => "352"@,
        Numeric::RPL_NAMREPLY { .. } => "353"@,
        Numeric::RPL_ENDOFNAMES { .. } => "366"@,
        Numeric::RPL_MOTD { .. } => "372"@,
        Numeric::RPL_MOTDSTART { .. } => "375"@,
        Numeric::RPL_ENDOFMOTD { .. } => "376"@,
        Numeric::ERR_NOTEXTTOSEND { .. } => "412"@,
        Numeric::ERR_NONICKNAMEGIVEN { .. } => "431"@,
        Numeric::ERR_ERRONEUSNICKNAME { .. } => "432"@,
        Numeric::ERR_NICKNAMEINUSE { .. } => "433"@,
        Numeric::ERR_NICKCOLLISION { .. } => "436"@,
        Numeric::ERR_NEEDMOREPARAMS { .. } => "461"@,
        Numeric::ERR_ALREADYREGISTERED { .. } => "462"@,
        Numeric::ERR_PASSWDMISMATCH { .. } => "464"@,
        Numeric::UNKNOWN { numeric, .. } => numeric@,
    }
}

/// The parameter list a reply is written with: required fields in their
/// declared order, a tail field flattened at the end, and the stored raw
/// list for the catch-all.
pub open spec fn reply_params(n: Numeric) -> Seq<Seq<char>> {
    match n {
        Numeric::RPL_ENDOFWHO { client, mask } => seq![client@, mask@],
        Numeric::RPL_WHOREPLY {
            client,
            channel,
            username,
            host,
            server,
            nick,
            flags,
            hopcount,
            realname,
        } => seq![
            client@,
            channel@,
            username@,
            host@,
            server@,
            nick@,
            flags@,
            hopcount@,
            realname@,
        ],
        Numeric::RPL_NAMREPLY { client, symbol, channel, members } => seq![
            client@,
            symbol@,
            channel@,
        ] + members.deep_view(),
        Numeric::RPL_ENDOFNAMES { client, channel } => seq![client@, channel@],
        Numeric::RPL_MOTD { client, line } => seq![client@, line@],
        Numeric::RPL_MOTDSTART { client, line } => seq![client@, line@],
        Numeric::RPL_ENDOFMOTD { client } => seq![client@],
        Numeric::ERR_NOTEXTTOSEND { client } => seq![client@],
        Numeric::ERR_NONICKNAMEGIVEN { client } => seq![client@],
        Numeric::ERR_ERRONEUSNICKNAME { client, nick } => seq![client@, nick@],
        Numeric::ERR_NICKNAMEINUSE { client, nick } => seq![client@, nick@],
        Numeric::ERR_NICKCOLLISION { client, nick, user, host } => seq![
            client@,
            nick@,
            user@,
            host@,
        ],
        Numeric::ERR_NEEDMOREPARAMS { client, command } => seq![client@, command@],
        Numeric::ERR_ALREADYREGISTERED { client } => seq![client@],
        Numeric::ERR_PASSWDMISMATCH { client } => seq![client@],
        Numeric::UNKNOWN { numeric, params } => params.deep_view(),
    }
}

/// The numeric value of a reply's code; 0 for the catch-all.
pub open spec fn reply_code(n: Numeric) -> u16 {
    match n {
        Numeric::RPL_ENDOFWHO { .. } => 315,
        Numeric::RPL_WHOREPLY { .. } => 352,
        Numeric::RPL_NAMREPLY { .. } => 353,
        Numeric::RPL_ENDOFNAMES { .. } => 366,
        Numeric::RPL_MOTD { .. } => 372,
        Numeric::RPL_MOTDSTART { .. } => 375,
        Numeric::RPL_ENDOFMOTD { .. } => 376,
        Numeric::ERR_NOTEXTTOSEND { .. } => 412,
        Numeric::ERR_NONICKNAMEGIVEN { .. } => 431,
        Numeric::ERR_ERRONEUSNICKNAME { .. } => 432,
        Numeric::ERR_NICKNAMEINUSE { .. } => 433,
        Numeric::ERR_NICKCOLLISION { .. } => 436,
        Numeric::ERR_NEEDMOREPARAMS { .. } => 461,
        Numeric::ERR_ALREADYREGISTERED { .. } => 462,
        Numeric::ERR_PASSWDMISMATCH { .. } => 464,
        Numeric::UNKNOWN { .. } => 0,
    }
}

/// The catch-all outcome: raw token and untouched parameter list preserved.
pub open spec fn reply_unknown_preserving(
    code: Seq<char>,
    params: Seq<Seq<char>>,
    n: Numeric,
) -> bool {
    n matches Numeric::UNKNOWN { numeric: t, params: ps } && t@ == code && ps.deep_view() == params
}

/// The parameters a registered reply can hold: everything when it has a
/// tail field, and exactly its required slots otherwise.
pub open spec fn reply_clip(code: Seq<char>, params: Seq<Seq<char>>) -> Seq<Seq<char>> {
    let shape = reply_shape(code).unwrap();
    if shape.1 || params.len() <= shape.0 {
        params
    } else {
        params.take(shape.0)
    }
}

/// What decoding a code token and parameter list yields, mirroring the
/// command registry's behaviour for the reply family alone.
pub open spec fn reply_decodes_to(code: Seq<char>, params: Seq<Seq<char>>, n: Numeric) -> bool {
    match reply_shape(code) {
        Some(shape) => {
            if params.len() < shape.0 {
                reply_unknown_preserving(code, params, n)
            } else {
                &&& !(n is UNKNOWN)
                &&& reply_verb(n) == code
                &&& reply_params(n) == reply_clip(code, params)
            }
        },
        None => reply_unknown_preserving(code, params, n),
    }
}

/// Registry inverse for the reply family: decoding a registered code with
/// at least its required and at most its admissible parameter count, then
/// re-encoding, returns the very code and parameter list.
pub proof fn lemma_reply_inverse(code: Seq<char>, params: Seq<Seq<char>>, n: Numeric)
    requires
        reply_decodes_to(code, params, n),
        reply_shape(code) is Some,
        params.len() >= reply_shape(code).unwrap().0,
        reply_shape(code).unwrap().1 || params.len() <= reply_shape(code).unwrap().0,
    ensures
        !(n is UNKNOWN),
        reply_verb(n) == code,
        reply_params(n) == params,
{
}

/// Arity shortfall for the reply family: too few parameters yield the
/// catch-all with code and parameters preserved, never a partial variant.
pub proof fn lemma_reply_shortfall(code: Seq<char>, params: Seq<Seq<char>>, n: Numeric)
    requires
        reply_decodes_to(code, params, n),
        reply_shape(code) is Some,
        params.len() < reply_shape(code).unwrap().0,
    ensures
        n is UNKNOWN,
        reply_verb(n) == code,
        reply_params(n) == params,
{
}

impl Numeric {
    /// The catch-all, preserving the raw token and the raw parameter list.
    fn unknown_of(numeric: &str, params: Vec<String>) -> (n: Numeric)
        ensures
            reply_unknown_preserving(numeric@, params.deep_view(), n),
    {
        Numeric::UNKNOWN { numeric: numeric.to_owned(), params }
    }

    /// Decode a 3-digit code token and a raw parameter list into a reply.
    pub fn new(numeric: &str, params: Vec<String>) -> (n: Numeric)
        ensures
            reply_decodes_to(numeric@, params.deep_view(), n),
    {
        let ghost dv = params.deep_view();
        if str_eq_value(numeric, "315") {
            if params.len() < 2 {
                return Numeric::unknown_of(numeric, params);
            }
            let n = Numeric::RPL_ENDOFWHO { client: params[0].clone(), mask: params[1].clone() };
            proof {
                assert(reply_params(n) =~= reply_clip(numeric@, dv));
            }
            n
        } else if str_eq_value(numeric, "352") {
            if params.len() < 9 {
                return Numeric::unknown_of(numeric, params);
            }
            let n = Numeric::RPL_WHOREPLY {
                client: params[0].clone(),
                channel: params[1].clone(),
                username: params[2].clone(),
                host: params[3].clone(),
                server: params[4].clone(),
                nick: params[5].clone(),
                flags: params[6].clone(),
                hopcount: params[7].clone(),
                realname: params[8].clone(),
            };
            proof {
                assert(reply_params(n) =~= reply_clip(numeric@, dv));
            }
            n
        } else if str_eq_value(numeric, "353") {
            if params.len() < 3 {
                return Numeric::unknown_of(numeric, params);
            }
            let mut members: Vec<String> = Vec::new();
            let mut i: usize = 3;
            proof {
                assert(members.deep_view() =~= dv.subrange(3, 3));
            }
            while i < params.len()
                invariant
                    3 <= i <= params.len(),
                    dv == params.deep_view(),
                    members.deep_view() == dv.subrange(3, i as int),
                decreases params.len() - i,
            {
                let ghost prev = members.deep_view();
                members.push(params[i].clone());
                proof {
                    assert(members.deep_view() =~= prev.push(params@[i as int]@));
                    assert(prev.push(params@[i as int]@) =~= dv.subrange(3, i + 1));
                }
                i = i + 1;
            }
            let n = Numeric::RPL_NAMREPLY {
                client: params[0].clone(),
                symbol: params[1].clone(),
                channel: params[2].clone(),
                members,
            };
            proof {
                assert(reply_params(n) =~= reply_clip(numeric@, dv));
            }
            n
        } else if str_eq_value(numeric, "366") {
            if params.len() < 2 {
                return Numeric::unknown_of(numeric, params);
            }
            let n = Numeric::RPL_ENDOFNAMES {
                client: params[0].clone(),
                channel: params[1].clone(),
            };
            proof {
                assert(reply_params(n) =~= reply_clip(numeric@, dv));
            }
            n
        } else if str_eq_value(numeric, "372") {
            if params.len() < 2 {
                return Numeric::unknown_of(numeric, params);
            }
            let n = Numeric::RPL_MOTD { client: params[0].clone(), line: params[1].clone() };
            proof {
                assert(reply_params(n) =~= reply_clip(numeric@, dv));
            }
            n
        } else if str_eq_value(numeric, "375") {
            if params.len() < 2 {
                return Numeric::unknown_of(numeric, params);
            }
            let n = Numeric::RPL_MOTDSTART { client: params[0].clone(), line: params[1].clone() };
            proof {
                assert(reply_params(n) =~= reply_clip(numeric@, dv));
            }
            n
        } else if str_eq_value(numeric, "376") {
            if params.len() < 1 {
                return Numeric::unknown_of(numeric, params);
            }
            let n = Numeric::RPL_ENDOFMOTD { client: params[0].clone() };
            proof {
                assert(reply_params(n) =~= reply_clip(numeric@, dv));
            }
            n
        } else if str_eq_value(numeric, "412") {
            if params.len() < 1 {
                return Numeric::unknown_of(numeric, params);
            }
            let n = Numeric::ERR_NOTEXTTOSEND { client: params[0].clone() };
            proof {
                assert(reply_params(n) =~= reply_clip(numeric@, dv));
            }
            n
        } else if str_eq_value(numeric, "431") {
            if params.len() < 1 {
                return Numeric::unknown_of(numeric, params);
            }
            let n = Numeric::ERR_NONICKNAMEGIVEN { client: params[0].clone() };
            proof {
                assert(reply_params(n) =~= reply_clip(numeric@, dv));
            }
            n
        } else if str_eq_value(numeric, "432") {
            if params.len() < 2 {
                return Numeric::unknown_of(numeric, params);
            }
            let n = Numeric::ERR_ERRONEUSNICKNAME {
                client: params[0].clone(),
                nick: params[1].clone(),
            };
            proof {
                assert(reply_params(n) =~= reply_clip(numeric@, dv));
            }
            n
        } else if str_eq_value(numeric, "433") {
            if params.len() < 2 {
                return Numeric::unknown_of(numeric, params);
            }
            let n = Numeric::ERR_NICKNAMEINUSE {
                client: params[0].clone(),
                nick: params[1].clone(),
            };
            proof {
                assert(reply_params(n) =~= reply_clip(numeric@, dv));
            }
            n
        } else if str_eq_value(numeric, "436") {
            if params.len() < 4 {
                return Numeric::unknown_of(numeric, params);
            }
            let n = Numeric::ERR_NICKCOLLISION {
                client: params[0].clone(),
                nick: params[1].clone(),
                user: params[2].clone(),
                host: params[3].clone(),
            };
            proof {
                assert(reply_params(n) =~= reply_clip(numeric@, dv));
            }
            n
        } else if str_eq_value(numeric, "461") {
            if params.len() < 2 {
                return Numeric::unknown_of(numeric, params);
            }
            let n = Numeric::ERR_NEEDMOREPARAMS {
                client: params[0].clone(),
                command: params[1].clone(),
            };
            proof {
                assert(reply_params(n) =~= reply_clip(numeric@, dv));
            }
            n
        } else if str_eq_value(numeric, "462") {
            if params.len() < 1 {
                return Numeric::unknown_of(numeric, params);
            }
            let n = Numeric::ERR_ALREADYREGISTERED { client: params[0].clone() };
            proof {
                assert(reply_params(n) =~= reply_clip(numeric@, dv));
            }
            n
        } else if str_eq_value(numeric, "464") {
            if params.len() < 1 {
                return Numeric::unknown_of(numeric, params);
            }
            let n = Numeric::ERR_PASSWDMISMATCH { client: params[0].clone() };
            proof {
                assert(reply_params(n) =~= reply_clip(numeric@, dv));
            }
            n
        } else {
            Numeric::unknown_of(numeric, params)
        }
    }

    /// The parameter list this reply is written with.
    pub fn params(&self) -> (r: Vec<String>)
        ensures
            r.deep_view() == reply_params(*self),
    {
        match self {
            Numeric::RPL_ENDOFWHO { client, mask } => crate::command::vec2(
                client.clone(),
                mask.clone(),
            ),
            Numeric::RPL_WHOREPLY {
                client,
                channel,
                username,
                host,
                server,
                nick,
                flags,
                hopcount,
                realname,
            } => {
                let mut r: Vec<String> = Vec::new();
                r.push(client.clone());
                r.push(channel.clone());
                r.push(username.clone());
                r.push(host.clone());
                r.push(server.clone());
                r.push(nick.clone());
                r.push(flags.clone());
                r.push(hopcount.clone());
                r.push(realname.clone());
                proof {
                    assert(r.deep_view() =~= reply_params(*self));
                }
                r
            },
            Numeric::RPL_NAMREPLY { client, symbol, channel, members } => {
                let mut r: Vec<String> = Vec::new();
                r.push(client.clone());
                r.push(symbol.clone());
                r.push(channel.clone());
                let mut i: usize = 0;
                while i < members.len()
                    invariant
                        i <= members.len(),
                        r.deep_view() == seq![client@, symbol@, channel@]
                            + members.deep_view().take(i as int),
                    decreases members.len() - i,
                {
                    let ghost prev = r.deep_view();
                    r.push(members[i].clone());
                    proof {
                        assert(r.deep_view() =~= prev.push(members@[i as int]@));
                        assert(prev.push(members@[i as int]@) =~= seq![client@, symbol@, channel@]
                            + members.deep_view().take(i + 1));
                    }
                    i = i + 1;
                }
                proof {
                    assert(members.deep_view().take(members@.len() as int) =~= members.deep_view());
                }
                r
            },
            Numeric::RPL_ENDOFNAMES { client, channel } => crate::command::vec2(
                client.clone(),
                channel.clone(),
            ),
            Numeric::RPL_MOTD { client, line } => crate::command::vec2(
                client.clone(),
                line.clone(),
            ),
            Numeric::RPL_MOTDSTART { client, line } => crate::command::vec2(
                client.clone(),
                line.clone(),
            ),
            Numeric::RPL_ENDOFMOTD { client } => crate::command::vec1(client.clone()),
            Numeric::ERR_NOTEXTTOSEND { client } => crate::command::vec1(client.clone()),
            Numeric::ERR_NONICKNAMEGIVEN { client } => crate::command::vec1(client.clone()),
            Numeric::ERR_ERRONEUSNICKNAME { client, nick } => crate::command::vec2(
                client.clone(),
                nick.clone(),
            ),
            Numeric::ERR_NICKNAMEINUSE { client, nick } => crate::command::vec2(
                client.clone(),
                nick.clone(),
            ),
            Numeric::ERR_NICKCOLLISION { client, nick, user, host } => crate::command::vec4(
                client.clone(),
                nick.clone(),
                user.clone(),
                host.clone(),
            ),
            Numeric::ERR_NEEDMOREPARAMS { client, command } => crate::command::vec2(
                client.clone(),
                command.clone(),
            ),
            Numeric::ERR_ALREADYREGISTERED { client } => crate::command::vec1(client.clone()),
            Numeric::ERR_PASSWDMISMATCH { client } => crate::command::vec1(client.clone()),
            Numeric::UNKNOWN { numeric: _, params } => {
                let mut r: Vec<String> = Vec::new();
                let mut i: usize = 0;
                while i < params.len()
                    invariant
                        i <= params.len(),
                        r.deep_view() == params.deep_view().take(i as int),
                    decreases params.len() - i,
                {
                    let ghost prev = r.deep_view();
                    r.push(params[i].clone());
                    proof {
                        assert(r.deep_view() =~= prev.push(params@[i as int]@));
                        assert(prev.push(params@[i as int]@) =~= params.deep_view().take(i + 1));
                    }
                    i = i + 1;
                }
                proof {
                    assert(params.deep_view().take(params@.len() as int) =~= params.deep_view());
                }
                r
            },
        }
    }

    /// The numeric value of this reply's code; 0 for the catch-all.
    pub fn numeric(&self) -> (r: u16)
        ensures
            r == reply_code(*self),
    {
        match self {
            Numeric::RPL_ENDOFWHO { .. } => 315,
            Numeric::RPL_WHOREPLY { .. } => 352,
            Numeric::RPL_NAMREPLY { .. } => 353,
            Numeric::RPL_ENDOFNAMES { .. } => 366,
            Numeric::RPL_MOTD { .. } => 372,
            Numeric::RPL_MOTDSTART { .. } => 375,
            Numeric::RPL_ENDOFMOTD { .. } => 376,
            Numeric::ERR_NOTEXTTOSEND { .. } => 412,
            Numeric::ERR_NONICKNAMEGIVEN { .. } => 431,
            Numeric::ERR_ERRONEUSNICKNAME { .. } => 432,
            Numeric::ERR_NICKNAMEINUSE { .. } => 433,
            Numeric::ERR_NICKCOLLISION { .. } => 436,
            Numeric::ERR_NEEDMOREPARAMS { .. } => 461,
            Numeric::ERR_ALREADYREGISTERED { .. } => 462,
            Numeric::ERR_PASSWDMISMATCH { .. } => 464,
            Numeric::UNKNOWN { .. } => 0,
        }
    }
}

} // verus!

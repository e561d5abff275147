//! The decoded data model: a message with optional tags, an optional source,
//! and exactly one command-or-numeric payload.

use vstd::prelude::*;

verus! {

/// One decoded protocol line: optional ordered tags, optional source, and a
/// payload. A `Message` only comes out of a successful decode or is built by
/// a caller; decode failure yields no message at all.
#[derive(Debug, Clone, PartialEq)]
pub struct Message {
    pub tags: Option<Vec<Tag>>,
    pub source: Option<Source>,
    pub command: Command,
}

/// One key/value metadata item from the leading `@...` section.
#[derive(Debug, Clone, PartialEq)]
pub struct Tag {
    pub key: TagKey,
    pub value: Option<String>,
}

/// A tag's key: an optional `+` client prefix, an optional vendor namespace,
/// and the bare key name. The vendor part is recognised by an `=` split in
/// this grammar, so decoding never produces it; it is emitted as `vendor/`
/// when a caller sets it.
#[derive(Debug, Clone, PartialEq)]
pub struct TagKey {
    pub client_prefix: Option<String>,
    pub vendor: Option<String>,
    pub value: String,
}

/// The origin of a message: `name[!user][@host]`.
#[derive(Debug, Clone, PartialEq)]
pub struct Source {
    pub name: String,
    pub user: Option<String>,
    pub host: Option<String>,
}

/// A source that is a server name alone.
#[derive(Debug, PartialEq)]
pub struct ServerSource {
    pub servername: String,
}

/// A source that is a client: nickname with optional user and host.
#[derive(Debug, PartialEq)]
pub struct ClientSource {
    pub nickname: String,
    pub user: Option<String>,
    pub host: Option<String>,
}

/// A nickname with an optional alternative.
#[derive(Debug, Clone, PartialEq)]
pub struct Nickname {
    pub value: String,
    pub optional_value: Option<String>,
}

/// The payload of a message: a fixed set of command verbs, a fixed set of
/// 3-digit numeric replies, and a catch-all that preserves an unrecognised
/// verb or code together with its raw parameter list.
#[allow(non_camel_case_types)]
#[derive(Debug, Clone, PartialEq)]
pub enum Command {
    // Connection messages
    CAP { subcommand: String, capabilities: Option<String> },
    PASS { password: String },
    NICK { nickname: String },
    USER { user: String, mode: String, unused: String, realname: String },
    PING { token: String },
    PONG { token: String, server: Option<String> },
    OPER { name: String, password: String },
    QUIT { reason: Option<String> },
    ERROR { reason: String },
    // Channel operations
    JOIN { channels: String, keys: Option<String> },
    // Sending messages
    PRIVMSG { targets: String, text: String },
    // User-based queries
    WHO { mask: String },
    /// Reply 315
    RPL_ENDOFWHO { client: String, mask: String },
    /// Reply 352
    RPL_WHOREPLY {
        client: String,
        channel: String,
        username: String,
        host: String,
        server: String,
        nick: String,
        flags: String,
        hopcount: String,
        realname: String,
    },
    /// Reply 353
    RPL_NAMREPLY { client: String, symbol: String, channel: String, members: Vec<String> },
    /// Reply 366
    RPL_ENDOFNAMES { client: String, channel: String },
    /// Reply 372
    RPL_MOTD { client: String, line: String },
    /// Reply 375
    RPL_MOTDSTART { client: String, line: String },
    /// Reply 376
    RPL_ENDOFMOTD { client: String },
    /// Error 412
    ERR_NOTEXTTOSEND { client: String },
    /// Error 431
    ERR_NONICKNAMEGIVEN { client: String },
    /// Error 432
    ERR_ERRONEUSNICKNAME { client: String, nick: String },
    /// Error 433
    ERR_NICKNAMEINUSE { client: String, nick: String },
    /// Error 436
    ERR_NICKCOLLISION { client: String, nick: String, user: String, host: String },
    /// Error 461
    ERR_NEEDMOREPARAMS { client: String, command: String },
    /// Error 462
    ERR_ALREADYREGISTERED { client: String },
    /// Error 464
    ERR_PASSWDMISMATCH { client: String },
    /// An unrecognised verb or code, or a registered one given fewer
    /// parameters than it requires: the raw token and the raw parameter
    /// list are preserved rather than dropped.
    UNKNOWN { command: String, params: Vec<String> },
}

} // verus!

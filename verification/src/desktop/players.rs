//! The commands of the player screens: how a player is named to the
//! server, how arguments are quoted, and what the server's reply to a
//! broadcast means.
use vstd::prelude::*;
use vstd::string::*;

use crate::desktop::app_error::AppError;
use crate::parsers::{
    ban_views, classify, classify_ack, listbans_result, listplayers_result, parse_broadcast_ack,
    parse_error_text, parse_listbans, parse_listplayers, player_views, BannedPlayer, GenericAck,
    GenericAckView, ParseError, Player,
};
use crate::text::{chars_of, is_white_space, is_whitespace, trim};

verus! {

/// The command that lists the online players.
pub const LIST_PLAYERS_COMMAND: &'static str = "listplayers";

/// The command that lists the banned players.
pub const LIST_BANS_COMMAND: &'static str = "listbans";

/// How `KickPlayer` and `BanPlayer` identify a player (their first argument).
#[derive(Clone, Copy, Debug, PartialEq, Eq, Structural)]
pub enum PlayerIdentifierKind {
    Index,
    Name,
    UserId,
    PlatformId,
    Player,
}

/// The argument that names an identifier kind to the server.
pub open spec fn kind_arg(kind: PlayerIdentifierKind) -> Seq<char> {
    match kind {
        PlayerIdentifierKind::Index => "index"@,
        PlayerIdentifierKind::Name => "name"@,
        PlayerIdentifierKind::UserId => "userid"@,
        PlayerIdentifierKind::PlatformId => "platformid"@,
        PlayerIdentifierKind::Player => "player"@,
    }
}

impl PlayerIdentifierKind {
    /// The argument that names this kind to the server.
    pub fn as_arg(self) -> (s: &'static str)
        ensures
            s@ == kind_arg(self),
    {
        match self {
            PlayerIdentifierKind::Index => "index",
            PlayerIdentifierKind::Name => "name",
            PlayerIdentifierKind::UserId => "userid",
            PlayerIdentifierKind::PlatformId => "platformid",
            PlayerIdentifierKind::Player => "player",
        }
    }
}

/// What the UI sends to kick a player.
#[derive(Debug)]
pub struct KickInput {
    pub kind: PlayerIdentifierKind,
    pub identifier: String,
    pub message: String,
}

/// What the UI sends to ban a player.
#[derive(Debug)]
pub struct BanInput {
    pub kind: PlayerIdentifierKind,
    pub identifier: String,
    pub message: String,
}

/// Whether an argument must be quoted: it holds white space or a quote.
pub open spec fn needs_quotes(s: Seq<char>) -> bool {
    exists|i: int| 0 <= i < s.len() && (is_white_space(#[trigger] s[i]) || s[i] == '"')
}

/// `s` with every `"` preceded by a backslash.
pub open spec fn escape_quotes(s: Seq<char>) -> Seq<char>
    decreases s.len(),
{
    if s.len() == 0 {
        s
    } else if s.last() == '"' {
        escape_quotes(s.drop_last()) + seq!['\\', '"']
    } else {
        escape_quotes(s.drop_last()).push(s.last())
    }
}

/// How an argument is written in a command: the server splits commands at
/// spaces, so an argument with white space or quotes is put in double
/// quotes with its quotes escaped, and an empty one is written `""`.
pub open spec fn quoted(s: Seq<char>) -> Seq<char> {
    if s.len() == 0 {
        seq!['"', '"']
    } else if needs_quotes(s) {
        seq!['"'] + escape_quotes(s) + seq!['"']
    } else {
        s
    }
}

/// Write an argument so that it survives the server's split at spaces.
pub fn quote_arg(value: &str) -> (r: String)
    ensures
        r@ == quoted(value@),
{
    proof {
        reveal_strlit("\"\"");
        reveal_strlit("\"");
        reveal_strlit("\\\"");
    }
    let v = chars_of(value);
    if v.len() == 0 {
        let r = String::from_str("\"\"");
        assert(r@ =~= seq!['"', '"']);
        return r;
    }
    let mut needs = false;
    let mut i: usize = 0;
    while i < v.len()
        invariant
            v@ == value@,
            i <= v.len(),
            needs <==> exists|j: int| 0 <= j < i && (is_white_space(#[trigger] v@[j]) || v@[j] == '"'),
        decreases v.len() - i,
    {
        if is_whitespace(v[i]) || v[i] == '"' {
            needs = true;
        }
        i = i + 1;
    }
    if !needs {
        return value.to_owned();
    }
    let mut out = String::from_str("\"");
    let mut k: usize = 0;
    while k < v.len()
        invariant
            v@ == value@,
            k <= v.len(),
            out@ == seq!['"'] + escape_quotes(v@.take(k as int)),
        decreases v.len() - k,
    {
        let ghost pre = v@.take(k as int);
        assert(v@.take(k + 1).drop_last() =~= pre);
        assert(v@.take(k + 1).last() == v@[k as int]);
        if v[k] == '"' {
            out.append("\\\"");
            proof {
                reveal_strlit("\\\"");
            }
            assert(out@ =~= seq!['"'] + escape_quotes(v@.take(k + 1)));
        } else {
            let one = value.substring_char(k, k + 1);
            assert(one@ =~= seq![v@[k as int]]);
            out.append(one);
            assert(out@ =~= seq!['"'] + escape_quotes(v@.take(k + 1)));
        }
        k = k + 1;
    }
    out.append("\"");
    assert(v@.take(v.len() as int) =~= v@);
    assert(out@ =~= seq!['"'] + escape_quotes(v@) + seq!['"']);
    out
}

/// Every quote in an escaped text is preceded by a backslash, and escaping
/// only adds backslashes: dropping the backslash before each quote gives
/// back the unescaped value.
pub proof fn lemma_escape_quotes(s: Seq<char>)
    ensures
        forall|i: int|
            0 <= i < escape_quotes(s).len() && #[trigger] escape_quotes(s)[i] == '"' ==> i > 0
                && escape_quotes(s)[i - 1] == '\\',
        unescape_quotes(escape_quotes(s)) == s,
    decreases s.len(),
{
    if s.len() > 0 {
        let init = escape_quotes(s.drop_last());
        lemma_escape_quotes(s.drop_last());
        let e = escape_quotes(s);
        if s.last() == '"' {
            assert(e == init + seq!['\\', '"']);
            assert forall|i: int| 0 <= i < e.len() && #[trigger] e[i] == '"' implies i > 0 && e[i
                - 1] == '\\' by {
                if i < init.len() {
                    assert(e[i] == init[i]);
                    assert(e[i - 1] == init[i - 1]);
                }
            }
            assert(e.drop_last().drop_last() =~= init);
        } else {
            assert(e == init.push(s.last()));
            assert forall|i: int| 0 <= i < e.len() && #[trigger] e[i] == '"' implies i > 0 && e[i
                - 1] == '\\' by {
                if i < init.len() {
                    assert(e[i] == init[i]);
                    assert(e[i - 1] == init[i - 1]);
                }
            }
            assert(e.drop_last() =~= init);
        }
        assert(s.drop_last().push(s.last()) =~= s);
    } else {
        assert(unescape_quotes(escape_quotes(s)) =~= s);
    }
}

/// `t` with the backslash before each quote removed, read from the end.
pub open spec fn unescape_quotes(t: Seq<char>) -> Seq<char>
    decreases t.len(),
{
    if t.len() >= 2 && t.last() == '"' && t[t.len() - 2] == '\\' {
        unescape_quotes(t.drop_last().drop_last()).push('"')
    } else if t.len() > 0 {
        unescape_quotes(t.drop_last()).push(t.last())
    } else {
        t
    }
}

/// A written argument is never empty, so it keeps its place among the
/// arguments; it is the value itself when that holds no white space or
/// quote, and otherwise a quoted text in which every quote is escaped and
/// from which the value can be read back.
pub proof fn law_quoted_argument_is_one_token(s: Seq<char>)
    ensures
        quoted(s).len() > 0,
        s.len() > 0 && !needs_quotes(s) ==> quoted(s) == s && forall|i: int|
            0 <= i < s.len() ==> !is_white_space(#[trigger] s[i]) && s[i] != '"',
        s.len() > 0 && needs_quotes(s) ==> {
            let inner = escape_quotes(s);
            &&& quoted(s) == seq!['"'] + inner + seq!['"']
            &&& forall|i: int|
                0 <= i < inner.len() && #[trigger] inner[i] == '"' ==> i > 0 && inner[i - 1]
                    == '\\'
            &&& unescape_quotes(inner) == s
        },
{
    lemma_escape_quotes(s);
    if s.len() > 0 && !needs_quotes(s) {
        assert forall|i: int| 0 <= i < s.len() implies !is_white_space(#[trigger] s[i]) && s[i]
            != '"' by {
            if is_white_space(s[i]) || s[i] == '"' {
                assert(needs_quotes(s));
            }
        }
    }
}

/// The command that applies `verb` (`KickPlayer` or `BanPlayer`) to a player.
pub open spec fn player_command(
    verb: Seq<char>,
    kind: PlayerIdentifierKind,
    identifier: Seq<char>,
    message: Seq<char>,
) -> Seq<char> {
    verb + " "@ + kind_arg(kind) + " "@ + quoted(identifier) + " "@ + quoted(message)
}

/// In a kick or ban command the message is the last argument, written as
/// [`quote_arg`] writes it: the command is the verb, the identifier kind and
/// the written identifier, each followed by a space, and then the written
/// message. A message with white space or a quote thus ends the command as
/// one double-quoted token whose inner text reads back to the message.
pub proof fn law_player_command_arguments(
    verb: Seq<char>,
    kind: PlayerIdentifierKind,
    identifier: Seq<char>,
    message: Seq<char>,
)
    ensures
        ({
            let cmd = player_command(verb, kind, identifier, message);
            let head = verb + " "@ + kind_arg(kind) + " "@ + quoted(identifier) + " "@;
            let q = quoted(message);
            &&& cmd.len() == head.len() + q.len()
            &&& cmd.take(head.len() as int) == head
            &&& cmd.skip(head.len() as int) == q
            &&& cmd[head.len() - 1] == ' '
            &&& message.len() > 0 && needs_quotes(message) ==> {
                let inner = escape_quotes(message);
                &&& cmd.skip(cmd.len() - (inner.len() + 2)) == seq!['"'] + inner + seq!['"']
                &&& unescape_quotes(inner) == message
            }
        }),
{
    reveal_strlit(" ");
    law_quoted_argument_is_one_token(message);
    let cmd = player_command(verb, kind, identifier, message);
    let head = verb + " "@ + kind_arg(kind) + " "@ + quoted(identifier) + " "@;
    let q = quoted(message);
    assert(cmd =~= head + q);
    assert(cmd.take(head.len() as int) =~= head);
    assert(cmd.skip(head.len() as int) =~= q);
    assert(head[head.len() - 1] == ' ');
    if message.len() > 0 && needs_quotes(message) {
        let inner = escape_quotes(message);
        assert(q.len() == inner.len() + 2);
        assert(cmd.skip(cmd.len() - (inner.len() + 2)) =~= q);
    }
}

fn build_player_command(
    verb: &str,
    kind: PlayerIdentifierKind,
    identifier: &str,
    message: &str,
) -> (r: String)
    ensures
        r@ == player_command(verb@, kind, identifier@, message@),
{
    let mut cmd = String::from_str(verb);
    cmd.append(" ");
    cmd.append(kind.as_arg());
    cmd.append(" ");
    cmd.append(quote_arg(identifier).as_str());
    cmd.append(" ");
    cmd.append(quote_arg(message).as_str());
    cmd
}

/// `KickPlayer <kind> <identifier> <message>`, arguments quoted.
pub fn kick_command(input: &KickInput) -> (r: String)
    ensures
        r@ == player_command("KickPlayer"@, input.kind, input.identifier@, input.message@),
{
    build_player_command("KickPlayer", input.kind, input.identifier.as_str(), input.message.as_str())
}

/// `BanPlayer <kind> <identifier> <message>`, arguments quoted.
pub fn ban_command(input: &BanInput) -> (r: String)
    ensures
        r@ == player_command("BanPlayer"@, input.kind, input.identifier@, input.message@),
{
    build_player_command("BanPlayer", input.kind, input.identifier.as_str(), input.message.as_str())
}

/// `UnbanPlayer <user or platform id>`, the id quoted.
pub fn unban_command(user_or_platform_id: &str) -> (r: String)
    ensures
        r@ == "UnbanPlayer "@ + quoted(user_or_platform_id@),
{
    let mut cmd = String::from_str("UnbanPlayer ");
    cmd.append(quote_arg(user_or_platform_id).as_str());
    cmd
}

/// `broadcast <message>`; the message goes as it is, the rest of the line
/// being the broadcast text.
pub fn broadcast_command(message: &str) -> (r: String)
    ensures
        r@ == "broadcast "@ + message@,
{
    let mut cmd = String::from_str("broadcast ");
    cmd.append(message);
    cmd
}

/// What a broadcast reports for the server's reply: success for the
/// acknowledgement line, `Invalid` when the server answered with a syntax
/// error, and an RCON error quoting the reply otherwise.
pub fn broadcast_outcome(body: &str) -> (r: Result<(), AppError>)
    ensures
        trim(body@) == "Message has been broadcast."@ ==> r is Ok,
        trim(body@) != "Message has been broadcast."@ ==> match classify(body@) {
            GenericAckView::SyntaxError => r matches Err(AppError::Invalid { message })
                && message@ == "broadcast text was rejected by the server"@,
            _ => r matches Err(AppError::Rcon { message }) && message@
                == "unexpected broadcast response: "@ + body@,
        },
{
    if parse_broadcast_ack(body) {
        return Ok(());
    }
    if let GenericAck::SyntaxError = classify_ack(body) {
        return Err(AppError::invalid("broadcast text was rejected by the server"));
    }
    let mut message = String::from_str("unexpected broadcast response: ");
    message.append(body);
    Err(AppError::Rcon { message })
}


/// The error a panel command reports when a reply does not parse: an RCON
/// error whose message is `context` followed by the parse error's text.
pub fn unparsable_reply(context: &str, e: ParseError) -> (r: AppError)
    ensures
        r matches AppError::Rcon { message } && message@ == context@ + parse_error_text(e@),
{
    let mut message = String::from_str(context);
    message.append(e.to_string().as_str());
    AppError::Rcon { message }
}

/// The players in a `listplayers` reply, or the error the player list
/// reports when the reply does not parse.
pub fn players_from_reply(body: &str) -> (r: Result<Vec<Player>, AppError>)
    ensures
        match listplayers_result(body@) {
            Ok(ps) => r matches Ok(v) && player_views(v@) == ps,
            Err(e) => r matches Err(AppError::Rcon { message }) && message@
                == "could not parse listplayers response: "@ + parse_error_text(e),
        },
{
    match parse_listplayers(body) {
        Ok(players) => Ok(players),
        Err(e) => Err(unparsable_reply("could not parse listplayers response: ", e)),
    }
}

/// The bans in a `listbans` reply, or the error the ban list reports when
/// the reply does not parse.
pub fn bans_from_reply(body: &str) -> (r: Result<Vec<BannedPlayer>, AppError>)
    ensures
        r matches Ok(v) && ban_views(v@) == listbans_result(body@),
{
    match parse_listbans(body) {
        Ok(bans) => Ok(bans),
        Err(e) => Err(unparsable_reply("could not parse listbans response: ", e)),
    }
}

} // verus!

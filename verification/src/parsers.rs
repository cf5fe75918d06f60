//! Parsers for the bodies of Conan Exiles Enhanced RCON command responses.
//!
//! Each parser is a pure function of the response text. Its contract states
//! the result over the character view of the body, with the text operations
//! of [`crate::text`] (trimming, lines, pipe-separated cells).
use vstd::prelude::*;
use vstd::string::*;

use crate::text::{
    is_white_space, lemma_find_char_after, lemma_split_on_absent, lemma_trim_idempotent,
    lemma_trim_noop, lemma_trim_nonempty, strip_cr, join_on, lemma_split_join_on,
    lemma_join_on_lacks, lemma_join_on_edges, lemma_split_on_join,
    before_char, find_char, has_prefix, prefix_before, split_once, str_eq, strip_prefix,
    eq_ignore_ascii_case, lines, parse_u32, parse_u32_str, split_char, split_on, str_eq_ignore_ascii_case,
    trim, trim_str, lines_of, views,
};

verus! {

/// A single online player, one row of the `listplayers` table
/// (`Idx | Char name | Player name | User ID | Platform ID | Platform Name`).
#[derive(Clone, Debug, PartialEq, Eq)]
pub struct Player {
    pub idx: u32,
    pub char_name: String,
    pub player_name: String,
    pub user_id: String,
    pub platform_id: String,
    pub platform_name: String,
}

/// The abstract value of a [`Player`].
pub struct PlayerView {
    pub idx: u32,
    pub char_name: Seq<char>,
    pub player_name: Seq<char>,
    pub user_id: Seq<char>,
    pub platform_id: Seq<char>,
    pub platform_name: Seq<char>,
}

impl View for Player {
    type V = PlayerView;

    open spec fn view(&self) -> PlayerView {
        PlayerView {
            idx: self.idx,
            char_name: self.char_name@,
            player_name: self.player_name@,
            user_id: self.user_id@,
            platform_id: self.platform_id@,
            platform_name: self.platform_name@,
        }
    }
}

/// One row of the `listbans` table.
#[derive(Clone, Debug, PartialEq, Eq)]
pub struct BannedPlayer {
    pub user_id: String,
    pub platform_id: String,
    pub player_name: Option<String>,
    pub reason: Option<String>,
}

/// The abstract value of a [`BannedPlayer`].
pub struct BannedPlayerView {
    pub user_id: Seq<char>,
    pub platform_id: Seq<char>,
    pub player_name: Option<Seq<char>>,
    pub reason: Option<Seq<char>>,
}

/// The view of an optional string.
pub open spec fn opt_view(o: Option<String>) -> Option<Seq<char>> {
    match o {
        Some(s) => Some(s@),
        None => None,
    }
}

impl View for BannedPlayer {
    type V = BannedPlayerView;

    open spec fn view(&self) -> BannedPlayerView {
        BannedPlayerView {
            user_id: self.user_id@,
            platform_id: self.platform_id@,
            player_name: opt_view(self.player_name),
            reason: opt_view(self.reason),
        }
    }
}

/// Why a response body could not be parsed.
#[derive(Debug)]
pub enum ParseError {
    /// The response body was empty.
    Empty,
    /// The first line was not the expected table header; carries that line.
    UnexpectedHeader(String),
    /// The first cell of a row was not a numeric index; carries that cell.
    BadIndex(String),
    /// The server returned a no-data acknowledgement.
    NoData,
    /// The response had an unexpected shape; carries the trimmed body.
    UnexpectedFormat(String),
}

/// What `Debug` writes for a string: the text in double quotes, with
/// quotes, backslashes and non-printable characters escaped.
pub uninterp spec fn debug_text(s: Seq<char>) -> Seq<char>;

/// Formats a string with `Debug` (`format!("{:?}", s)`). The text is a
/// function of the string alone; std's escaping rules are not restated.
#[verifier::external_body]
fn debug_string(s: &str) -> (r: String)
    ensures
        r@ == debug_text(s@),
{
    format!("{:?}", s)
}

/// The user-facing text of a parse error; the carried text is shown as
/// `Debug` writes it.
pub open spec fn parse_error_text(e: ParseErrorView) -> Seq<char> {
    match e {
        ParseErrorView::Empty => "response body was empty"@,
        ParseErrorView::UnexpectedHeader(h) => "unexpected header: "@ + debug_text(h),
        ParseErrorView::BadIndex(c) => "first column was not a numeric index: "@ + debug_text(c),
        ParseErrorView::NoData => "server returned a no-data acknowledgement"@,
        ParseErrorView::UnexpectedFormat(b) => "unexpected response format: "@ + debug_text(b),
    }
}

impl ParseError {
    /// The user-facing text of the error.
    pub fn to_string(&self) -> (s: String)
        ensures
            s@ == parse_error_text(self@),
    {
        match self {
            ParseError::Empty => String::from_str("response body was empty"),
            ParseError::UnexpectedHeader(h) => String::from_str("unexpected header: ").concat(
                debug_string(h.as_str()).as_str(),
            ),
            ParseError::BadIndex(c) => String::from_str(
                "first column was not a numeric index: ",
            ).concat(debug_string(c.as_str()).as_str()),
            ParseError::NoData => String::from_str("server returned a no-data acknowledgement"),
            ParseError::UnexpectedFormat(b) => String::from_str(
                "unexpected response format: ",
            ).concat(debug_string(b.as_str()).as_str()),
        }
    }
}

/// The abstract value of a [`ParseError`].
pub enum ParseErrorView {
    Empty,
    UnexpectedHeader(Seq<char>),
    BadIndex(Seq<char>),
    NoData,
    UnexpectedFormat(Seq<char>),
}

impl View for ParseError {
    type V = ParseErrorView;

    open spec fn view(&self) -> ParseErrorView {
        match self {
            ParseError::Empty => ParseErrorView::Empty,
            ParseError::UnexpectedHeader(s) => ParseErrorView::UnexpectedHeader(s@),
            ParseError::BadIndex(s) => ParseErrorView::BadIndex(s@),
            ParseError::NoData => ParseErrorView::NoData,
            ParseError::UnexpectedFormat(s) => ParseErrorView::UnexpectedFormat(s@),
        }
    }
}

/// The views of a sequence of strings.
pub open spec fn string_views(v: Seq<String>) -> Seq<Seq<char>> {
    v.map_values(|x: String| x@)
}

/// The trimmed cells of a pipe-separated table row.
pub open spec fn pipe_cells(line: Seq<char>) -> Seq<Seq<char>> {
    split_on(line, '|').map_values(|p: Seq<char>| trim(p))
}

/// Split a table row at `|` and trim every cell.
pub fn split_pipe_row(line: &str) -> (cells: Vec<String>)
    ensures
        string_views(cells@) == pipe_cells(line@),
{
    let pieces = split_char(line, '|');
    let mut cells: Vec<String> = Vec::new();
    let mut k: usize = 0;
    while k < pieces.len()
        invariant
            k <= pieces.len(),
            views(pieces@) == split_on(line@, '|'),
            string_views(cells@) =~= views(pieces@).take(k as int).map_values(
                |p: Seq<char>| trim(p),
            ),
        decreases pieces.len() - k,
    {
        let cell = trim_str(pieces[k]).to_owned();
        let ghost before = cells@;
        cells.push(cell);
        proof {
            assert(cells@ =~= before.push(cell));
            assert(string_views(cells@) =~= string_views(before).push(cell@));
            assert(views(pieces@).take(k + 1) =~= views(pieces@).take(k as int).push(
                views(pieces@)[k as int],
            ));
        }
        k = k + 1;
    }
    cells
}

/// Whether `line` is the header row of the `listplayers` table: at least six
/// cells, the first four being `Idx`, `Char name`, `Player name` and
/// `User ID` up to ASCII case.
pub open spec fn is_listplayers_header_line(line: Seq<char>) -> bool {
    let cells = pipe_cells(line);
    &&& cells.len() >= 6
    &&& eq_ignore_ascii_case(cells[0], "Idx"@)
    &&& eq_ignore_ascii_case(cells[1], "Char name"@)
    &&& eq_ignore_ascii_case(cells[2], "Player name"@)
    &&& eq_ignore_ascii_case(cells[3], "User ID"@)
}

/// Executable [`is_listplayers_header_line`].
pub fn is_listplayers_header(line: &str) -> (b: bool)
    ensures
        b == is_listplayers_header_line(line@),
{
    let cells = split_pipe_row(line);
    cells.len() >= 6 && str_eq_ignore_ascii_case(cells[0].as_str(), "Idx")
        && str_eq_ignore_ascii_case(cells[1].as_str(), "Char name") && str_eq_ignore_ascii_case(
        cells[2].as_str(),
        "Player name",
    ) && str_eq_ignore_ascii_case(cells[3].as_str(), "User ID")
}

/// The lines of `ls` that are not blank once trimmed, in order.
pub open spec fn nonblank(ls: Seq<Seq<char>>) -> Seq<Seq<char>>
    decreases ls.len(),
{
    if ls.len() == 0 {
        ls
    } else if trim(ls.last()).len() > 0 {
        nonblank(ls.drop_last()).push(ls.last())
    } else {
        nonblank(ls.drop_last())
    }
}

/// The player that a row of at least six cells describes.
pub open spec fn player_of(idx: u32, cells: Seq<Seq<char>>) -> PlayerView {
    PlayerView {
        idx,
        char_name: cells[1],
        player_name: cells[2],
        user_id: cells[3],
        platform_id: cells[4],
        platform_name: cells[5],
    }
}

/// The players that the data rows of `listplayers` describe. Rows of fewer
/// than six cells are skipped; the first row whose index cell is not a
/// `u32` fails the parse with that cell.
pub open spec fn player_rows(rows: Seq<Seq<char>>) -> Result<Seq<PlayerView>, ParseErrorView>
    decreases rows.len(),
{
    if rows.len() == 0 {
        Ok(Seq::empty())
    } else {
        match player_rows(rows.drop_last()) {
            Err(e) => Err(e),
            Ok(ps) => {
                let cells = pipe_cells(rows.last());
                if cells.len() < 6 {
                    Ok(ps)
                } else {
                    match parse_u32(cells[0]) {
                        None => Err(ParseErrorView::BadIndex(cells[0])),
                        Some(idx) => Ok(ps.push(player_of(idx, cells))),
                    }
                }
            },
        }
    }
}

/// Once a prefix of the rows fails, every longer prefix fails the same way.
pub proof fn lemma_player_rows_error_persists(rows: Seq<Seq<char>>, j: int)
    requires
        0 <= j <= rows.len(),
        player_rows(rows.take(j)) is Err,
    ensures
        player_rows(rows) == player_rows(rows.take(j)),
    decreases rows.len() - j,
{
    if j < rows.len() {
        assert(rows.take(j + 1).drop_last() =~= rows.take(j));
        lemma_player_rows_error_persists(rows, j + 1);
    } else {
        assert(rows.take(j) =~= rows);
    }
}

/// What `listplayers` returns for `body`: the non-blank lines must start with
/// the table header, and the rows after it are the players.
pub open spec fn listplayers_result(body: Seq<char>) -> Result<Seq<PlayerView>, ParseErrorView> {
    let ls = nonblank(lines(body));
    if ls.len() == 0 {
        Err(ParseErrorView::Empty)
    } else if !is_listplayers_header_line(ls[0]) {
        Err(ParseErrorView::UnexpectedHeader(ls[0]))
    } else {
        player_rows(ls.drop_first())
    }
}

/// The views of a list of players.
pub open spec fn player_views(v: Seq<Player>) -> Seq<PlayerView> {
    v.map_values(|p: Player| p@)
}

/// The lines of `body` that are not blank.
pub fn nonblank_lines(body: &str) -> (r: Vec<&str>)
    ensures
        views(r@) == nonblank(lines(body@)),
{
    let all = lines_of(body);
    let mut out: Vec<&str> = Vec::new();
    let mut k: usize = 0;
    while k < all.len()
        invariant
            k <= all.len(),
            views(all@) == lines(body@),
            views(out@) == nonblank(views(all@).take(k as int)),
        decreases all.len() - k,
    {
        let line = all[k];
        let ghost before = out@;
        proof {
            assert(views(all@).take(k + 1).drop_last() =~= views(all@).take(k as int));
            assert(views(all@).take(k + 1).last() == line@);
        }
        if !trim_str(line).is_empty() {
            out.push(line);
            proof {
                assert(out@ =~= before.push(line));
                assert(views(out@) =~= views(before).push(line@));
            }
        }
        k = k + 1;
    }
    proof {
        assert(views(all@).take(all.len() as int) =~= views(all@));
    }
    out
}

/// Parse the response of `listplayers` into the online players.
///
/// An empty server answers with the header row alone, which gives no
/// players. Blank lines are ignored; rows of fewer than six cells are
/// skipped; a missing or different header is an error, as is a row whose
/// first cell is not a numeric index.
pub fn parse_listplayers(body: &str) -> (r: Result<Vec<Player>, ParseError>)
    ensures
        match r {
            Ok(ps) => listplayers_result(body@) == Ok::<Seq<PlayerView>, ParseErrorView>(
                player_views(ps@),
            ),
            Err(e) => listplayers_result(body@) == Err::<Seq<PlayerView>, ParseErrorView>(e@),
        },
{
    let ls = nonblank_lines(body);
    if ls.len() == 0 {
        return Err(ParseError::Empty);
    }
    let header = ls[0];
    if !is_listplayers_header(header) {
        return Err(ParseError::UnexpectedHeader(header.to_owned()));
    }
    let ghost rows = views(ls@).drop_first();
    let mut players: Vec<Player> = Vec::new();
    proof {
        assert(rows.take(0) =~= Seq::<Seq<char>>::empty());
        assert(player_views(players@) =~= Seq::<PlayerView>::empty());
    }
    let mut k: usize = 1;
    while k < ls.len()
        invariant
            1 <= k <= ls.len(),
            rows == views(ls@).drop_first(),
            rows.len() == ls.len() - 1,
            listplayers_result(body@) == player_rows(rows),
            player_rows(rows.take(k - 1)) == Ok::<Seq<PlayerView>, ParseErrorView>(
                player_views(players@),
            ),
        decreases ls.len() - k,
    {
        let line = ls[k];
        let ghost seen = rows.take(k as int);
        proof {
            assert(seen.drop_last() =~= rows.take(k - 1));
            assert(seen.last() == line@);
        }
        let cells = split_pipe_row(line);
        if cells.len() >= 6 {
            match parse_u32_str(cells[0].as_str()) {
                None => {
                    proof {
                        lemma_player_rows_error_persists(rows, k as int);
                    }
                    return Err(ParseError::BadIndex(cells[0].clone()));
                },
                Some(idx) => {
                    let p = Player {
                        idx,
                        char_name: cells[1].clone(),
                        player_name: cells[2].clone(),
                        user_id: cells[3].clone(),
                        platform_id: cells[4].clone(),
                        platform_name: cells[5].clone(),
                    };
                    let ghost before = players@;
                    players.push(p);
                    proof {
                        assert(players@ =~= before.push(p));
                        assert(player_views(players@) =~= player_views(before).push(p@));
                    }
                },
            }
        }
        k = k + 1;
    }
    proof {
        assert(rows.take(ls.len() - 1) =~= rows);
    }
    Ok(players)
}


/// The ban that a row of at least two cells describes; the third and
/// fourth cells, when present, are the player name and the reason.
pub open spec fn ban_of(cells: Seq<Seq<char>>) -> BannedPlayerView {
    BannedPlayerView {
        user_id: cells[0],
        platform_id: cells[1],
        player_name: if cells.len() > 2 {
            Some(cells[2])
        } else {
            None
        },
        reason: if cells.len() > 3 {
            Some(cells[3])
        } else {
            None
        },
    }
}

/// The bans that the lines `ls` list: blank lines and rows of fewer than
/// two cells are skipped.
pub open spec fn ban_rows(ls: Seq<Seq<char>>) -> Seq<BannedPlayerView>
    decreases ls.len(),
{
    if ls.len() == 0 {
        Seq::empty()
    } else {
        let init = ban_rows(ls.drop_last());
        let cells = pipe_cells(ls.last());
        if trim(ls.last()).len() > 0 && cells.len() >= 2 {
            init.push(ban_of(cells))
        } else {
            init
        }
    }
}

/// What `listbans` returns for `body`: no bans for the generic
/// `Successfully executed:` acknowledgement, else one ban per table row.
pub open spec fn listbans_result(body: Seq<char>) -> Seq<BannedPlayerView> {
    let t = trim(body);
    if has_prefix(t, "Successfully executed:"@) {
        Seq::empty()
    } else {
        ban_rows(lines(t))
    }
}

/// The views of a list of bans.
pub open spec fn ban_views(v: Seq<BannedPlayer>) -> Seq<BannedPlayerView> {
    v.map_values(|b: BannedPlayer| b@)
}

/// A copy of the string at `i` of `cells`, if there is one (`cells.get(i).cloned()`).
fn cell_at(cells: &Vec<String>, i: usize) -> (r: Option<String>)
    ensures
        opt_view(r) == if i < cells@.len() {
            Some(cells@[i as int]@)
        } else {
            None::<Seq<char>>
        },
{
    if i < cells.len() {
        Some(cells[i].clone())
    } else {
        None
    }
}

/// Parse a `listbans` response into the banned players. The generic
/// `Successfully executed:` acknowledgement, which the server sends when
/// there are no bans, gives an empty list; otherwise every pipe-separated
/// row of at least two cells is one ban. This parse never fails.
pub fn parse_listbans(body: &str) -> (r: Result<Vec<BannedPlayer>, ParseError>)
    ensures
        r matches Ok(bans) && ban_views(bans@) == listbans_result(body@),
{
    let trimmed = trim_str(body);
    if strip_prefix(trimmed, "Successfully executed:").is_some() {
        let bans: Vec<BannedPlayer> = Vec::new();
        proof {
            assert(ban_views(bans@) =~= Seq::<BannedPlayerView>::empty());
        }
        return Ok(bans);
    }
    let all = lines_of(trimmed);
    let mut bans: Vec<BannedPlayer> = Vec::new();
    let mut k: usize = 0;
    proof {
        assert(views(all@).take(0) =~= Seq::<Seq<char>>::empty());
        assert(ban_views(bans@) =~= Seq::<BannedPlayerView>::empty());
    }
    while k < all.len()
        invariant
            k <= all.len(),
            views(all@) == lines(trimmed@),
            ban_views(bans@) == ban_rows(views(all@).take(k as int)),
        decreases all.len() - k,
    {
        let line = all[k];
        proof {
            assert(views(all@).take(k + 1).drop_last() =~= views(all@).take(k as int));
            assert(views(all@).take(k + 1).last() == line@);
        }
        if !trim_str(line).is_empty() {
            let cells = split_pipe_row(line);
            if cells.len() >= 2 {
                let b = BannedPlayer {
                    user_id: cells[0].clone(),
                    platform_id: cells[1].clone(),
                    player_name: cell_at(&cells, 2),
                    reason: cell_at(&cells, 3),
                };
                let ghost before = bans@;
                bans.push(b);
                proof {
                    assert(bans@ =~= before.push(b));
                    assert(ban_views(bans@) =~= ban_views(before).push(b@));
                }
            }
        }
        k = k + 1;
    }
    proof {
        assert(views(all@).take(all.len() as int) =~= views(all@));
    }
    Ok(bans)
}

/// The line the server sends for a setting it does not know.
pub open spec fn setting_not_found(key: Seq<char>) -> Seq<char> {
    "Server setting '"@ + key + "' not found."@
}

/// What `GetServerSetting <key>` returns for `body`: `Key=Value` (the key
/// compared up to ASCII case) gives the value, possibly empty; the
/// not-found line gives no value; anything else is an error carrying the
/// trimmed body.
pub open spec fn server_setting_result(body: Seq<char>, key: Seq<char>) -> Result<
    Option<Seq<char>>,
    ParseErrorView,
> {
    let t = trim(body);
    let eq = find_char(t, '=');
    if t == setting_not_found(key) {
        Ok(None)
    } else if eq >= 0 && eq_ignore_ascii_case(t.take(eq), key) {
        Ok(Some(t.skip(eq + 1)))
    } else {
        Err(ParseErrorView::UnexpectedFormat(t))
    }
}

/// Parse a `GetServerSetting <key>` response.
///
/// - `Key=Value` gives `Ok(Some(value))`; `Key=` gives `Some("")`.
/// - `Server setting '<key>' not found.` gives `Ok(None)`.
/// - Anything else gives `Err(ParseError::UnexpectedFormat(..))`.
pub fn parse_get_server_setting(body: &str, key: &str) -> (r: Result<Option<String>, ParseError>)
    ensures
        match r {
            Ok(v) => server_setting_result(body@, key@) == Ok::<
                Option<Seq<char>>,
                ParseErrorView,
            >(opt_view(v)),
            Err(e) => server_setting_result(body@, key@) == Err::<
                Option<Seq<char>>,
                ParseErrorView,
            >(e@),
        },
{
    let trimmed = trim_str(body);
    let mut marker = String::from_str("Server setting '");
    marker.append(key);
    marker.append("' not found.");
    if str_eq(trimmed, marker.as_str()) {
        return Ok(None);
    }
    if let Some((k, v)) = split_once(trimmed, '=') {
        if str_eq_ignore_ascii_case(k, key) {
            return Ok(Some(v.to_owned()));
        }
    }
    Err(ParseError::UnexpectedFormat(trimmed.to_owned()))
}

/// Whether `broadcast <message>` was acknowledged: the trimmed body is the
/// server's success line.
pub fn parse_broadcast_ack(body: &str) -> (b: bool)
    ensures
        b == (trim(body@) == "Message has been broadcast."@),
{
    str_eq(trim_str(body), "Message has been broadcast.")
}

/// What kind of acknowledgement a generic command returned.
#[derive(Debug, PartialEq, Eq)]
pub enum GenericAck<'a> {
    /// `Successfully executed: <cmd>`: the operation succeeded, no payload.
    Success { command: &'a str },
    /// `Couldn't find the command: X. Try "help"`: the caller mistyped.
    UnknownCommand { command: &'a str },
    /// `Syntax error, see help for usage.`
    SyntaxError,
    /// Anything else: command-specific output.
    Other,
}

/// The abstract value of a [`GenericAck`].
pub enum GenericAckView {
    Success(Seq<char>),
    UnknownCommand(Seq<char>),
    SyntaxError,
    Other,
}

impl<'a> View for GenericAck<'a> {
    type V = GenericAckView;

    open spec fn view(&self) -> GenericAckView {
        match self {
            GenericAck::Success { command } => GenericAckView::Success(command@),
            GenericAck::UnknownCommand { command } => GenericAckView::UnknownCommand(command@),
            GenericAck::SyntaxError => GenericAckView::SyntaxError,
            GenericAck::Other => GenericAckView::Other,
        }
    }
}

/// How a trimmed response body classifies.
pub open spec fn classify(body: Seq<char>) -> GenericAckView {
    let t = trim(body);
    let ok = "Successfully executed: "@;
    let unknown = "Couldn't find the command: "@;
    if has_prefix(t, ok) {
        GenericAckView::Success(t.skip(ok.len() as int))
    } else if has_prefix(t, unknown) {
        GenericAckView::UnknownCommand(before_char(t.skip(unknown.len() as int), '.'))
    } else if t == "Syntax error, see help for usage."@ {
        GenericAckView::SyntaxError
    } else {
        GenericAckView::Other
    }
}

/// Classify the response of a command with no specific output. The
/// command named in a success or unknown-command line borrows from `body`.
pub fn classify_ack(body: &str) -> (r: GenericAck<'_>)
    ensures
        r@ == classify(body@),
{
    let trimmed = trim_str(body);
    if let Some(rest) = strip_prefix(trimmed, "Successfully executed: ") {
        return GenericAck::Success { command: rest };
    }
    if let Some(rest) = strip_prefix(trimmed, "Couldn't find the command: ") {
        let cmd = prefix_before(rest, '.');
        return GenericAck::UnknownCommand { command: cmd };
    }
    if str_eq(trimmed, "Syntax error, see help for usage.") {
        return GenericAck::SyntaxError;
    }
    GenericAck::Other
}


/// Surrounding white space does not change how a body classifies, whether
/// a setting parses, or whether a broadcast was acknowledged.
pub proof fn law_surrounding_space_is_ignored(body: Seq<char>, key: Seq<char>)
    ensures
        classify(trim(body)) == classify(body),
        server_setting_result(trim(body), key) == server_setting_result(body, key),
        (trim(trim(body)) == "Message has been broadcast."@) == (trim(body)
            == "Message has been broadcast."@),
{
    lemma_trim_idempotent(body);
}

/// A `Key=Value` line, for a key without `=` and no white space around the
/// line, parses to `Value`.
pub proof fn law_setting_line_gives_value(key: Seq<char>, value: Seq<char>)
    requires
        !key.contains('='),
        key.len() == 0 || !is_white_space(key[0]),
        value.len() == 0 || !is_white_space(value.last()),
    ensures
        server_setting_result(key + seq!['='] + value, key) == Ok::<
            Option<Seq<char>>,
            ParseErrorView,
        >(Some(value)),
{
    let line = key + seq!['='] + value;
    lemma_find_char_after(key, '=', value);
    if key.len() > 0 {
        assert(line[0] == key[0]);
    }
    if value.len() > 0 {
        assert(line.last() == value.last());
    }
    lemma_trim_noop(line);
    assert(line.take(key.len() as int) =~= key);
    assert(line.skip(key.len() as int + 1) =~= value);
    let marker = setting_not_found(key);
    reveal_strlit("Server setting '");
    reveal_strlit("' not found.");
    assert(line[key.len() as int] == '=');
    if line == marker {
        let j = key.len() as int;
        if j < 16 {
            assert(marker[j] == "Server setting '"@[j]);
        } else if j < 16 + key.len() {
            assert(marker[j] == key[j - 16]);
        } else {
            assert(marker[j] == "' not found."@[j - 16 - key.len()]);
        }
    }
}

/// The server's not-found line for a key parses to no value.
pub proof fn law_setting_not_found_gives_none(key: Seq<char>)
    ensures
        server_setting_result(setting_not_found(key), key) == Ok::<
            Option<Seq<char>>,
            ParseErrorView,
        >(None),
{
    reveal_strlit("Server setting '");
    reveal_strlit("' not found.");
    let marker = setting_not_found(key);
    assert(marker[0] == 'S');
    assert(marker.last() == '.');
    lemma_trim_noop(marker);
}

/// `Successfully executed: <cmd>` classifies as a success naming `cmd`,
/// for a non-empty `cmd` that does not end in white space.
pub proof fn law_success_line_names_command(cmd: Seq<char>)
    requires
        cmd.len() > 0,
        !is_white_space(cmd.last()),
    ensures
        classify("Successfully executed: "@ + cmd) == GenericAckView::Success(cmd),
{
    reveal_strlit("Successfully executed: ");
    let ok = "Successfully executed: "@;
    let line = ok + cmd;
    assert(line[0] == 'S');
    assert(line.last() == cmd.last());
    lemma_trim_noop(line);
    assert(line.take(ok.len() as int) =~= ok);
    assert(line.skip(ok.len() as int) =~= cmd);
}

/// `Couldn't find the command: <name>.<rest>` classifies as an unknown
/// command naming `name`, for a `name` without `.` and a line that does not
/// end in white space.
pub proof fn law_unknown_command_line_names_command(name: Seq<char>, rest: Seq<char>)
    requires
        !name.contains('.'),
        rest.len() == 0 || !is_white_space(rest.last()),
    ensures
        classify("Couldn't find the command: "@ + name + seq!['.'] + rest)
            == GenericAckView::UnknownCommand(name),
{
    reveal_strlit("Successfully executed: ");
    reveal_strlit("Couldn't find the command: ");
    let unknown = "Couldn't find the command: "@;
    let line = unknown + name + seq!['.'] + rest;
    assert(line[0] == 'C');
    if rest.len() > 0 {
        assert(line.last() == rest.last());
    } else {
        assert(line.last() == '.');
    }
    lemma_trim_noop(line);
    assert(!has_prefix(line, "Successfully executed: "@)) by {
        assert(line.take(23)[0] == 'C');
    }
    assert(line.take(unknown.len() as int) =~= unknown);
    assert(line.skip(unknown.len() as int) =~= name + seq!['.'] + rest);
    lemma_find_char_after(name, '.', rest);
    assert((name + seq!['.'] + rest).take(name.len() as int) =~= name);
}

/// A malformed row (fewer than six cells) is skipped without losing the
/// rows around it: the players are those of the other rows.
pub proof fn law_malformed_row_is_skipped(
    before: Seq<Seq<char>>,
    malformed: Seq<char>,
    after: Seq<Seq<char>>,
)
    requires
        pipe_cells(malformed).len() < 6,
    ensures
        player_rows(before.push(malformed) + after) == player_rows(before + after),
    decreases after.len(),
{
    if after.len() == 0 {
        assert(before.push(malformed) + after =~= before.push(malformed));
        assert(before + after =~= before);
        assert(before.push(malformed).drop_last() =~= before);
    } else {
        let shorter = after.drop_last();
        law_malformed_row_is_skipped(before, malformed, shorter);
        assert((before.push(malformed) + after).drop_last() =~= before.push(malformed) + shorter);
        assert((before + after).drop_last() =~= before + shorter);
        assert((before.push(malformed) + after).last() == after.last());
        assert((before + after).last() == after.last());
    }
}

/// A body that is a `listplayers` header line alone (an empty server)
/// parses to no players.
pub proof fn law_header_alone_gives_no_players(header: Seq<char>)
    requires
        is_listplayers_header_line(header),
        !header.contains('\n'),
    ensures
        listplayers_result(header) == Ok::<Seq<PlayerView>, ParseErrorView>(Seq::empty()),
{
    lemma_split_on_absent(header, '\n');
    let pieces = split_on(header, '\n');
    assert(pieces.take(0).map_values(|p: Seq<char>| strip_cr(p)) =~= Seq::<Seq<char>>::empty());
    // A header has cells, so it holds a `|`, so it is not blank.
    assert(header.contains('|')) by {
        if !header.contains('|') {
            lemma_split_on_absent(header, '|');
        }
    }
    let j = choose|j: int| 0 <= j < header.len() && header[j] == '|';
    lemma_trim_nonempty(header, j);
    if header.len() == 0 {
        assert(pieces[0].len() == 0);
    }
    assert(lines(header) =~= seq![header]);
    assert(seq![header].drop_last() =~= Seq::<Seq<char>>::empty());
    assert(nonblank(Seq::<Seq<char>>::empty()) == Seq::<Seq<char>>::empty());
    assert(seq![header].last() == header);
    assert(trim(header).len() > 0);
    assert(nonblank(seq![header]) == nonblank(Seq::<Seq<char>>::empty()).push(header));
    assert(nonblank(seq![header]) =~= seq![header]);
    assert(seq![header].drop_first() =~= Seq::<Seq<char>>::empty());
}


/// Rows of at least six cells with a numeric first cell give one player
/// each, in order, with the row's cells as the player's fields.
proof fn lemma_well_formed_player_rows(rows: Seq<Seq<char>>)
    requires
        forall|k: int|
            0 <= k < rows.len() ==> (pipe_cells(#[trigger] rows[k]).len() >= 6 && parse_u32(
                pipe_cells(rows[k])[0],
            ) is Some),
    ensures
        (player_rows(rows) matches Ok(ps) && ps.len() == rows.len() && forall|k: int|
            #![trigger ps[k]]
            0 <= k < ps.len() ==> {
                let c = pipe_cells(rows[k]);
                &&& parse_u32(c[0]) == Some(ps[k].idx)
                &&& ps[k].char_name == c[1]
                &&& ps[k].player_name == c[2]
                &&& ps[k].user_id == c[3]
                &&& ps[k].platform_id == c[4]
                &&& ps[k].platform_name == c[5]
            }),
    decreases rows.len(),
{
    if rows.len() > 0 {
        let init = rows.drop_last();
        assert forall|k: int| 0 <= k < init.len() implies (pipe_cells(#[trigger] init[k]).len()
            >= 6 && parse_u32(pipe_cells(init[k])[0]) is Some) by {
            assert(init[k] == rows[k]);
        }
        lemma_well_formed_player_rows(init);
        let prev = player_rows(init)->Ok_0;
        let n = rows.len() - 1;
        assert(rows.last() == rows[n]);
        let ps = player_rows(rows)->Ok_0;
        let cn = pipe_cells(rows[n]);
        assert(ps == prev.push(player_of(parse_u32(cn[0])->Some_0, cn)));
        assert forall|k: int| #![trigger ps[k]] 0 <= k < ps.len() implies ({
            let c = pipe_cells(rows[k]);
            &&& parse_u32(c[0]) == Some(ps[k].idx)
            &&& ps[k].char_name == c[1]
            &&& ps[k].player_name == c[2]
            &&& ps[k].user_id == c[3]
            &&& ps[k].platform_id == c[4]
            &&& ps[k].platform_name == c[5]
        }) by {
            if k < n {
                assert(init[k] == rows[k]);
                assert(ps[k] == prev[k]);
            }
        }
    }
}

/// For a `listplayers` reply whose non-blank lines are the table header and
/// then rows of at least six cells, each with a numeric first cell, the
/// players are the rows in order: the k-th player's index is the number in
/// the k-th row's first cell, and its character name, player name, user id,
/// platform id and platform name are that row's next five cells, trimmed.
pub proof fn law_listplayers_rows_are_players(body: Seq<char>)
    requires
        nonblank(lines(body)).len() >= 1,
        is_listplayers_header_line(nonblank(lines(body))[0]),
        forall|k: int|
            1 <= k < nonblank(lines(body)).len() ==> (pipe_cells(
                #[trigger] nonblank(lines(body))[k],
            ).len() >= 6 && parse_u32(pipe_cells(nonblank(lines(body))[k])[0]) is Some),
    ensures
        (listplayers_result(body) matches Ok(ps) && ps.len() == nonblank(lines(body)).len() - 1
            && forall|k: int|
            #![trigger ps[k]]
            0 <= k < ps.len() ==> {
                let c = pipe_cells(nonblank(lines(body))[k + 1]);
                &&& parse_u32(c[0]) == Some(ps[k].idx)
                &&& ps[k].char_name == c[1]
                &&& ps[k].player_name == c[2]
                &&& ps[k].user_id == c[3]
                &&& ps[k].platform_id == c[4]
                &&& ps[k].platform_name == c[5]
            }),
{
    let ls = nonblank(lines(body));
    let rows = ls.drop_first();
    assert forall|k: int| 0 <= k < rows.len() implies (pipe_cells(#[trigger] rows[k]).len() >= 6
        && parse_u32(pipe_cells(rows[k])[0]) is Some) by {
        assert(rows[k] == ls[k + 1]);
    }
    lemma_well_formed_player_rows(rows);
    let ps = listplayers_result(body)->Ok_0;
    assert forall|k: int| 0 <= k < ps.len() implies #[trigger] rows[k] == ls[k + 1] by {}
}

/// Rows of at least two cells, none blank, give one ban each, in order.
proof fn lemma_well_formed_ban_rows(rows: Seq<Seq<char>>)
    requires
        forall|k: int|
            0 <= k < rows.len() ==> (trim(#[trigger] rows[k]).len() > 0 && pipe_cells(
                rows[k],
            ).len() >= 2),
    ensures
        ban_rows(rows).len() == rows.len(),
        forall|k: int|
            #![trigger ban_rows(rows)[k]]
            0 <= k < rows.len() ==> {
                let c = pipe_cells(rows[k]);
                let b = ban_rows(rows)[k];
                &&& b.user_id == c[0]
                &&& b.platform_id == c[1]
                &&& b.player_name == (if c.len() > 2 { Some(c[2]) } else { None })
                &&& b.reason == (if c.len() > 3 { Some(c[3]) } else { None })
            },
    decreases rows.len(),
{
    if rows.len() > 0 {
        let init = rows.drop_last();
        assert forall|k: int| 0 <= k < init.len() implies (trim(#[trigger] init[k]).len() > 0
            && pipe_cells(init[k]).len() >= 2) by {
            assert(init[k] == rows[k]);
        }
        lemma_well_formed_ban_rows(init);
        let n = rows.len() - 1;
        assert(rows.last() == rows[n]);
        let bs = ban_rows(rows);
        assert(bs == ban_rows(init).push(ban_of(pipe_cells(rows[n]))));
        assert forall|k: int| #![trigger ban_rows(rows)[k]] 0 <= k < rows.len() implies ({
            let c = pipe_cells(rows[k]);
            let b = ban_rows(rows)[k];
            &&& b.user_id == c[0]
            &&& b.platform_id == c[1]
            &&& b.player_name == (if c.len() > 2 { Some(c[2]) } else { None })
            &&& b.reason == (if c.len() > 3 { Some(c[3]) } else { None })
        }) by {
            if k < n {
                assert(init[k] == rows[k]);
                assert(bs[k] == ban_rows(init)[k]);
            }
        }
    }
}

/// For a `listbans` reply that is not the `Successfully executed:`
/// acknowledgement and whose lines are all rows of at least two cells, the
/// bans are the rows in order: the k-th ban's user id is the k-th row's
/// first cell and its platform id the second; the third and fourth cells,
/// where the row has them, are the player name and the reason.
pub proof fn law_listbans_rows_are_bans(body: Seq<char>)
    requires
        !has_prefix(trim(body), "Successfully executed:"@),
        forall|k: int|
            0 <= k < lines(trim(body)).len() ==> (trim(#[trigger] lines(trim(body))[k]).len()
                > 0 && pipe_cells(lines(trim(body))[k]).len() >= 2),
    ensures
        listbans_result(body).len() == lines(trim(body)).len(),
        forall|k: int|
            #![trigger listbans_result(body)[k]]
            0 <= k < lines(trim(body)).len() ==> {
                let c = pipe_cells(lines(trim(body))[k]);
                let b = listbans_result(body)[k];
                &&& b.user_id == c[0]
                &&& b.platform_id == c[1]
                &&& b.player_name == (if c.len() > 2 { Some(c[2]) } else { None })
                &&& b.reason == (if c.len() > 3 { Some(c[3]) } else { None })
            },
{
    lemma_well_formed_ban_rows(lines(trim(body)));
}

/// A cell that can be written into a table row as it is: no `|`, no line
/// break, and no white space at either end.
pub open spec fn is_bare_cell(c: Seq<char>) -> bool {
    &&& !c.contains('|')
    &&& !c.contains('\n')
    &&& c.len() == 0 || (!is_white_space(c[0]) && !is_white_space(c.last()))
}

/// Bare cells written with `|` between them read back as the same cells.
proof fn lemma_pipe_cells_of_join(cells: Seq<Seq<char>>)
    requires
        cells.len() >= 1,
        forall|k: int| 0 <= k < cells.len() ==> is_bare_cell(#[trigger] cells[k]),
    ensures
        pipe_cells(join_on(cells, '|')) == cells,
        !join_on(cells, '|').contains('\n'),
{
    lemma_split_join_on(cells, '|');
    lemma_join_on_lacks(cells, '|', '\n');
    assert forall|k: int| 0 <= k < cells.len() implies trim(#[trigger] cells[k]) == cells[k] by {
        assert(is_bare_cell(cells[k]));
        lemma_trim_noop(cells[k]);
    }
    assert(pipe_cells(join_on(cells, '|')) =~= cells);
}

/// A line of two or more bare cells is its own trim and starts with a
/// character that is not white space.
proof fn lemma_row_of_bare_cells(cells: Seq<Seq<char>>)
    requires
        cells.len() >= 2,
        forall|k: int| 0 <= k < cells.len() ==> is_bare_cell(#[trigger] cells[k]),
    ensures
        trim(join_on(cells, '|')) == join_on(cells, '|'),
        join_on(cells, '|').len() > 0,
        !is_white_space(join_on(cells, '|')[0]),
{
    lemma_join_on_edges(cells, '|');
    assert(is_bare_cell(cells[0]));
    assert(is_bare_cell(cells[cells.len() - 1]));
    assert(cells.last() == cells[cells.len() - 1]);
    assert(!is_white_space('|'));
    lemma_trim_noop(join_on(cells, '|'));
}

/// A text without a line break that is not empty is a single line.
proof fn lemma_single_line(s: Seq<char>)
    requires
        s.len() > 0,
        !s.contains('\n'),
    ensures
        lines(s) == seq![s],
{
    lemma_split_on_absent(s, '\n');
    let pieces = split_on(s, '\n');
    assert(pieces.take(0).map_values(|p: Seq<char>| strip_cr(p)) =~= Seq::<Seq<char>>::empty());
    assert(lines(s) =~= seq![s]);
}

/// A `listbans` reply that is one row of bare cells `user | platform | ...`
/// gives one ban: the first cell is the user id, the second the platform
/// id, and the third and fourth, where present, the player name and the
/// reason.
pub proof fn law_listbans_single_row(cells: Seq<Seq<char>>)
    requires
        cells.len() >= 2,
        forall|k: int| 0 <= k < cells.len() ==> is_bare_cell(#[trigger] cells[k]),
        !has_prefix(join_on(cells, '|'), "Successfully executed:"@),
    ensures
        listbans_result(join_on(cells, '|')).len() == 1,
        listbans_result(join_on(cells, '|'))[0].user_id == cells[0],
        listbans_result(join_on(cells, '|'))[0].platform_id == cells[1],
        listbans_result(join_on(cells, '|'))[0].player_name == (if cells.len() > 2 {
            Some(cells[2])
        } else {
            None
        }),
        listbans_result(join_on(cells, '|'))[0].reason == (if cells.len() > 3 {
            Some(cells[3])
        } else {
            None
        }),
{
    let row = join_on(cells, '|');
    lemma_pipe_cells_of_join(cells);
    lemma_row_of_bare_cells(cells);
    lemma_single_line(row);
    lemma_trim_nonempty(row, 0);
    let one = seq![row];
    assert(one.drop_last() =~= Seq::<Seq<char>>::empty());
    assert(one.last() == row);
    assert(ban_rows(Seq::<Seq<char>>::empty()) == Seq::<BannedPlayerView>::empty());
    assert(ban_rows(one) == Seq::<BannedPlayerView>::empty().push(ban_of(cells)));
    assert(listbans_result(row) == ban_rows(one));
}

/// A `listplayers` reply that is the header line and one row of bare cells,
/// at least six with a numeric first cell, gives one player: its index is
/// the number in the first cell, and its character name, player name, user
/// id, platform id and platform name are the next five cells, in order.
pub proof fn law_listplayers_header_and_row(header: Seq<char>, cells: Seq<Seq<char>>)
    requires
        is_listplayers_header_line(header),
        !header.contains('\n'),
        !header.contains('\r'),
        cells.len() >= 6,
        forall|k: int| 0 <= k < cells.len() ==> is_bare_cell(#[trigger] cells[k]),
        parse_u32(cells[0]) is Some,
    ensures
        (listplayers_result(header + "\n"@ + join_on(cells, '|')) matches Ok(ps) && ps.len() == 1
            && parse_u32(cells[0]) == Some(ps[0].idx) && ps[0].char_name == cells[1]
            && ps[0].player_name == cells[2] && ps[0].user_id == cells[3] && ps[0].platform_id
            == cells[4] && ps[0].platform_name == cells[5]),
{
    reveal_strlit("\n");
    let row = join_on(cells, '|');
    let body = header + "\n"@ + row;
    assert(body =~= header + seq!['\n'] + row);
    lemma_pipe_cells_of_join(cells);
    lemma_row_of_bare_cells(cells);
    // The header holds a `|`, so it is neither empty nor blank.
    assert(header.contains('|')) by {
        if !header.contains('|') {
            lemma_split_on_absent(header, '|');
        }
    }
    let j = choose|j: int| 0 <= j < header.len() && header[j] == '|';
    assert(!is_white_space('|'));
    lemma_trim_nonempty(header, j);
    lemma_trim_nonempty(row, 0);
    assert(header.last() != '\r') by {
        assert(header[header.len() - 1] == header.last());
    }
    lemma_split_on_join(header, '\n', row);
    lemma_split_on_absent(row, '\n');
    let pieces = split_on(body, '\n');
    assert(pieces =~= seq![header, row]);
    assert(pieces.take(1).map_values(|p: Seq<char>| strip_cr(p)) =~= seq![header]);
    assert(lines(body) =~= seq![header, row]);
    let two = seq![header, row];
    assert(two.drop_last() =~= seq![header]);
    assert(seq![header].drop_last() =~= Seq::<Seq<char>>::empty());
    assert(seq![header].last() == header);
    assert(nonblank(Seq::<Seq<char>>::empty()) == Seq::<Seq<char>>::empty());
    assert(nonblank(seq![header]) == Seq::<Seq<char>>::empty().push(header));
    assert(nonblank(seq![header]) =~= seq![header]);
    assert(two.last() == row);
    assert(nonblank(two) =~= seq![header, row]);
    assert(two.drop_first() =~= seq![row]);
    assert(seq![row].drop_last() =~= Seq::<Seq<char>>::empty());
    let p = player_of(parse_u32(cells[0])->Some_0, cells);
    assert(seq![row].last() == row);
    assert(player_rows(Seq::<Seq<char>>::empty()) == Ok::<Seq<PlayerView>, ParseErrorView>(
        Seq::<PlayerView>::empty(),
    ));
    assert(player_rows(seq![row]) == Ok::<Seq<PlayerView>, ParseErrorView>(
        Seq::<PlayerView>::empty().push(p),
    ));
}
} // verus!

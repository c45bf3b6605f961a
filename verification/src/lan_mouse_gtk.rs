//! What the GTK window decides: its console of diagnostics, its rows of clients
//! and transfers, and what it asks of the daemon.
use crate::api::ClientConfig;
use crate::api::ClientHandle;
use crate::api::ClientState;
use crate::api::ClipboardTransferDirection;
use crate::api::ClipboardTransferState;
use crate::api::ClipboardTransferStatus;
use crate::api::FrontendRequest;
use crate::api::IpAddr;
use crate::api::Position;
use crate::finding::first_below;
use crate::finding::lemma_first;
use crate::finding::lemma_first_same;
use crate::finding::lemma_found;
use crate::text::chars_of;
use crate::text::contains;
use crate::text::decimal;
use crate::text::holds;
use crate::text::lines;
use crate::text::lines_of;
use crate::text::lowercase;
use crate::text::number;
use crate::text::parse_number;
use crate::text::parts_of;
use crate::text::push_decimal;
use crate::text::string_of;
use crate::text::to_lowercase;
use crate::ui::labels::join;
use crate::ui::labels::joined;
use crate::ui::labels::views;
use vstd::prelude::*;

verus! {

// ---------------------------------------------------------------------------
// The console
// ---------------------------------------------------------------------------

/// The most lines that the console keeps.
pub const MAX_CONSOLE_LINES: usize = 2000;

/// What the console shows of its lines: by level, by stage, by direction, by
/// number of the choice, and by a text.
#[derive(Clone, Debug, PartialEq, Eq)]
pub struct ConsoleFilter {
    pub level: u32,
    pub stage: u32,
    pub direction: u32,
    pub query: String,
}

/// The lines of the console, the oldest first.
#[derive(Debug)]
pub struct Console {
    lines: Vec<String>,
}

impl View for Console {
    type V = Seq<Seq<char>>;

    closed spec fn view(&self) -> Seq<Seq<char>> {
        views(self.lines@)
    }
}

/// A line more; the oldest go once there are too many.
pub open spec fn appended(lines: Seq<Seq<char>>, line: Seq<char>) -> Seq<Seq<char>> {
    let all = lines.push(line);
    if all.len() > MAX_CONSOLE_LINES {
        all.skip(all.len() - MAX_CONSOLE_LINES)
    } else {
        all
    }
}

/// Some lines more, one after the other.
pub open spec fn appended_all(lines: Seq<Seq<char>>, new: Seq<Seq<char>>) -> Seq<Seq<char>>
    decreases new.len(),
{
    if new.len() == 0 {
        lines
    } else {
        appended(appended_all(lines, new.drop_last()), new.last())
    }
}

/// The line that tells of a stream that could not be opened, or that failed.
pub open spec fn failure_line(opening: bool, error: Seq<char>) -> Seq<char> {
    if opening {
        "[ERROR][console] cannot open live diagnostic stream: "@ + error
    } else {
        "[ERROR][console] live stream failed: "@ + error
    }
}

pub open spec fn at_level(line: Seq<char>, level: u32) -> bool {
    match level {
        1 => holds(line, "[ERROR]"@),
        2 => holds(line, "[WARN]"@),
        3 => holds(line, "[INFO]"@),
        4 => holds(line, "[DEBUG]"@),
        5 => holds(line, "[TRACE]"@),
        _ => true,
    }
}

/// A line of a stage, by the words that it holds; in small letters.
pub open spec fn at_stage(s: Seq<char>, stage: u32) -> bool {
    match stage {
        1 => holds(s, "copy"@) || holds(s, "owner-changed"@) || holds(s, "local-selection"@)
            || holds(s, "manifest"@),
        2 => holds(s, "peer"@) || holds(s, "protocol"@) || holds(s, "range"@) || holds(
            s,
            "manifest"@,
        ) || holds(s, "transport"@),
        3 => holds(s, "set-selection"@) || holds(s, "publication"@) || holds(s, "portal"@)
            || holds(s, "selection-transfer"@),
        4 => holds(s, "paste"@) || holds(s, "selection-transfer-request"@) || holds(s, "lookup"@)
            || holds(s, "open"@) || holds(s, "read"@),
        5 => holds(s, "fuse"@) || holds(s, "lookup"@) || holds(s, "getattr"@) || holds(s, "open"@)
            || holds(s, "read"@) || holds(s, "release"@),
        6 => holds(s, "progress"@) || holds(s, "completed"@) || holds(s, "cancel"@) || holds(
            s,
            "unmounted"@,
        ) || holds(s, "released"@),
        7 => holds(s, "[error]"@) || holds(s, "[warn]"@) || holds(s, "failed"@) || holds(
            s,
            "rejected"@,
        ),
        _ => true,
    }
}

pub open spec fn in_direction(s: Seq<char>, direction: u32) -> bool {
    match direction {
        1 => holds(s, "direction=local"@),
        2 => holds(s, "direction=outbound"@),
        3 => holds(s, "direction=inbound"@),
        _ => true,
    }
}

/// A line that the console shows.
pub open spec fn line_shown(line: Seq<char>, f: ConsoleFilter) -> bool {
    let s = lowercase(line);
    &&& at_level(line, f.level)
    &&& at_stage(s, f.stage)
    &&& in_direction(s, f.direction)
    &&& f.query@.len() == 0 || holds(s, lowercase(f.query@))
}

/// The lines that the console shows, in their order.
pub open spec fn lines_shown(lines: Seq<Seq<char>>, f: ConsoleFilter) -> Seq<Seq<char>>
    decreases lines.len(),
{
    if lines.len() == 0 {
        Seq::empty()
    } else if line_shown(lines.last(), f) {
        lines_shown(lines.drop_last(), f).push(lines.last())
    } else {
        lines_shown(lines.drop_last(), f)
    }
}

fn is_at_level(line: &str, level: u32) -> (r: bool)
    ensures
        r == at_level(line@, level),
{
    match level {
        1 => contains(line, "[ERROR]"),
        2 => contains(line, "[WARN]"),
        3 => contains(line, "[INFO]"),
        4 => contains(line, "[DEBUG]"),
        5 => contains(line, "[TRACE]"),
        _ => true,
    }
}

fn is_at_stage(s: &str, stage: u32) -> (r: bool)
    ensures
        r == at_stage(s@, stage),
{
    match stage {
        1 => contains(s, "copy") || contains(s, "owner-changed") || contains(s, "local-selection")
            || contains(s, "manifest"),
        2 => contains(s, "peer") || contains(s, "protocol") || contains(s, "range") || contains(
            s,
            "manifest",
        ) || contains(s, "transport"),
        3 => contains(s, "set-selection") || contains(s, "publication") || contains(s, "portal")
            || contains(s, "selection-transfer"),
        4 => contains(s, "paste") || contains(s, "selection-transfer-request") || contains(
            s,
            "lookup",
        ) || contains(s, "open") || contains(s, "read"),
        5 => contains(s, "fuse") || contains(s, "lookup") || contains(s, "getattr") || contains(
            s,
            "open",
        ) || contains(s, "read") || contains(s, "release"),
        6 => contains(s, "progress") || contains(s, "completed") || contains(s, "cancel")
            || contains(s, "unmounted") || contains(s, "released"),
        7 => contains(s, "[error]") || contains(s, "[warn]") || contains(s, "failed") || contains(
            s,
            "rejected",
        ),
        _ => true,
    }
}

fn is_in_direction(s: &str, direction: u32) -> (r: bool)
    ensures
        r == in_direction(s@, direction),
{
    match direction {
        1 => contains(s, "direction=local"),
        2 => contains(s, "direction=outbound"),
        3 => contains(s, "direction=inbound"),
        _ => true,
    }
}

impl Console {
    #[verifier::type_invariant]
    spec fn inv(self) -> bool {
        self.lines@.len() <= MAX_CONSOLE_LINES
    }

    /// No line yet.
    pub fn new() -> (c: Console)
        ensures
            c@ == Seq::<Seq<char>>::empty(),
    {
        let lines: Vec<String> = Vec::new();
        assert(views(lines@) =~= Seq::<Seq<char>>::empty());
        Console { lines }
    }

    /// Takes a line.
    pub fn append_console_line(&mut self, line: String)
        ensures
            final(self)@ == appended(old(self)@, line@),
            final(self)@.len() <= MAX_CONSOLE_LINES,
    {
        proof {
            use_type_invariant(&*self);
        }
        let ghost before = self@;
        let mut taken: Console = Console::new();
        std::mem::swap(&mut taken, self);
        let mut lines: Vec<String> = taken.lines;
        if lines.len() >= MAX_CONSOLE_LINES {
            lines.remove(0);
        }
        lines.push(line);
        assert(views(lines@) =~= appended(before, line@));
        *self = Console { lines };
    }

    /// Takes the lines of a datagram.
    pub fn receive(&mut self, text: &str)
        ensures
            final(self)@ == appended_all(old(self)@, lines(text@)),
    {
        let all: Vec<Vec<char>> = lines_of(chars_of(text).as_slice());
        let ghost parts = parts_of(all@);
        let ghost before = self@;
        let mut i: usize = 0;
        assert(parts.take(0) =~= Seq::<Seq<char>>::empty());
        while i < all.len()
            invariant
                i <= all@.len(),
                parts == parts_of(all@),
                self@ == appended_all(before, parts.take(i as int)),
            decreases all@.len() - i,
        {
            assert(parts.take(i + 1).drop_last() =~= parts.take(i as int));
            assert(parts.take(i + 1).last() == all@[i as int]@);
            self.append_console_line(string_of(all[i].as_slice()));
            i = i + 1;
        }
        assert(parts.take(i as int) =~= parts);
    }

    /// Notes that the stream could not be opened, or that it failed.
    pub fn note_failure(&mut self, opening: bool, error: &str)
        ensures
            final(self)@ == appended(old(self)@, failure_line(opening, error@)),
    {
        let front: &str = if opening {
            "[ERROR][console] cannot open live diagnostic stream: "
        } else {
            "[ERROR][console] live stream failed: "
        };
        let mut line: String = front.to_owned();
        line.push_str(error);
        self.append_console_line(line);
    }

    /// Takes every line out.
    pub fn clear(&mut self)
        ensures
            final(self)@ == Seq::<Seq<char>>::empty(),
    {
        *self = Console::new();
    }

    /// What the console shows.
    pub fn render_clipboard_console(&self, f: &ConsoleFilter) -> (s: String)
        ensures
            s@ == joined(lines_shown(self@, *f), "\n"@),
    {
        let query: String = to_lowercase(f.query.as_str());
        let ghost all = self@;
        let mut kept: Vec<String> = Vec::new();
        let mut i: usize = 0;
        assert(all.take(0) =~= Seq::<Seq<char>>::empty());
        assert(views(kept@) =~= lines_shown(all.take(0), *f));
        while i < self.lines.len()
            invariant
                i <= self.lines@.len(),
                all == views(self.lines@),
                query@ == lowercase(f.query@),
                views(kept@) == lines_shown(all.take(i as int), *f),
            decreases self.lines@.len() - i,
        {
            assert(all.take(i + 1).drop_last() =~= all.take(i as int));
            assert(all.take(i + 1).last() == self.lines@[i as int]@);
            let line: &str = self.lines[i].as_str();
            let small: String = to_lowercase(line);
            let asked: bool = f.query.as_str().unicode_len() == 0 || contains(
                small.as_str(),
                query.as_str(),
            );
            if is_at_level(line, f.level) && is_at_stage(small.as_str(), f.stage)
                && is_in_direction(small.as_str(), f.direction) && asked {
                let ghost before = views(kept@);
                kept.push(self.lines[i].clone());
                assert(views(kept@) =~= before.push(self.lines@[i as int]@));
            }
            i = i + 1;
        }
        assert(all.take(i as int) =~= all);
        join(&kept, "\n")
    }
}

/// What the button that holds the console still says.
pub fn pause_label(paused: bool) -> (s: &'static str)
    ensures
        s@ == (if paused {
            "Resume"@
        } else {
            "Pause"@
        }),
{
    if paused {
        "Resume"
    } else {
        "Pause"
    }
}

/// A filter that asks for nothing in particular shows every line.
pub proof fn law_empty_search_shows_every_line(lines: Seq<Seq<char>>, f: ConsoleFilter)
    requires
        f.level == 0,
        f.stage == 0,
        f.direction == 0,
        f.query@.len() == 0,
    ensures
        lines_shown(lines, f) == lines,
    decreases lines.len(),
{
    if lines.len() > 0 {
        law_empty_search_shows_every_line(lines.drop_last(), f);
    }
    assert(lines_shown(lines, f) =~= lines);
}

/// The console keeps the newest line, and never more lines than its bound.
pub proof fn law_console_keeps_the_newest(lines: Seq<Seq<char>>, line: Seq<char>)
    ensures
        appended(lines, line).len() <= MAX_CONSOLE_LINES,
        appended(lines, line).last() == line,
{
}

// ---------------------------------------------------------------------------
// Rows of clients
// ---------------------------------------------------------------------------

/// A row of the list of clients.
#[derive(Clone, Debug, PartialEq, Eq)]
pub struct ClientRow {
    pub handle: ClientHandle,
    pub hostname: Option<String>,
    pub port: u16,
    pub position: Position,
    pub active: bool,
    pub resolving: bool,
    pub resolved: bool,
    pub ips: Vec<IpAddr>,
    pub peer_commit: Option<[u8; 8]>,
}

pub ghost struct RowModel {
    pub handle: ClientHandle,
    pub hostname: Option<String>,
    pub port: u16,
    pub position: Position,
    pub active: bool,
    pub resolving: bool,
    pub resolved: bool,
    pub ips: Seq<IpAddr>,
    pub peer_commit: Option<[u8; 8]>,
}

impl View for ClientRow {
    type V = RowModel;

    open spec fn view(&self) -> RowModel {
        RowModel {
            handle: self.handle,
            hostname: self.hostname,
            port: self.port,
            position: self.position,
            active: self.active,
            resolving: self.resolving,
            resolved: self.resolved,
            ips: self.ips@,
            peer_commit: self.peer_commit,
        }
    }
}

pub open spec fn row_models(rows: Seq<ClientRow>) -> Seq<RowModel> {
    Seq::new(rows.len(), |i: int| rows[i]@)
}

/// The row that a client gets.
pub open spec fn row_for(handle: ClientHandle, c: ClientConfig, s: ClientState) -> RowModel {
    RowModel {
        handle,
        hostname: c.hostname,
        port: c.port,
        position: c.pos,
        active: s.active,
        resolving: s.resolving,
        resolved: s.ips@.len() > 0,
        ips: s.ips@,
        peer_commit: s.peer_commit,
    }
}

/// A row with another configuration of its client.
pub open spec fn configured(row: RowModel, c: ClientConfig) -> RowModel {
    RowModel { hostname: c.hostname, port: c.port, position: c.pos, ..row }
}

/// A row with another state of its client.
pub open spec fn in_state(row: RowModel, s: ClientState) -> RowModel {
    RowModel {
        active: s.active,
        resolving: s.resolving,
        resolved: s.ips@.len() > 0,
        ips: s.ips@,
        peer_commit: s.peer_commit,
        ..row
    }
}

/// A row of a client.
pub open spec fn is_row_of(rows: Seq<RowModel>, handle: ClientHandle) -> spec_fn(int) -> bool {
    |i: int| rows[i].handle == handle
}

/// The first row of a client.
pub open spec fn row_index(rows: Seq<RowModel>, handle: ClientHandle) -> Option<int> {
    first_below(rows.len() as int, is_row_of(rows, handle))
}

/// The rows once a client was heard of: its row is brought up to date, or it gets
/// one.
pub open spec fn heard(
    rows: Seq<RowModel>,
    handle: ClientHandle,
    c: ClientConfig,
    s: ClientState,
) -> Seq<RowModel> {
    match row_index(rows, handle) {
        Some(i) => rows.update(i, row_for(handle, c, s)),
        None => rows.push(row_for(handle, c, s)),
    }
}

/// The rows once some clients were heard of, one after the other.
pub open spec fn heard_all(
    rows: Seq<RowModel>,
    clients: Seq<(ClientHandle, ClientConfig, ClientState)>,
) -> Seq<RowModel>
    decreases clients.len(),
{
    if clients.len() == 0 {
        rows
    } else {
        let last = clients.last();
        heard(heard_all(rows, clients.drop_last()), last.0, last.1, last.2)
    }
}

/// The rows without that of a client.
pub open spec fn forgotten(rows: Seq<RowModel>, handle: ClientHandle) -> Seq<RowModel> {
    match row_index(rows, handle) {
        Some(i) => rows.remove(i),
        None => rows,
    }
}

/// The rows with another configuration of a client.
pub open spec fn reconfigured(
    rows: Seq<RowModel>,
    handle: ClientHandle,
    c: ClientConfig,
) -> Seq<RowModel> {
    match row_index(rows, handle) {
        Some(i) => rows.update(i, configured(rows[i], c)),
        None => rows,
    }
}

/// The rows with another state of a client.
pub open spec fn restated(
    rows: Seq<RowModel>,
    handle: ClientHandle,
    s: ClientState,
) -> Seq<RowModel> {
    match row_index(rows, handle) {
        Some(i) => rows.update(i, in_state(rows[i], s)),
        None => rows,
    }
}

/// The place of a client's row.
pub fn client_idx(rows: &Vec<ClientRow>, handle: ClientHandle) -> (r: Option<usize>)
    ensures
        match r {
            Some(i) => row_index(row_models(rows@), handle) == Some(i as int) && i < rows@.len()
                && rows@[i as int].handle == handle,
            None => row_index(row_models(rows@), handle) is None,
        },
{
    let ghost models = row_models(rows@);
    let mut i: usize = 0;
    while i < rows.len()
        invariant
            i <= rows@.len(),
            models == row_models(rows@),
            first_below(i as int, is_row_of(models, handle)) is None,
        decreases rows@.len() - i,
    {
        assert(models[i as int].handle == rows@[i as int].handle);
        if rows[i].handle == handle {
            proof {
                lemma_found(i + 1, models.len() as int, is_row_of(models, handle));
            }
            return Some(i);
        }
        i = i + 1;
    }
    None
}

fn new_row(handle: ClientHandle, c: ClientConfig, s: ClientState) -> (r: ClientRow)
    ensures
        r@ == row_for(handle, c, s),
{
    let resolved: bool = s.ips.len() > 0;
    ClientRow {
        handle,
        hostname: c.hostname,
        port: c.port,
        position: c.pos,
        active: s.active,
        resolving: s.resolving,
        resolved,
        ips: s.ips,
        peer_commit: s.peer_commit,
    }
}

/// A client was heard of.
pub fn update_client(
    rows: &mut Vec<ClientRow>,
    handle: ClientHandle,
    c: ClientConfig,
    s: ClientState,
)
    ensures
        row_models(final(rows)@) == heard(row_models(old(rows)@), handle, c, s),
{
    let ghost before = row_models(rows@);
    let row: ClientRow = new_row(handle, c, s);
    let ghost model = row@;
    match client_idx(rows, handle) {
        Some(i) => {
            rows.set(i, row);
            assert(row_models(rows@) =~= before.update(i as int, model));
        },
        None => {
            rows.push(row);
            assert(row_models(rows@) =~= before.push(model));
        },
    }
}

/// A client is new: it gets a row behind the others.
pub fn new_client(
    rows: &mut Vec<ClientRow>,
    handle: ClientHandle,
    c: ClientConfig,
    s: ClientState,
)
    ensures
        row_models(final(rows)@) == row_models(old(rows)@).push(row_for(handle, c, s)),
{
    let ghost before = row_models(rows@);
    let row: ClientRow = new_row(handle, c, s);
    let ghost model = row@;
    rows.push(row);
    assert(row_models(rows@) =~= before.push(model));
}

/// The configuration of a client has changed; `false` where there is no row of
/// it.
pub fn update_client_config(
    rows: &mut Vec<ClientRow>,
    handle: ClientHandle,
    c: ClientConfig,
) -> (r: bool)
    ensures
        match row_index(row_models(old(rows)@), handle) {
            Some(i) => r && row_models(final(rows)@) == row_models(old(rows)@).update(
                i,
                configured(row_models(old(rows)@)[i], c),
            ),
            None => !r && final(rows)@ == old(rows)@,
        },
        row_models(final(rows)@) == reconfigured(row_models(old(rows)@), handle, c),
{
    let ghost before = row_models(rows@);
    match client_idx(rows, handle) {
        Some(i) => {
            let ghost row = rows@[i as int]@;
            let mut changed: ClientRow = rows.remove(i);
            changed.hostname = c.hostname;
            changed.port = c.port;
            changed.position = c.pos;
            assert(changed@ == configured(row, c));
            rows.insert(i, changed);
            assert(row_models(rows@) =~= before.update(i as int, configured(row, c)));
            true
        },
        None => false,
    }
}

/// The state of a client has changed; `false` where there is no row of it.
pub fn update_client_state(rows: &mut Vec<ClientRow>, handle: ClientHandle, s: ClientState) -> (r:
    bool)
    ensures
        match row_index(row_models(old(rows)@), handle) {
            Some(i) => r && row_models(final(rows)@) == row_models(old(rows)@).update(
                i,
                in_state(row_models(old(rows)@)[i], s),
            ),
            None => !r && final(rows)@ == old(rows)@,
        },
        row_models(final(rows)@) == restated(row_models(old(rows)@), handle, s),
{
    let ghost before = row_models(rows@);
    match client_idx(rows, handle) {
        Some(i) => {
            let ghost row = rows@[i as int]@;
            let mut changed: ClientRow = rows.remove(i);
            changed.active = s.active;
            changed.resolving = s.resolving;
            changed.resolved = s.ips.len() > 0;
            changed.ips = s.ips;
            changed.peer_commit = s.peer_commit;
            assert(changed@ == in_state(row, s));
            rows.insert(i, changed);
            assert(row_models(rows@) =~= before.update(i as int, in_state(row, s)));
            true
        },
        None => false,
    }
}

/// A client that was heard of has a row, which shows what was heard.
pub proof fn law_heard_clients_have_rows(
    rows: Seq<RowModel>,
    handle: ClientHandle,
    c: ClientConfig,
    s: ClientState,
)
    ensures
        row_index(heard(rows, handle, c, s), handle) matches Some(i) && 0 <= i < heard(
            rows,
            handle,
            c,
            s,
        ).len() && heard(rows, handle, c, s)[i] == row_for(handle, c, s),
{
    let row = row_for(handle, c, s);
    match row_index(rows, handle) {
        Some(i) => {
            lemma_first(rows.len() as int, is_row_of(rows, handle));
            lemma_first_same(
                rows.len() as int,
                is_row_of(rows, handle),
                is_row_of(rows.update(i, row), handle),
            );
        },
        None => {
            lemma_first_same(
                rows.len() as int,
                is_row_of(rows, handle),
                is_row_of(rows.push(row), handle),
            );
        },
    }
}

/// A configuration and a state that are heard of one after the other come to the
/// same as both at once.
pub proof fn law_one_after_the_other(
    row: RowModel,
    handle: ClientHandle,
    c: ClientConfig,
    s: ClientState,
)
    requires
        row.handle == handle,
    ensures
        in_state(configured(row, c), s) == row_for(handle, c, s),
{
}

/// Some clients were heard of.
pub fn update_client_list(
    rows: &mut Vec<ClientRow>,
    clients: Vec<(ClientHandle, ClientConfig, ClientState)>,
)
    ensures
        row_models(final(rows)@) == heard_all(row_models(old(rows)@), clients@),
{
    let ghost before = row_models(rows@);
    let ghost all = clients@;
    assert(all.take(0) =~= Seq::<(ClientHandle, ClientConfig, ClientState)>::empty());
    for client in it: clients
        invariant
            it.seq() == all,
            row_models(rows@) == heard_all(before, all.take(it.index() as int)),
    {
        assert(all.take(it.index() as int + 1).drop_last() =~= all.take(it.index() as int));
        assert(all.take(it.index() as int + 1).last() == client);
        let (handle, c, s) = client;
        update_client(rows, handle, c, s);
    }
    assert(all.take(all.len() as int) =~= all);
}

/// A client is gone; `false` where there was no row of it.
pub fn delete_client(rows: &mut Vec<ClientRow>, handle: ClientHandle) -> (r: bool)
    ensures
        match row_index(row_models(old(rows)@), handle) {
            Some(i) => r && row_models(final(rows)@) == row_models(old(rows)@).remove(i),
            None => !r && final(rows)@ == old(rows)@,
        },
        row_models(final(rows)@) == forgotten(row_models(old(rows)@), handle),
{
    let ghost before = row_models(rows@);
    match client_idx(rows, handle) {
        Some(i) => {
            rows.remove(i);
            assert(row_models(rows@) =~= before.remove(i as int));
            true
        },
        None => false,
    }
}

/// Whether a list shows that it is empty.
pub fn placeholder_visible(rows: usize) -> (r: bool)
    ensures
        r == (rows == 0),
{
    rows == 0
}

/// What the user did to a row.
#[derive(Clone, Debug, PartialEq, Eq)]
pub enum RowChange {
    Hostname(String),
    Port(u32),
    Activate(bool),
    Delete,
    Dns,
    Position(u32),
}

/// The position of a choice.
pub open spec fn position_chosen(index: u32) -> Position {
    match index {
        0 => Position::Left,
        1 => Position::Right,
        2 => Position::Top,
        _ => Position::Bottom,
    }
}

/// What is asked of the daemon for a client.
pub open spec fn change_requested(r: FrontendRequest, handle: ClientHandle, c: RowChange) -> bool {
    match c {
        RowChange::Hostname(hostname) => r matches FrontendRequest::UpdateHostname(h, name) && h
            == handle && (match name {
            Some(name) => name@ == hostname@ && hostname@.len() > 0,
            None => hostname@.len() == 0,
        }),
        RowChange::Port(port) => r == FrontendRequest::UpdatePort(handle, (port % 0x1_0000) as u16),
        RowChange::Activate(active) => r == FrontendRequest::Activate(handle, active),
        RowChange::Delete => r == FrontendRequest::Delete(handle),
        RowChange::Dns => r == FrontendRequest::ResolveDns(handle),
        RowChange::Position(index) => r == FrontendRequest::UpdatePosition(
            handle,
            position_chosen(index),
        ),
    }
}

/// What is asked of the daemon when the user changes a row; nothing where there
/// is no such row.
pub fn row_changed(rows: &Vec<ClientRow>, index: usize, change: RowChange) -> (r: Option<
    FrontendRequest,
>)
    ensures
        match r {
            Some(request) => index < rows@.len() && change_requested(
                request,
                rows@[index as int].handle,
                change,
            ),
            None => index >= rows@.len(),
        },
{
    if index >= rows.len() {
        return None;
    }
    let handle: ClientHandle = rows[index].handle;
    Some(
        match change {
            RowChange::Hostname(hostname) => {
                let name: Option<String> = if hostname.as_str().unicode_len() > 0 {
                    Some(hostname)
                } else {
                    None
                };
                FrontendRequest::UpdateHostname(handle, name)
            },
            RowChange::Port(port) => FrontendRequest::UpdatePort(handle, (port % 0x1_0000) as u16),
            RowChange::Activate(active) => FrontendRequest::Activate(handle, active),
            RowChange::Delete => FrontendRequest::Delete(handle),
            RowChange::Dns => FrontendRequest::ResolveDns(handle),
            RowChange::Position(index) => FrontendRequest::UpdatePosition(
                handle,
                match index {
                    0 => Position::Left,
                    1 => Position::Right,
                    2 => Position::Top,
                    _ => Position::Bottom,
                },
            ),
        },
    )
}

/// What is asked of the daemon when the user enters a port: that port, or the
/// usual one where it is none.
pub fn request_port_change(text: &str, default_port: u16) -> (r: FrontendRequest)
    ensures
        r == FrontendRequest::ChangePort(
            match number(text@, u16::MAX as nat) {
                Some(port) => port as u16,
                None => default_port,
            },
        ),
{
    match parse_number(text, u16::MAX as u64) {
        Some(port) => FrontendRequest::ChangePort(port as u16),
        None => FrontendRequest::ChangePort(default_port),
    }
}

// ---------------------------------------------------------------------------
// Rows of transfers
// ---------------------------------------------------------------------------

/// The transfer is over.
pub open spec fn is_terminal(s: ClipboardTransferState) -> bool {
    s is Completed || s is Cancelled || s is Failed
}

pub open spec fn state_text(s: ClipboardTransferState) -> Seq<char> {
    match s {
        ClipboardTransferState::Pending => "Pending"@,
        ClipboardTransferState::Transferring => "Transferring"@,
        ClipboardTransferState::Completed => "Completed"@,
        ClipboardTransferState::Cancelled => "Cancelled"@,
        ClipboardTransferState::Failed(reason) => "Failed: "@ + reason@,
    }
}

pub open spec fn direction_text(d: ClipboardTransferDirection) -> Seq<char> {
    match d {
        ClipboardTransferDirection::Sending => "Sending"@,
        ClipboardTransferDirection::Receiving => "Receiving"@,
    }
}

/// What is said of a transfer.
pub open spec fn transfer_text(t: ClipboardTransferStatus) -> Seq<char> {
    direction_text(t.direction) + " \u{b7} "@ + decimal(t.transferred_bytes as nat) + " / "@
        + decimal(t.total_bytes as nat) + " bytes \u{b7} "@ + state_text(t.state) + " \u{b7} "@
        + decimal(t.bytes_per_second as nat) + " bytes/s"@
}

/// What a row shows of a transfer.
#[derive(Clone, Debug, PartialEq, Eq)]
pub struct TransferRow {
    pub title: String,
    pub subtitle: String,
    /// What is read out for the row.
    pub label: String,
    /// What is read out for its button.
    pub cancel_label: String,
    pub cancel_visible: bool,
}

fn name_of_state(s: &ClipboardTransferState) -> (r: String)
    ensures
        r@ == state_text(*s),
{
    match s {
        ClipboardTransferState::Pending => "Pending".to_owned(),
        ClipboardTransferState::Transferring => "Transferring".to_owned(),
        ClipboardTransferState::Completed => "Completed".to_owned(),
        ClipboardTransferState::Cancelled => "Cancelled".to_owned(),
        ClipboardTransferState::Failed(reason) => {
            let mut r: String = "Failed: ".to_owned();
            r.push_str(reason.as_str());
            r
        },
    }
}

/// What a row shows of a transfer.
pub fn transfer_row(t: &ClipboardTransferStatus) -> (r: TransferRow)
    ensures
        r.title@ == t.name@,
        r.subtitle@ == transfer_text(*t),
        r.label@ == t.name@ + ": "@ + transfer_text(*t),
        r.cancel_label@ == "Cancel clipboard transfer: "@ + t.name@,
        r.cancel_visible == !is_terminal(t.state),
{
    let direction: &str = match t.direction {
        ClipboardTransferDirection::Sending => "Sending",
        ClipboardTransferDirection::Receiving => "Receiving",
    };
    let mut subtitle: String = direction.to_owned();
    subtitle.push_str(" \u{b7} ");
    push_decimal(&mut subtitle, t.transferred_bytes);
    subtitle.push_str(" / ");
    push_decimal(&mut subtitle, t.total_bytes);
    subtitle.push_str(" bytes \u{b7} ");
    subtitle.push_str(name_of_state(&t.state).as_str());
    subtitle.push_str(" \u{b7} ");
    push_decimal(&mut subtitle, t.bytes_per_second);
    subtitle.push_str(" bytes/s");
    let mut label: String = t.name.clone();
    label.push_str(": ");
    label.push_str(subtitle.as_str());
    let mut cancel_label: String = "Cancel clipboard transfer: ".to_owned();
    cancel_label.push_str(t.name.as_str());
    let over: bool = match &t.state {
        ClipboardTransferState::Completed
        | ClipboardTransferState::Cancelled
        | ClipboardTransferState::Failed(_) => true,
        _ => false,
    };
    TransferRow { title: t.name.clone(), subtitle, label, cancel_label, cancel_visible: !over }
}

/// The rows of the transfers, in the order in which they were first heard of.
#[derive(Debug)]
pub struct TransferRows {
    pub rows: Vec<((u64, u64), TransferRow)>,
}

/// What a row shows, with its texts as characters.
pub ghost struct TransferRowModel {
    pub title: Seq<char>,
    pub subtitle: Seq<char>,
    pub label: Seq<char>,
    pub cancel_label: Seq<char>,
    pub cancel_visible: bool,
}

impl View for TransferRow {
    type V = TransferRowModel;

    open spec fn view(&self) -> TransferRowModel {
        TransferRowModel {
            title: self.title@,
            subtitle: self.subtitle@,
            label: self.label@,
            cancel_label: self.cancel_label@,
            cancel_visible: self.cancel_visible,
        }
    }
}

impl View for TransferRows {
    type V = Seq<((u64, u64), TransferRowModel)>;

    open spec fn view(&self) -> Seq<((u64, u64), TransferRowModel)> {
        Seq::new(self.rows@.len(), |i: int| (self.rows@[i].0, self.rows@[i].1@))
    }
}

/// What a new row shows of a transfer.
pub open spec fn transfer_row_of(t: ClipboardTransferStatus) -> TransferRowModel {
    TransferRowModel {
        title: t.name@,
        subtitle: transfer_text(t),
        label: t.name@ + ": "@ + transfer_text(t),
        cancel_label: "Cancel clipboard transfer: "@ + t.name@,
        cancel_visible: !is_terminal(t.state),
    }
}

/// A row of a transfer.
pub open spec fn is_transfer(
    rows: Seq<((u64, u64), TransferRowModel)>,
    key: (u64, u64),
) -> spec_fn(int) -> bool {
    |i: int| rows[i].0 == key
}

/// The first row of a transfer.
pub open spec fn transfer_index(
    rows: Seq<((u64, u64), TransferRowModel)>,
    key: (u64, u64),
) -> Option<int> {
    first_below(rows.len() as int, is_transfer(rows, key))
}

/// The rows once a transfer was heard of. What is read out for the button of a row
/// stays as it was when the row came.
pub open spec fn transfer_heard(
    rows: Seq<((u64, u64), TransferRowModel)>,
    t: ClipboardTransferStatus,
) -> Seq<((u64, u64), TransferRowModel)> {
    let key = (t.transfer_id, t.file_id);
    match transfer_index(rows, key) {
        Some(i) => rows.update(
            i,
            (
                key,
                TransferRowModel { cancel_label: rows[i].1.cancel_label, ..transfer_row_of(t) },
            ),
        ),
        None => rows.push((key, transfer_row_of(t))),
    }
}

impl TransferRows {
    fn place(&self, key: (u64, u64)) -> (r: Option<usize>)
        ensures
            match r {
                Some(i) => i < self.rows@.len() && transfer_index(self@, key) == Some(i as int)
                    && self.rows@[i as int].0 == key,
                None => transfer_index(self@, key) is None,
            },
    {
        let ghost models = self@;
        let mut i: usize = 0;
        while i < self.rows.len()
            invariant
                i <= self.rows@.len(),
                models == self@,
                first_below(i as int, is_transfer(models, key)) is None,
            decreases self.rows@.len() - i,
        {
            assert(models[i as int].0 == self.rows@[i as int].0);
            if self.rows[i].0.0 == key.0 && self.rows[i].0.1 == key.1 {
                proof {
                    lemma_found(i + 1, models.len() as int, is_transfer(models, key));
                }
                return Some(i);
            }
            i = i + 1;
        }
        None
    }

    /// A transfer was heard of: its row is brought up to date, or it gets one.
    pub fn update_clipboard_transfer(&mut self, t: &ClipboardTransferStatus)
        ensures
            final(self)@ == transfer_heard(old(self)@, *t),
    {
        let ghost before = self@;
        let key: (u64, u64) = (t.transfer_id, t.file_id);
        let mut row: TransferRow = transfer_row(t);
        match self.place(key) {
            Some(i) => {
                assert(before[i as int].1.cancel_label == self.rows@[i as int].1.cancel_label@);
                row.cancel_label = self.rows[i].1.cancel_label.clone();
                let ghost model = row@;
                self.rows.set(i, (key, row));
                assert(self@ =~= before.update(i as int, (key, model)));
            },
            None => {
                let ghost model = row@;
                self.rows.push((key, row));
                assert(self@ =~= before.push((key, model)));
            },
        }
    }
}

/// No two rows are of the same transfer.
pub open spec fn one_row_each(rows: Seq<((u64, u64), TransferRowModel)>) -> bool {
    forall|i: int, j: int|
        0 <= i < j < rows.len() ==> (#[trigger] rows[i]).0 != (#[trigger] rows[j]).0
}

/// A transfer never gets a second row, however often it is heard of.
pub proof fn law_one_row_for_a_transfer(
    rows: Seq<((u64, u64), TransferRowModel)>,
    t: ClipboardTransferStatus,
)
    requires
        one_row_each(rows),
    ensures
        one_row_each(transfer_heard(rows, t)),
        transfer_index(transfer_heard(rows, t), (t.transfer_id, t.file_id)) is Some,
{
    let key = (t.transfer_id, t.file_id);
    lemma_first(rows.len() as int, is_transfer(rows, key));
    let after = transfer_heard(rows, t);
    lemma_first(after.len() as int, is_transfer(after, key));
    match transfer_index(rows, key) {
        Some(i) => {
            assert(is_transfer(after, key)(i));
            assert(forall|j: int| 0 <= j < rows.len() ==> (#[trigger] after[j]).0 == rows[j].0);
        },
        None => {
            assert(is_transfer(after, key)(rows.len() as int));
            assert forall|j: int| 0 <= j < rows.len() implies (#[trigger] after[j]).0 != key by {
                assert(!is_transfer(rows, key)(j));
            }
        },
    }
}

// ---------------------------------------------------------------------------
// Authorized keys
// ---------------------------------------------------------------------------

/// A key that may connect.
#[derive(Clone, Debug, PartialEq, Eq)]
pub struct KeyRow {
    pub description: String,
    pub fingerprint: String,
}

/// What is asked of the daemon when the user removes a key; nothing where there is
/// no such row.
pub fn key_removed(keys: &Vec<KeyRow>, index: usize) -> (r: Option<FrontendRequest>)
    ensures
        match r {
            Some(request) => index < keys@.len() && request
                == FrontendRequest::RemoveAuthorizedKey(keys@[index as int].fingerprint),
            None => index >= keys@.len(),
        },
{
    if index < keys.len() {
        Some(FrontendRequest::RemoveAuthorizedKey(keys[index].fingerprint.clone()))
    } else {
        None
    }
}

/// What is asked of the daemon when the user lets a key in.
pub fn key_added(description: String, fingerprint: String) -> (r: FrontendRequest)
    ensures
        r == FrontendRequest::AuthorizeKey(description, fingerprint),
{
    FrontendRequest::AuthorizeKey(description, fingerprint)
}

// ---------------------------------------------------------------------------
// Warnings
// ---------------------------------------------------------------------------

/// Which warnings are shown.
#[derive(Clone, Copy, Debug, PartialEq, Eq, Structural)]
pub struct Warnings {
    pub capture: bool,
    pub emulation: bool,
    pub group: bool,
}

/// Which warnings are shown: of capture and emulation each, but one for both
/// where one permission decides over both.
pub fn capture_emulation_status(capture: bool, emulation: bool, shared_permission: bool) -> (w:
    Warnings)
    ensures
        w.group == (!capture || !emulation),
        w.capture == (if shared_permission {
            !capture || !emulation
        } else {
            !capture
        }),
        w.emulation == (!shared_permission && !emulation),
{
    let off: bool = !capture || !emulation;
    if shared_permission {
        Warnings { capture: off, emulation: false, group: off }
    } else {
        Warnings { capture: !capture, emulation: !emulation, group: off }
    }
}

/// What the one warning says where one permission decides over both.
#[derive(Clone, Copy, Debug, PartialEq, Eq)]
pub struct PermissionWarning {
    pub title: &'static str,
    pub subtitle: &'static str,
    pub button: &'static str,
}

/// What the one warning says: a permission that was granted needs a new start, one
/// that was not is to be granted.
pub fn permission_warning(granted: bool) -> (w: PermissionWarning)
    ensures
        w.title@ == (if granted {
            "relaunch required"@
        } else {
            "input capture is disabled"@
        }),
        w.subtitle@ == (if granted {
            "Accessibility granted \u{2014} restart to activate capture and emulation"@
        } else {
            "grant Accessibility permission to enable"@
        }),
        w.button@ == (if granted {
            "Relaunch"@
        } else {
            "Grant"@
        }),
{
    if granted {
        PermissionWarning {
            title: "relaunch required",
            subtitle: "Accessibility granted \u{2014} restart to activate capture and emulation",
            button: "Relaunch",
        }
    } else {
        PermissionWarning {
            title: "input capture is disabled",
            subtitle: "grant Accessibility permission to enable",
            button: "Grant",
        }
    }
}

/// Each client has at most one row.
pub open spec fn one_row_for_each(rows: Seq<RowModel>) -> bool {
    forall|i: int, j: int|
        0 <= i < j < rows.len() ==> (#[trigger] rows[i]).handle != (#[trigger] rows[j]).handle
}

/// A client that was deleted has no row, and every other row stays, in its order.
pub proof fn law_deleted_clients_have_no_row(rows: Seq<RowModel>, handle: ClientHandle, k: int)
    requires
        one_row_for_each(rows),
        0 <= k < rows.len(),
    ensures
        ({
            let after = forgotten(rows, handle);
            &&& forall|i: int| 0 <= i < after.len() ==> (#[trigger] after[i]).handle != handle
            &&& rows[k].handle == handle ==> after == rows.remove(k)
            &&& rows[k].handle != handle ==> after.contains(rows[k])
            &&& (forall|i: int| 0 <= i < rows.len() ==> (#[trigger] rows[i]).handle != handle)
                ==> after == rows
        }),
{
    let n = rows.len() as int;
    lemma_first(n, is_row_of(rows, handle));
    let after = forgotten(rows, handle);
    match row_index(rows, handle) {
        Some(i) => {
            assert(rows[i].handle == handle);
            assert forall|j: int| 0 <= j < after.len() implies (
            #[trigger] after[j]).handle != handle by {
                if j < i {
                    assert(rows[j].handle != rows[i].handle);
                } else {
                    assert(rows[i].handle != rows[j + 1].handle);
                }
            }
            if rows[k].handle == handle && k != i {
                if k < i {
                    assert(rows[k].handle != rows[i].handle);
                } else {
                    assert(rows[i].handle != rows[k].handle);
                }
            }
            if rows[k].handle != handle {
                if k < i {
                    assert(after[k] == rows[k]);
                } else {
                    assert(after[k - 1] == rows[k]);
                }
            }
        },
        None => {
            assert(!is_row_of(rows, handle)(k));
            assert forall|j: int| 0 <= j < after.len() implies (
            #[trigger] after[j]).handle != handle by {
                assert(!is_row_of(rows, handle)(j));
            }
            assert(after[k] == rows[k]);
        },
    }
}

/// What is heard of a client is shown in its row and in no other: its configuration, its
/// state, or both; a client that is new gets a row at the end.
pub proof fn law_rows_show_what_was_heard(
    rows: Seq<RowModel>,
    handle: ClientHandle,
    c: ClientConfig,
    s: ClientState,
    k: int,
)
    requires
        one_row_for_each(rows),
        0 <= k < rows.len(),
    ensures
        rows[k].handle != handle ==> reconfigured(rows, handle, c)[k] == rows[k] && restated(
            rows,
            handle,
            s,
        )[k] == rows[k] && heard(rows, handle, c, s)[k] == rows[k],
        rows[k].handle == handle ==> {
            let a = reconfigured(rows, handle, c)[k];
            let b = restated(rows, handle, s)[k];
            let d = heard(rows, handle, c, s)[k];
            &&& a.handle == handle && b.handle == handle && d.handle == handle
            &&& a.hostname == c.hostname && a.port == c.port && a.position == c.pos
            &&& a.active == rows[k].active && a.ips == rows[k].ips && a.resolving
                == rows[k].resolving
            &&& b.active == s.active && b.resolving == s.resolving && b.ips == s.ips@
                && b.peer_commit == s.peer_commit && (b.resolved <==> s.ips@.len() > 0)
            &&& b.hostname == rows[k].hostname && b.port == rows[k].port && b.position
                == rows[k].position
            &&& d.hostname == c.hostname && d.port == c.port && d.position == c.pos && d.active
                == s.active && d.ips == s.ips@ && d.resolving == s.resolving
        },
        reconfigured(rows, handle, c).len() == rows.len(),
        restated(rows, handle, s).len() == rows.len(),
        (forall|i: int| 0 <= i < rows.len() ==> (#[trigger] rows[i]).handle != handle) ==> heard(
            rows,
            handle,
            c,
            s,
        ).len() == rows.len() + 1 && heard(rows, handle, c, s).last().handle == handle && heard(
            rows,
            handle,
            c,
            s,
        ).last().hostname == c.hostname,
{
    let n = rows.len() as int;
    lemma_first(n, is_row_of(rows, handle));
    match row_index(rows, handle) {
        Some(i) => {
            assert(rows[i].handle == handle);
            if rows[k].handle == handle && k != i {
                if k < i {
                    assert(rows[k].handle != rows[i].handle);
                } else {
                    assert(rows[i].handle != rows[k].handle);
                }
            }
        },
        None => {
            assert(!is_row_of(rows, handle)(k));
        },
    }
}

/// What is changed in a row is asked for its client, as it was entered: an empty host
/// name is none, and the four sides come in their order.
pub proof fn law_rows_ask_for_their_client(
    r: FrontendRequest,
    handle: ClientHandle,
    name: String,
    port: u16,
    on: bool,
)
    ensures
        change_requested(r, handle, RowChange::Hostname(name)) && name@.len() > 0 ==> (
        r matches FrontendRequest::UpdateHostname(h, Some(n)) && h == handle && n@ == name@),
        change_requested(r, handle, RowChange::Hostname(name)) && name@.len() == 0 ==> (
        r matches FrontendRequest::UpdateHostname(h, None) && h == handle),
        change_requested(r, handle, RowChange::Port(port as u32)) ==> r
            == FrontendRequest::UpdatePort(handle, port),
        change_requested(r, handle, RowChange::Activate(on)) ==> r == FrontendRequest::Activate(
            handle,
            on,
        ),
        change_requested(r, handle, RowChange::Delete) ==> r == FrontendRequest::Delete(handle),
        change_requested(r, handle, RowChange::Dns) ==> r == FrontendRequest::ResolveDns(handle),
        change_requested(r, handle, RowChange::Position(0)) ==> r
            == FrontendRequest::UpdatePosition(handle, Position::Left),
        change_requested(r, handle, RowChange::Position(1)) ==> r
            == FrontendRequest::UpdatePosition(handle, Position::Right),
        change_requested(r, handle, RowChange::Position(2)) ==> r
            == FrontendRequest::UpdatePosition(handle, Position::Top),
        change_requested(r, handle, RowChange::Position(3)) ==> r
            == FrontendRequest::UpdatePosition(handle, Position::Bottom),
{
}

/// A line of the console is shown if and only if it has the level, the stage and the
/// direction that were chosen, and what is searched for.
pub proof fn law_lines_are_chosen(line: Seq<char>, f: ConsoleFilter)
    ensures
        line_shown(line, f) ==> (f.query@.len() > 0 ==> holds(
            lowercase(line),
            lowercase(f.query@),
        )),
        f.level == 0 && f.stage == 0 && f.direction == 0 ==> (line_shown(line, f) <==> f.query@.len()
            == 0 || holds(lowercase(line), lowercase(f.query@))),
        f.stage == 0 && f.direction == 0 && f.query@.len() == 0 ==> {
            &&& f.level == 1 ==> (line_shown(line, f) <==> holds(line, "[ERROR]"@))
            &&& f.level == 2 ==> (line_shown(line, f) <==> holds(line, "[WARN]"@))
            &&& f.level == 3 ==> (line_shown(line, f) <==> holds(line, "[INFO]"@))
            &&& f.level == 4 ==> (line_shown(line, f) <==> holds(line, "[DEBUG]"@))
            &&& f.level == 5 ==> (line_shown(line, f) <==> holds(line, "[TRACE]"@))
        },
        f.level == 0 && f.stage == 0 && f.query@.len() == 0 ==> {
            &&& f.direction == 1 ==> (line_shown(line, f) <==> holds(
                lowercase(line),
                "direction=local"@,
            ))
            &&& f.direction == 2 ==> (line_shown(line, f) <==> holds(
                lowercase(line),
                "direction=outbound"@,
            ))
            &&& f.direction == 3 ==> (line_shown(line, f) <==> holds(
                lowercase(line),
                "direction=inbound"@,
            ))
        },
{
}

/// The lines that are shown are those that were chosen, all of them and in their order.
pub proof fn law_chosen_lines_are_shown(lines: Seq<Seq<char>>, f: ConsoleFilter)
    ensures
        lines_shown(lines, f) == lines.filter(|line: Seq<char>| line_shown(line, f)),
    decreases lines.len(),
{
    reveal(Seq::filter);
    if lines.len() > 0 {
        law_chosen_lines_are_shown(lines.drop_last(), f);
    }
    assert(lines_shown(lines, f) =~= lines.filter(|line: Seq<char>| line_shown(line, f)));
}

/// A transfer has a row of its own with its name and its numbers, which can be cancelled
/// until it is over; what is heard of it changes no other row.
pub proof fn law_transfers_change_their_row(
    rows: Seq<((u64, u64), TransferRowModel)>,
    t: ClipboardTransferStatus,
    k: int,
)
    requires
        0 <= k < rows.len(),
        one_row_each(rows),
    ensures
        ({
            let after = transfer_heard(rows, t);
            let key = (t.transfer_id, t.file_id);
            &&& rows[k].0 != key ==> after[k] == rows[k]
            &&& rows[k].0 == key ==> {
                &&& after.len() == rows.len()
                &&& after[k].0 == key
                &&& after[k].1.title == t.name@
                &&& after[k].1.subtitle == transfer_text(t)
                &&& after[k].1.cancel_visible <==> (t.state is Pending || t.state is Transferring)
            }
        }),
{
    let n = rows.len() as int;
    let key = (t.transfer_id, t.file_id);
    lemma_first(n, is_transfer(rows, key));
    match transfer_index(rows, key) {
        Some(i) => {
            assert(rows[i].0 == key);
            if rows[k].0 == key && k != i {
                if k < i {
                    assert(rows[k].0 != rows[i].0);
                } else {
                    assert(rows[i].0 != rows[k].0);
                }
            }
        },
        None => {
            assert(!is_transfer(rows, key)(k));
        },
    }
}

} // verus!

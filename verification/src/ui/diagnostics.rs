//! The live log of the daemon: its records, and the window that is shown of
//! them.
use crate::text::chars_of;
use crate::text::find_char;
use crate::text::has_part;
use crate::text::holds;
use crate::text::index_of;
use crate::text::lower;
use crate::text::lower_chars;
use crate::text::lowercase;
use crate::text::parts_of;
use crate::text::same_chars;
use crate::text::same_text;
use crate::text::string_of;
use crate::text::to_lowercase;
use crate::text::trim;
use crate::text::trim_chars;
use crate::text::trim_text;
use crate::text::words;
use crate::text::words_of;
use std::collections::VecDeque;
use vstd::prelude::*;

verus! {

/// How many records are kept.
pub const MAX_DIAGNOSTIC_ENTRIES: usize = 2_000;

/// One record of the log.
#[derive(Clone, Debug, PartialEq, Eq)]
pub struct LiveDiagnostic {
    pub timestamp: String,
    pub level: String,
    pub stage: String,
    pub direction: String,
    pub correlation: String,
    pub message: String,
}

/// Which records are shown.
#[derive(Clone, Debug, PartialEq, Eq)]
pub struct DiagnosticFilter {
    pub level: String,
    pub stage: String,
    pub direction: String,
    pub query: String,
    pub paused: bool,
    pub follow_tail: bool,
}

/// The records, and those that were there when the view was paused.
#[derive(Debug)]
pub struct DiagnosticStore {
    pub entries: VecDeque<LiveDiagnostic>,
    pub paused_entries: Option<Vec<LiveDiagnostic>>,
    pub filter: DiagnosticFilter,
    pub stream_status: String,
    pub last_error: Option<String>,
}

// ---------------------------------------------------------------------------
// The store
// ---------------------------------------------------------------------------

/// The last `n` of a sequence, or all where there are fewer.
pub open spec fn last_of<T>(s: Seq<T>, n: nat) -> Seq<T> {
    if s.len() <= n {
        s
    } else {
        s.skip(s.len() - n)
    }
}

/// A text matches a choice: the choice is `all`, or the text itself.
pub open spec fn chosen(choice: Seq<char>, text: Seq<char>) -> bool {
    choice == "all"@ || text == choice
}

/// A record that the filter lets through.
pub open spec fn matches(f: DiagnosticFilter, e: LiveDiagnostic) -> bool {
    let query = lowercase(trim(f.query@));
    &&& chosen(f.level@, e.level@)
    &&& chosen(f.stage@, e.stage@)
    &&& chosen(f.direction@, e.direction@)
    &&& (trim(f.query@).len() == 0 || holds(lowercase(e.timestamp@), query) || holds(
        lowercase(e.level@),
        query,
    ) || holds(lowercase(e.stage@), query) || holds(lowercase(e.direction@), query) || holds(
        lowercase(e.correlation@),
        query,
    ) || holds(lowercase(e.message@), query))
}

/// The records that the filter lets through, oldest first.
pub open spec fn matching(f: DiagnosticFilter, entries: Seq<LiveDiagnostic>) -> Seq<LiveDiagnostic>
    decreases entries.len(),
{
    if entries.len() == 0 {
        Seq::empty()
    } else {
        let front = matching(f, entries.drop_last());
        if matches(f, entries.last()) {
            front.push(entries.last())
        } else {
            front
        }
    }
}

impl DiagnosticStore {
    /// The records that are looked at: those at the time of the pause, or the
    /// present ones.
    pub open spec fn visible(&self) -> Seq<LiveDiagnostic> {
        match self.paused_entries {
            Some(entries) => entries@,
            None => self.entries@,
        }
    }
}

impl Default for DiagnosticFilter {
    /// Everything is shown, and the newest record followed.
    fn default() -> (f: DiagnosticFilter)
        ensures
            f.level@ == "all"@,
            f.stage@ == "all"@,
            f.direction@ == "all"@,
            f.query@ == Seq::<char>::empty(),
            !f.paused,
            f.follow_tail,
    {
        DiagnosticFilter {
            level: "all".to_owned(),
            stage: "all".to_owned(),
            direction: "all".to_owned(),
            query: String::new(),
            paused: false,
            follow_tail: true,
        }
    }
}

impl Default for DiagnosticStore {
    /// No records yet.
    fn default() -> (s: DiagnosticStore)
        ensures
            s.entries@ == Seq::<LiveDiagnostic>::empty(),
            s.paused_entries is None,
            s.filter.level@ == "all"@,
            s.filter.stage@ == "all"@,
            s.filter.direction@ == "all"@,
            s.filter.query@ == Seq::<char>::empty(),
            !s.filter.paused,
            s.filter.follow_tail,
            s.stream_status@ == Seq::<char>::empty(),
            s.last_error is None,
    {
        DiagnosticStore {
            entries: VecDeque::new(),
            paused_entries: None,
            filter: DiagnosticFilter::default(),
            stream_status: String::new(),
            last_error: None,
        }
    }
}

fn copy_record(e: &LiveDiagnostic) -> (r: LiveDiagnostic)
    ensures
        r == *e,
{
    LiveDiagnostic {
        timestamp: e.timestamp.clone(),
        level: e.level.clone(),
        stage: e.stage.clone(),
        direction: e.direction.clone(),
        correlation: e.correlation.clone(),
        message: e.message.clone(),
    }
}

fn is_chosen(choice: &str, text: &str) -> (r: bool)
    ensures
        r == chosen(choice@, text@),
{
    same_text(choice, "all") || same_text(text, choice)
}

fn found(text: &str, query: &[char]) -> (r: bool)
    ensures
        r == holds(lowercase(text@), query@),
{
    has_part(chars_of(to_lowercase(text).as_str()).as_slice(), query)
}

impl DiagnosticFilter {
    /// Whether the filter lets a record through.
    pub fn admits(&self, e: &LiveDiagnostic) -> (r: bool)
        ensures
            r == matches(*self, *e),
    {
        let trimmed: String = trim_text(self.query.as_str());
        let everything: bool = trimmed.as_str().unicode_len() == 0;
        let query: Vec<char> = chars_of(to_lowercase(trimmed.as_str()).as_str());
        let query: &[char] = query.as_slice();
        is_chosen(self.level.as_str(), e.level.as_str()) && is_chosen(
            self.stage.as_str(),
            e.stage.as_str(),
        ) && is_chosen(self.direction.as_str(), e.direction.as_str()) && (everything
            || found(e.timestamp.as_str(), query) || found(e.level.as_str(), query) || found(
            e.stage.as_str(),
            query,
        ) || found(e.direction.as_str(), query) || found(e.correlation.as_str(), query) || found(
            e.message.as_str(),
            query,
        ))
    }
}

/// What lets through the newest records lets through the newest of them.
proof fn lemma_matching_split(f: DiagnosticFilter, entries: Seq<LiveDiagnostic>, i: int)
    requires
        0 <= i <= entries.len(),
    ensures
        matching(f, entries) == matching(f, entries.take(i)) + matching(f, entries.skip(i)),
    decreases entries.len() - i,
{
    if i == entries.len() {
        assert(entries.take(i) =~= entries);
        assert(entries.skip(i) =~= Seq::<LiveDiagnostic>::empty());
        assert(matching(f, entries) =~= matching(f, entries) + Seq::<LiveDiagnostic>::empty());
    } else {
        let front = entries.drop_last();
        lemma_matching_split(f, front, i);
        assert(front.take(i) =~= entries.take(i));
        assert(entries.skip(i).drop_last() =~= front.skip(i));
        assert(entries.skip(i).last() == entries.last());
        assert(matching(f, entries) =~= matching(f, entries.take(i)) + matching(
            f,
            entries.skip(i),
        ));
    }
}

proof fn lemma_matching_one(f: DiagnosticFilter, e: LiveDiagnostic)
    ensures
        matching(f, seq![e]) == (if matches(f, e) {
            seq![e]
        } else {
            Seq::empty()
        }),
{
    assert(seq![e].drop_last() =~= Seq::<LiveDiagnostic>::empty());
    assert(matching(f, seq![e].drop_last()) =~= Seq::<LiveDiagnostic>::empty());
    assert(Seq::<LiveDiagnostic>::empty().push(e) =~= seq![e]);
}

/// The records at the newest places that the filter lets through, at most
/// `limit` of them, newest first.
fn newest_matching(f: &DiagnosticFilter, n: usize, limit: usize, store: &DiagnosticStore) -> (r:
    Vec<LiveDiagnostic>)
    requires
        n == store.visible().len(),
    ensures
        r@.reverse() == last_of(matching(*f, store.visible()), limit as nat),
{
    let ghost all = store.visible();
    let mut r: Vec<LiveDiagnostic> = Vec::new();
    let mut i: usize = n;
    assert(all.skip(n as int) =~= Seq::<LiveDiagnostic>::empty());
    assert(r@.reverse() =~= matching(*f, all.skip(n as int)));
    while i > 0 && r.len() < limit
        invariant
            i <= n,
            n == all.len(),
            all == store.visible(),
            r@.len() <= limit,
            r@.reverse() == matching(*f, all.skip(i as int)),
        decreases i,
    {
        i = i - 1;
        let e: LiveDiagnostic = match &store.paused_entries {
            Some(entries) => copy_record(&entries[i]),
            None => copy_record(&store.entries[i]),
        };
        assert(e == all[i as int]);
        let ghost before = r@;
        proof {
            let rest = all.skip(i as int);
            lemma_matching_split(*f, rest, 1);
            assert(rest.take(1) =~= seq![e]);
            assert(rest.skip(1) =~= all.skip(i + 1));
            lemma_matching_one(*f, e);
        }
        if f.admits(&e) {
            r.push(e);
            assert(r@.reverse() =~= seq![e] + before.reverse());
        } else {
            assert(r@.reverse() =~= Seq::<LiveDiagnostic>::empty() + before.reverse());
        }
    }
    proof {
        lemma_matching_split(*f, all, i as int);
        let older = matching(*f, all.take(i as int));
        let newer = matching(*f, all.skip(i as int));
        if i == 0 {
            assert(all.take(0) =~= Seq::<LiveDiagnostic>::empty());
            assert(older + newer =~= newer);
            assert(last_of(older + newer, limit as nat) == newer);
        } else {
            assert(newer.len() == limit);
            if older.len() == 0 {
                assert(older + newer =~= newer);
            } else {
                assert((older + newer).skip((older + newer).len() - limit) =~= newer);
            }
        }
    }
    r
}

fn reverse_records(v: Vec<LiveDiagnostic>) -> (r: Vec<LiveDiagnostic>)
    ensures
        r@ == v@.reverse(),
{
    let ghost all = v@;
    let mut rest: Vec<LiveDiagnostic> = v;
    let mut r: Vec<LiveDiagnostic> = Vec::new();
    while rest.len() > 0
        invariant
            rest@.len() <= all.len(),
            rest@ == all.take(rest@.len() as int),
            r@.len() + rest@.len() == all.len(),
            forall|j: int| 0 <= j < r@.len() ==> r@[j] == all[all.len() - 1 - j],
        decreases rest@.len(),
    {
        let ghost before = rest@;
        if let Some(e) = rest.pop() {
            r.push(e);
        }
        assert(rest@ =~= all.take(rest@.len() as int));
    }
    assert(r@ =~= all.reverse());
    r
}

/// What a record that comes does.
pub open spec fn pushes(before: DiagnosticStore, entry: LiveDiagnostic, after: DiagnosticStore) -> bool {
    &&& after.entries@ == last_of(
        before.entries@.push(entry),
        MAX_DIAGNOSTIC_ENTRIES as nat,
    )
    &&& after.paused_entries == before.paused_entries
    &&& after.filter == before.filter
    &&& after.stream_status == before.stream_status
    &&& after.last_error == before.last_error
}

/// What pausing and going on does.
pub open spec fn pauses(before: DiagnosticStore, paused: bool, after: DiagnosticStore) -> bool {
    &&& paused == before.filter.paused ==> after == before
    &&& paused != before.filter.paused ==> {
        &&& after.entries == before.entries
        &&& after.filter == (DiagnosticFilter { paused, ..before.filter })
        &&& after.stream_status == before.stream_status
        &&& after.last_error == before.last_error
        &&& after.paused_entries is Some == paused
        &&& paused ==> after.paused_entries->Some_0@ == before.entries@
    }
}

impl DiagnosticStore {
    /// A store without a stream, and why there is none.
    pub fn unavailable(message: String) -> (s: DiagnosticStore)
        ensures
            s.entries@ == Seq::<LiveDiagnostic>::empty(),
            s.paused_entries is None,
            s.filter.level@ == "all"@,
            s.filter.stage@ == "all"@,
            s.filter.direction@ == "all"@,
            s.filter.query@ == Seq::<char>::empty(),
            !s.filter.paused,
            s.filter.follow_tail,
            s.stream_status@ == "Unavailable"@,
            s.last_error == Some(message),
    {
        DiagnosticStore {
            stream_status: "Unavailable".to_owned(),
            last_error: Some(message),
            ..DiagnosticStore::default()
        }
    }

    /// Takes a record in; the oldest ones leave.
    pub fn push(&mut self, entry: LiveDiagnostic)
        ensures
            pushes(*old(self), entry, *final(self)),
    {
        self.entries.push_back(entry);
        let ghost all = self.entries@;
        while self.entries.len() > MAX_DIAGNOSTIC_ENTRIES
            invariant
                self.entries@.len() <= all.len(),
                self.entries@ == all.skip(all.len() - self.entries@.len()),
                all.len() > MAX_DIAGNOSTIC_ENTRIES ==> self.entries@.len()
                    >= MAX_DIAGNOSTIC_ENTRIES,
                all.len() <= MAX_DIAGNOSTIC_ENTRIES ==> self.entries@.len() == all.len(),
                self.paused_entries == old(self).paused_entries,
                self.filter == old(self).filter,
                self.stream_status == old(self).stream_status,
                self.last_error == old(self).last_error,
            decreases self.entries@.len(),
        {
            let ghost before = self.entries@;
            self.entries.pop_front();
            assert(self.entries@ =~= before.skip(1));
            assert(self.entries@ =~= all.skip(all.len() - self.entries@.len()));
        }
        assert(all.skip(0) =~= all);
    }

    /// Forgets every record.
    pub fn clear(&mut self)
        ensures
            final(self).entries@ == Seq::<LiveDiagnostic>::empty(),
            old(self).paused_entries is None ==> final(self).paused_entries is None,
            old(self).paused_entries is Some ==> final(self).paused_entries is Some
                && final(self).paused_entries->Some_0@ == Seq::<LiveDiagnostic>::empty(),
            final(self).filter == old(self).filter,
            final(self).stream_status == old(self).stream_status,
            final(self).last_error == old(self).last_error,
    {
        self.entries.clear();
        if self.paused_entries.is_some() {
            self.paused_entries = Some(Vec::new());
        }
    }

    /// Pauses the view, which then shows what is there now, or lets it go on.
    pub fn set_paused(&mut self, paused: bool)
        ensures
            pauses(*old(self), paused, *final(self)),
    {
        if paused == self.filter.paused {
            return;
        }
        self.filter.paused = paused;
        if paused {
            let mut copy: Vec<LiveDiagnostic> = Vec::new();
            let n: usize = self.entries.len();
            let mut i: usize = 0;
            while i < n
                invariant
                    i <= n,
                    n == self.entries@.len(),
                    copy@ == self.entries@.take(i as int),
                decreases n - i,
            {
                copy.push(copy_record(&self.entries[i]));
                i = i + 1;
                assert(copy@ =~= self.entries@.take(i as int));
            }
            assert(copy@ =~= self.entries@);
            self.paused_entries = Some(copy);
        } else {
            self.paused_entries = None;
        }
    }

    /// Most recent entries matching the active filter, newest last.
    ///
    /// `limit` bounds the result because the view only ever shows a window of
    /// rows.
    pub fn filtered(&self, limit: usize) -> (r: Vec<LiveDiagnostic>)
        ensures
            r@ == last_of(matching(self.filter, self.visible()), limit as nat),
    {
        let n: usize = match &self.paused_entries {
            Some(entries) => entries.len(),
            None => self.entries.len(),
        };
        reverse_records(newest_matching(&self.filter, n, limit, self))
    }
}

// ---------------------------------------------------------------------------
// Log lines
// ---------------------------------------------------------------------------

/// A record with its texts as characters.
pub ghost struct RecordModel {
    pub timestamp: Seq<char>,
    pub level: Seq<char>,
    pub stage: Seq<char>,
    pub direction: Seq<char>,
    pub correlation: Seq<char>,
    pub message: Seq<char>,
}

impl View for LiveDiagnostic {
    type V = RecordModel;

    open spec fn view(&self) -> RecordModel {
        RecordModel {
            timestamp: self.timestamp@,
            level: self.level@,
            stage: self.stage@,
            direction: self.direction@,
            correlation: self.correlation@,
            message: self.message@,
        }
    }
}

/// What stands in brackets at the start of a text, and what follows them.
pub open spec fn bracketed(s: Seq<char>) -> Option<(Seq<char>, Seq<char>)> {
    if s.len() == 0 || s[0] != '[' {
        None
    } else {
        let inner = s.drop_first();
        match index_of(inner, ']') {
            Some(end) => Some((inner.take(end), inner.skip(end + 1))),
            None => None,
        }
    }
}

/// A character that ends a value in a log line.
pub open spec fn closing(c: char) -> bool {
    c == ',' || c == ';' || c == ')' || c == ']' || c == '}'
}

pub open spec fn trim_closing_start(s: Seq<char>) -> Seq<char>
    decreases s.len(),
{
    if s.len() > 0 && closing(s[0]) {
        trim_closing_start(s.drop_first())
    } else {
        s
    }
}

pub open spec fn trim_closing_end(s: Seq<char>) -> Seq<char>
    decreases s.len(),
{
    if s.len() > 0 && closing(s.last()) {
        trim_closing_end(s.drop_last())
    } else {
        s
    }
}

/// The value of a word `key=value`, where the word has that key.
pub open spec fn word_value(word: Seq<char>, key: Seq<char>) -> Option<Seq<char>> {
    match index_of(word, '=') {
        Some(i) => if lower(word.take(i)) == lower(key) {
            Some(trim_closing_end(trim_closing_start(word.skip(i + 1))))
        } else {
            None
        },
        None => None,
    }
}

/// The value of the first word from `i` on that has the key.
pub open spec fn value_from(ws: Seq<Seq<char>>, key: Seq<char>, i: int) -> Option<Seq<char>>
    decreases ws.len() - i,
{
    if i < 0 || i >= ws.len() {
        None
    } else {
        match word_value(ws[i], key) {
            Some(v) => Some(v),
            None => value_from(ws, key, i + 1),
        }
    }
}

/// The value that a message gives a key.
pub open spec fn value_in(message: Seq<char>, key: Seq<char>) -> Option<Seq<char>> {
    value_from(words(message), key, 0)
}

/// The direction of a record, under its one name.
pub open spec fn direction_named(s: Seq<char>) -> Seq<char> {
    let d = lower(s);
    if d == "inbound"@ || d == "incoming"@ {
        "incoming"@
    } else if d == "outbound"@ || d == "outgoing"@ {
        "outgoing"@
    } else {
        d
    }
}

/// The level of a record, under its one name.
pub open spec fn level_named(s: Seq<char>) -> Seq<char> {
    if lower(s) == "warn"@ {
        "warning"@
    } else {
        lower(s)
    }
}

/// The stage that the words of a record speak of.
pub open spec fn stage_of(target: Seq<char>, message: Seq<char>) -> Seq<char> {
    let s = lower(target.push(' ') + message);
    if holds(s, "clipboard"@) || holds(s, "manifest"@) || holds(s, "selection"@) || holds(
        s,
        "paste"@,
    ) {
        "clipboard"@
    } else if holds(s, "capture"@) || holds(s, "emulation"@) {
        "capture"@
    } else if holds(s, "authoriz"@) || holds(s, "fingerprint"@) {
        "authorization"@
    } else {
        "network"@
    }
}

/// The record of a log line `[time][level][target] message`.
pub open spec fn record_of(line: Seq<char>) -> Option<RecordModel> {
    match bracketed(trim(line)) {
        None => None,
        Some((timestamp, rest)) => match bracketed(rest) {
            None => None,
            Some((level, rest)) => match bracketed(rest) {
                None => None,
                Some((target, rest)) => {
                    let message = trim(rest);
                    Some(
                        RecordModel {
                            timestamp,
                            level: level_named(level),
                            stage: lower(
                                match value_in(message, "stage"@) {
                                    Some(stage) => stage,
                                    None => stage_of(target, message),
                                },
                            ),
                            direction: match value_in(message, "direction"@) {
                                Some(direction) => direction_named(direction),
                                None => Seq::empty(),
                            },
                            correlation: match value_in(message, "correlation"@) {
                                Some(v) => v,
                                None => match value_in(message, "transfer"@) {
                                    Some(v) => v,
                                    None => Seq::empty(),
                                },
                            },
                            message,
                        },
                    )
                },
            },
        },
    }
}

fn slice_chars(v: &[char], from: usize, to: usize) -> (r: Vec<char>)
    requires
        from <= to <= v@.len(),
    ensures
        r@ == v@.subrange(from as int, to as int),
{
    vstd::slice::slice_to_vec(vstd::slice::slice_subrange(v, from, to))
}

fn take_bracketed(v: &[char]) -> (r: Option<(Vec<char>, Vec<char>)>)
    ensures
        match r {
            Some((inner, rest)) => bracketed(v@) == Some((inner@, rest@)),
            None => bracketed(v@) is None,
        },
{
    if v.len() == 0 || v[0] != '[' {
        return None;
    }
    let inner: Vec<char> = slice_chars(v, 1, v.len());
    assert(inner@ =~= v@.drop_first());
    match find_char(inner.as_slice(), ']') {
        Some(end) => {
            let head: Vec<char> = slice_chars(inner.as_slice(), 0, end);
            let rest: Vec<char> = slice_chars(inner.as_slice(), end + 1, inner.len());
            assert(head@ =~= inner@.take(end as int));
            assert(rest@ =~= inner@.skip(end + 1));
            Some((head, rest))
        },
        None => None,
    }
}

fn is_closing(c: char) -> (r: bool)
    ensures
        r == closing(c),
{
    c == ',' || c == ';' || c == ')' || c == ']' || c == '}'
}

fn trim_closing(v: Vec<char>) -> (r: Vec<char>)
    ensures
        r@ == trim_closing_end(trim_closing_start(v@)),
{
    let ghost all = v@;
    let mut r: Vec<char> = v;
    while r.len() > 0 && is_closing(r[0])
        invariant
            trim_closing_start(r@) == trim_closing_start(all),
        decreases r@.len(),
    {
        let ghost before = r@;
        r.remove(0);
        assert(r@ =~= before.drop_first());
    }
    while r.len() > 0 && is_closing(r[r.len() - 1])
        invariant
            trim_closing_end(r@) == trim_closing_end(trim_closing_start(all)),
        decreases r@.len(),
    {
        r.pop();
    }
    r
}

/// The value that a message gives a key.
pub fn metadata_value(message: &[char], key: &str) -> (r: Option<String>)
    ensures
        match r {
            Some(v) => value_in(message@, key@) == Some(v@),
            None => value_in(message@, key@) is None,
        },
{
    let ws: Vec<Vec<char>> = words_of(message);
    let key_chars: Vec<char> = lower_chars(chars_of(key).as_slice());
    let ghost all = words(message@);
    let mut i: usize = 0;
    while i < ws.len()
        invariant
            i <= ws@.len(),
            all == words(message@),
            parts_of(ws@) == all,
            key_chars@ == lower(key@),
            value_from(all, key@, 0) == value_from(all, key@, i as int),
        decreases ws@.len() - i,
    {
        let word: &Vec<char> = &ws[i];
        assert(word@ == all[i as int]);
        if let Some(at) = find_char(word.as_slice(), '=') {
            let name: Vec<char> = lower_chars(slice_chars(word.as_slice(), 0, at).as_slice());
            assert(word@.subrange(0, at as int) =~= word@.take(at as int));
            if same_chars(name.as_slice(), key_chars.as_slice()) {
                let value: Vec<char> = slice_chars(word.as_slice(), at + 1, word.len());
                assert(value@ =~= word@.skip(at + 1));
                let value: Vec<char> = trim_closing(value);
                return Some(string_of(value.as_slice()));
            }
        }
        i = i + 1;
    }
    None
}

/// The direction of a record, under its one name.
pub fn normalize_direction(value: &str) -> (r: String)
    ensures
        r@ == direction_named(value@),
{
    let d: String = crate::text::to_ascii_lower(value);
    if same_text(d.as_str(), "inbound") || same_text(d.as_str(), "incoming") {
        "incoming".to_owned()
    } else if same_text(d.as_str(), "outbound") || same_text(d.as_str(), "outgoing") {
        "outgoing".to_owned()
    } else {
        d
    }
}

/// The stage that the words of a record speak of.
pub fn classify_stage(target: &[char], message: &[char]) -> (r: String)
    ensures
        r@ == stage_of(target@, message@),
{
    let mut all: Vec<char> = vstd::slice::slice_to_vec(target);
    all.push(' ');
    all.extend_from_slice(message);
    assert(all@ =~= target@.push(' ') + message@);
    let s: Vec<char> = lower_chars(all.as_slice());
    let s: &[char] = s.as_slice();
    if has_part(s, chars_of("clipboard").as_slice()) || has_part(
        s,
        chars_of("manifest").as_slice(),
    ) || has_part(s, chars_of("selection").as_slice()) || has_part(
        s,
        chars_of("paste").as_slice(),
    ) {
        "clipboard".to_owned()
    } else if has_part(s, chars_of("capture").as_slice()) || has_part(
        s,
        chars_of("emulation").as_slice(),
    ) {
        "capture".to_owned()
    } else if has_part(s, chars_of("authoriz").as_slice()) || has_part(
        s,
        chars_of("fingerprint").as_slice(),
    ) {
        "authorization".to_owned()
    } else {
        "network".to_owned()
    }
}

/// The record of a log line, where it is one.
pub fn parse_record(line: &str) -> (r: Option<LiveDiagnostic>)
    ensures
        match r {
            Some(e) => record_of(line@) == Some(e@),
            None => record_of(line@) is None,
        },
{
    let line: Vec<char> = trim_chars(chars_of(line).as_slice());
    let (timestamp, rest) = match take_bracketed(line.as_slice()) {
        Some(parts) => parts,
        None => return None,
    };
    let (level, rest) = match take_bracketed(rest.as_slice()) {
        Some(parts) => parts,
        None => return None,
    };
    let (target, rest) = match take_bracketed(rest.as_slice()) {
        Some(parts) => parts,
        None => return None,
    };
    let message: Vec<char> = trim_chars(rest.as_slice());
    let level: String = string_of(lower_chars(level.as_slice()).as_slice());
    let level: String = if same_text(level.as_str(), "warn") {
        "warning".to_owned()
    } else {
        level
    };
    let stage: String = match metadata_value(message.as_slice(), "stage") {
        Some(stage) => stage,
        None => classify_stage(target.as_slice(), message.as_slice()),
    };
    let direction: String = match metadata_value(message.as_slice(), "direction") {
        Some(direction) => normalize_direction(direction.as_str()),
        None => String::new(),
    };
    let correlation: String = match metadata_value(message.as_slice(), "correlation") {
        Some(correlation) => correlation,
        None => match metadata_value(message.as_slice(), "transfer") {
            Some(transfer) => transfer,
            None => String::new(),
        },
    };
    Some(
        LiveDiagnostic {
            timestamp: string_of(timestamp.as_slice()),
            level,
            stage: crate::text::to_ascii_lower(stage.as_str()),
            direction,
            correlation,
            message: string_of(message.as_slice()),
        },
    )
}

// ---------------------------------------------------------------------------
// The window of rows
// ---------------------------------------------------------------------------

/// Rows handed to the diagnostics view at once.
///
/// The list is a scrolling tail, so showing more than a screenful plus
/// scrollback buys nothing.
pub const DIAGNOSTIC_VISIBLE_ROWS: usize = 400;

/// How the rows on the screen are brought up to date.
#[derive(Clone, Copy, Debug, PartialEq, Eq, Structural)]
pub enum RowUpdate {
    /// Nothing has changed.
    Keep,
    /// The rows are put in place of the ones that are shown.
    Replace,
    /// As many of the last rows are appended, then the first ones removed until
    /// no more than fit are left.
    Append(usize),
}

/// What changed since the rows were shown last: the number of records that had
/// come by then, and the revision of the filter.
pub open spec fn row_update(
    shown: (u64, u64),
    appended: u64,
    revision: u64,
    rows: nat,
) -> RowUpdate {
    let rebuild = revision != shown.1 || appended < shown.0;
    if !rebuild && appended == shown.0 {
        RowUpdate::Keep
    } else if rebuild || appended - shown.0 >= rows {
        RowUpdate::Replace
    } else {
        RowUpdate::Append((appended - shown.0) as usize)
    }
}

/// Decides how the rows on the screen are brought up to date. A filter that
/// changed selects other records, so nothing can be appended then.
pub fn plan_rows(shown: (u64, u64), appended: u64, revision: u64, rows: usize) -> (r: RowUpdate)
    ensures
        r == row_update(shown, appended, revision, rows as nat),
{
    let rebuild: bool = revision != shown.1 || appended < shown.0;
    if rebuild {
        return RowUpdate::Replace;
    }
    let new_records: u64 = appended - shown.0;
    if new_records == 0 {
        RowUpdate::Keep
    } else if new_records >= rows as u64 {
        RowUpdate::Replace
    } else {
        RowUpdate::Append(new_records as usize)
    }
}

/// The longest message, in bytes.
pub open spec fn longest(rows: Seq<LiveDiagnostic>) -> nat
    decreases rows.len(),
{
    if rows.len() == 0 {
        0
    } else {
        let n = crate::text::byte_len(rows.last().message@);
        let m = longest(rows.drop_last());
        if n > m {
            n
        } else {
            m
        }
    }
}

/// The width of the message column: that of the longest message, at least 80,
/// and at most 400, so that one line cannot widen the table for every row.
pub open spec fn columns_of(rows: Seq<LiveDiagnostic>) -> int {
    if longest(rows) < 80 {
        80
    } else if longest(rows) > 400 {
        400
    } else {
        longest(rows) as int
    }
}

/// The width of the message column.
pub fn message_columns(rows: &Vec<LiveDiagnostic>) -> (n: i32)
    ensures
        n == columns_of(rows@),
{
    let mut best: usize = 0;
    let mut i: usize = 0;
    while i < rows.len()
        invariant
            i <= rows@.len(),
            best == longest(rows@.take(i as int)),
        decreases rows@.len() - i,
    {
        let n: usize = crate::text::len_of(rows[i].message.as_str());
        assert(rows@.take(i + 1).drop_last() =~= rows@.take(i as int));
        if n > best {
            best = n;
        }
        i = i + 1;
    }
    assert(rows@.take(rows@.len() as int) =~= rows@);
    if best < 80 {
        80
    } else if best > 400 {
        400
    } else {
        best as i32
    }
}

/// What is on the screen of the log.
#[derive(Debug)]
pub struct DiagnosticsView {
    pub rows: Vec<LiveDiagnostic>,
    /// How many records had come when it was shown last, and the revision of
    /// the filter then.
    pub shown: (u64, u64),
    pub message_columns: i32,
    pub paused: bool,
    pub error: String,
}

/// The rows on the screen after an update.
pub open spec fn rows_after(
    before: Seq<LiveDiagnostic>,
    rows: Seq<LiveDiagnostic>,
    update: RowUpdate,
) -> Seq<LiveDiagnostic> {
    match update {
        RowUpdate::Keep => before,
        RowUpdate::Replace => rows,
        RowUpdate::Append(n) => last_of(
            before + rows.skip(rows.len() - n),
            DIAGNOSTIC_VISIBLE_ROWS as nat,
        ),
    }
}

/// The screen after the store was looked at.
pub open spec fn view_follows(
    before: DiagnosticsView,
    after: DiagnosticsView,
    store: DiagnosticStore,
    appended: u64,
    revision: u64,
) -> bool {
    let rows = last_of(matching(store.filter, store.visible()), DIAGNOSTIC_VISIBLE_ROWS as nat);
    let update = row_update(before.shown, appended, revision, rows.len());
    if update == RowUpdate::Keep {
        after == before
    } else {
        &&& after.rows@ == rows_after(before.rows@, rows, update)
        &&& after.shown == (appended, revision)
        &&& after.message_columns == columns_of(rows)
        &&& after.paused == store.filter.paused
        &&& after.error@ == (match store.last_error {
            Some(error) => error@,
            None => store.stream_status@,
        })
    }
}

/// Brings the screen up to date. `appended` counts the records that ever came,
/// `revision` the changes of the filter.
pub fn project_live_diagnostics(
    view: &mut DiagnosticsView,
    store: &DiagnosticStore,
    appended: u64,
    revision: u64,
)
    ensures
        view_follows(*old(view), *final(view), *store, appended, revision),
{
    let rows: Vec<LiveDiagnostic> = store.filtered(DIAGNOSTIC_VISIBLE_ROWS);
    let columns: i32 = message_columns(&rows);
    match plan_rows(view.shown, appended, revision, rows.len()) {
        RowUpdate::Keep => {
            return;
        },
        RowUpdate::Replace => {
            view.rows = rows;
        },
        RowUpdate::Append(n) => {
            let ghost before = view.rows@;
            let start: usize = rows.len() - n;
            let mut i: usize = start;
            while i < rows.len()
                invariant
                    start <= i <= rows@.len(),
                    view.rows@ == before + rows@.subrange(start as int, i as int),
                    view.shown == old(view).shown,
                decreases rows@.len() - i,
            {
                view.rows.push(copy_record(&rows[i]));
                i = i + 1;
                assert(view.rows@ =~= before + rows@.subrange(start as int, i as int));
            }
            let ghost all = view.rows@;
            assert(rows@.subrange(start as int, rows@.len() as int) =~= rows@.skip(start as int));
            assert(all.skip(0) =~= all);
            while view.rows.len() > DIAGNOSTIC_VISIBLE_ROWS
                invariant
                    view.rows@.len() <= all.len(),
                    view.rows@ == all.skip(all.len() - view.rows@.len()),
                    all.len() > DIAGNOSTIC_VISIBLE_ROWS ==> view.rows@.len()
                        >= DIAGNOSTIC_VISIBLE_ROWS,
                    all.len() <= DIAGNOSTIC_VISIBLE_ROWS ==> view.rows@.len() == all.len(),
                decreases view.rows@.len(),
            {
                let ghost longer = view.rows@;
                view.rows.remove(0);
                assert(view.rows@ =~= longer.skip(1));
                assert(view.rows@ =~= all.skip(all.len() - view.rows@.len()));
            }
        },
    }
    view.shown = (appended, revision);
    view.message_columns = columns;
    view.paused = store.filter.paused;
    view.error = match &store.last_error {
        Some(error) => error.clone(),
        None => store.stream_status.clone(),
    };
}

// ---------------------------------------------------------------------------
// Laws
// ---------------------------------------------------------------------------

/// The store never holds more than its bound, and the newest record is in it.
pub proof fn law_bounded_and_newest(entries: Seq<LiveDiagnostic>, e: LiveDiagnostic)
    ensures
        last_of(entries.push(e), MAX_DIAGNOSTIC_ENTRIES as nat).len() <= MAX_DIAGNOSTIC_ENTRIES,
        last_of(entries.push(e), MAX_DIAGNOSTIC_ENTRIES as nat).last() == e,
{
}

/// A window never holds more than was asked for, and only records that the
/// filter lets through.
pub proof fn law_window(f: DiagnosticFilter, entries: Seq<LiveDiagnostic>, limit: nat)
    ensures
        last_of(matching(f, entries), limit).len() <= limit,
        forall|i: int|
            0 <= i < last_of(matching(f, entries), limit).len() ==> matches(
                f,
                #[trigger] last_of(matching(f, entries), limit)[i],
            ),
{
    lemma_all_match(f, entries);
    let all = matching(f, entries);
    assert forall|i: int| 0 <= i < last_of(all, limit).len() implies matches(
        f,
        #[trigger] last_of(all, limit)[i],
    ) by {
        if all.len() > limit {
            assert(last_of(all, limit)[i] == all[i + all.len() - limit]);
        }
    }
}

/// What is left of some records that came one after the other, behind those that
/// were there.
pub open spec fn pushed(entries: Seq<LiveDiagnostic>, new: Seq<LiveDiagnostic>) -> Seq<
    LiveDiagnostic,
>
    decreases new.len(),
{
    if new.len() == 0 {
        entries
    } else {
        last_of(pushed(entries, new.drop_last()).push(new.last()), MAX_DIAGNOSTIC_ENTRIES as nat)
    }
}

/// A filter that asks for nothing in particular.
pub open spec fn admits_all(f: DiagnosticFilter) -> bool {
    &&& f.level@ == "all"@
    &&& f.stage@ == "all"@
    &&& f.direction@ == "all"@
    &&& trim(f.query@).len() == 0
}

/// A filter that asks for nothing in particular, an empty search among it, lets
/// every record through.
pub proof fn law_empty_search_shows_everything(f: DiagnosticFilter, entries: Seq<LiveDiagnostic>)
    requires
        admits_all(f),
    ensures
        matching(f, entries) == entries,
    decreases entries.len(),
{
    if entries.len() > 0 {
        law_empty_search_shows_everything(f, entries.drop_last());
        assert(matching(f, entries) =~= entries);
    } else {
        assert(matching(f, entries) =~= entries);
    }
}

/// Only the oldest records leave, and only beyond the bound: of records that came
/// into an empty store, the newest are shown in the order in which they came, all
/// of them where they are not too many.
pub proof fn law_only_the_oldest_leave(
    f: DiagnosticFilter,
    new: Seq<LiveDiagnostic>,
    limit: nat,
)
    requires
        admits_all(f),
        limit >= MAX_DIAGNOSTIC_ENTRIES,
    ensures
        pushed(Seq::empty(), new) == last_of(new, MAX_DIAGNOSTIC_ENTRIES as nat),
        last_of(matching(f, pushed(Seq::empty(), new)), limit) == last_of(
            new,
            MAX_DIAGNOSTIC_ENTRIES as nat,
        ),
    decreases new.len(),
{
    let bound = MAX_DIAGNOSTIC_ENTRIES as nat;
    if new.len() > 0 {
        let front = new.drop_last();
        law_only_the_oldest_leave(f, front, limit);
        assert(pushed(Seq::empty(), new) =~= last_of(new, bound));
    } else {
        assert(pushed(Seq::empty(), new) =~= last_of(new, bound));
    }
    law_empty_search_shows_everything(f, pushed(Seq::empty(), new));
}

/// Appending the new records to the screen shows what showing the whole window
/// anew would show, where the filter lets all of them through.
pub proof fn law_appending_is_showing_anew(
    before: Seq<LiveDiagnostic>,
    new: Seq<LiveDiagnostic>,
    shown: (u64, u64),
)
    requires
        shown.0 + new.len() <= u64::MAX,
    ensures
        ({
            let limit = DIAGNOSTIC_VISIBLE_ROWS as nat;
            let rows = last_of(before + new, limit);
            rows_after(
                last_of(before, limit),
                rows,
                row_update(shown, (shown.0 + new.len()) as u64, shown.1, rows.len()),
            ) == rows
        }),
{
    let limit = DIAGNOSTIC_VISIBLE_ROWS as nat;
    let all = before + new;
    let rows = last_of(all, limit);
    let head = last_of(before, limit);
    if new.len() == 0 {
        assert(all =~= before);
    } else if new.len() < rows.len() {
        assert(rows.skip(rows.len() - new.len()) =~= new);
        let together = head + new;
        if all.len() <= limit {
            assert(together =~= all);
        } else {
            assert(last_of(together, limit) =~= rows);
        }
    }
}

proof fn lemma_all_match(f: DiagnosticFilter, entries: Seq<LiveDiagnostic>)
    ensures
        forall|i: int|
            0 <= i < matching(f, entries).len() ==> matches(f, #[trigger] matching(f, entries)[i]),
    decreases entries.len(),
{
    if entries.len() > 0 {
        let front = matching(f, entries.drop_last());
        lemma_all_match(f, entries.drop_last());
        assert forall|i: int| 0 <= i < matching(f, entries).len() implies matches(
            f,
            #[trigger] matching(f, entries)[i],
        ) by {
            if i < front.len() {
                assert(matches(f, front[i]));
            }
        }
    }
}

} // verus!

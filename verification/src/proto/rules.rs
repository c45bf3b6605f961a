//! Which messages are accepted: the rules as a peer sees them, in numbers.
use crate::proto::decode::message_of;
use crate::proto::encode::encodable;
use crate::proto::laws::law_round_trip;
use crate::proto::model::datagram;
use crate::proto::model::EntryModel;
use crate::proto::model::EventModel;
use crate::proto::model::Fault;
use crate::proto::validate::device_name;
use crate::proto::validate::entries_fault;
use crate::proto::validate::fault_of;
use crate::proto::validate::manifest_fault;
use crate::proto::validate::path_fault;
use crate::proto::validate::pieces;
use crate::proto::validate::without_end_spaces;
use crate::proto::ClipboardEntryKind;
use crate::text::byte_len;
use crate::text::law_parts_are_there;
use crate::text::law_parts_lie_between;
use crate::text::lower;
use crate::text::split;
use crate::wire::group_be_len;
use vstd::prelude::*;

verus! {

/// A letter in either case.
pub open spec fn letter(c: char, small: char, capital: char) -> bool {
    c == small || c == capital
}

/// The first `n` characters are a name that Windows keeps for a device.
pub open spec fn kept_for_device(s: Seq<char>, n: int) -> bool {
    ||| n == 3 && letter(s[0], 'c', 'C') && letter(s[1], 'o', 'O') && letter(s[2], 'n', 'N')
    ||| n == 3 && letter(s[0], 'p', 'P') && letter(s[1], 'r', 'R') && letter(s[2], 'n', 'N')
    ||| n == 3 && letter(s[0], 'a', 'A') && letter(s[1], 'u', 'U') && letter(s[2], 'x', 'X')
    ||| n == 3 && letter(s[0], 'n', 'N') && letter(s[1], 'u', 'U') && letter(s[2], 'l', 'L')
    ||| {
        &&& n == 4
        &&& {
            ||| letter(s[0], 'c', 'C') && letter(s[1], 'o', 'O') && letter(s[2], 'm', 'M')
            ||| letter(s[0], 'l', 'L') && letter(s[1], 'p', 'P') && letter(s[2], 't', 'T')
        }
        &&& seq!['1', '2', '3', '4', '5', '6', '7', '8', '9', '\u{b9}', '\u{b2}', '\u{b3}'].contains(
            s[3],
        )
    }
}

/// Only spaces were taken off the end.
proof fn lemma_trimmed(s: Seq<char>, n: int)
    requires
        0 <= n <= s.len(),
        n == 0 || s[n - 1] != ' ',
        forall|i: int| n <= i < s.len() ==> s[i] == ' ',
    ensures
        without_end_spaces(s) == s.take(n),
    decreases s.len(),
{
    if n < s.len() {
        assert(s.last() == ' ');
        lemma_trimmed(s.drop_last(), n);
        assert(s.drop_last().take(n) =~= s.take(n));
    } else {
        assert(s.take(n) =~= s);
        if s.len() > 0 {
            assert(s.last() == s[n - 1]);
        }
    }
}

/// The part in front of the first separator.
proof fn lemma_first_part(s: Seq<char>, sep: char, m: int)
    requires
        0 <= m <= s.len(),
        forall|i: int| 0 <= i < m ==> s[i] != sep,
        m == s.len() || s[m] == sep,
    ensures
        split(s, sep).len() > 0,
        split(s, sep)[0] == s.take(m),
        m == s.len() <==> split(s, sep).len() == 1,
    decreases s.len(),
{
    if s.len() == 0 {
        assert(s.take(m) =~= Seq::<char>::empty());
    } else if m == s.len() {
        lemma_first_part(s.drop_last(), sep, m - 1);
        assert(s.drop_last().take(m - 1).push(s.last()) =~= s.take(m));
    } else {
        lemma_first_part(s.drop_last(), sep, m);
        assert(s.drop_last().take(m) =~= s.take(m));
    }
}

proof fn lemma_device(s: Seq<char>, n: int)
    requires
        0 <= n <= s.len(),
    ensures
        device_name(s.take(n)) == kept_for_device(s, n),
{
    let stem = s.take(n);
    let l = lower(stem);
    if n != 3 && n != 4 {
        assert(seq!['c', 'o', 'n'].len() == 3 && seq!['p', 'r', 'n'].len() == 3);
        assert(seq!['a', 'u', 'x'].len() == 3 && seq!['n', 'u', 'l'].len() == 3);
        assert(l.len() == n);
    }
    let digits =
        seq!['1', '2', '3', '4', '5', '6', '7', '8', '9', '\u{b9}', '\u{b2}', '\u{b3}'];
    if n == 3 {
        assert(l =~= seq![l[0], l[1], l[2]]);
        assert(stem[0] == s[0] && stem[1] == s[1] && stem[2] == s[2]);
        if kept_for_device(s, n) {
            assert(l =~= seq!['c', 'o', 'n'] || l =~= seq!['p', 'r', 'n'] || l =~= seq![
                'a',
                'u',
                'x',
            ] || l =~= seq!['n', 'u', 'l']);
        }
        if device_name(stem) {
            let c = seq!['c', 'o', 'n'];
            let p = seq!['p', 'r', 'n'];
            let a = seq!['a', 'u', 'x'];
            let u = seq!['n', 'u', 'l'];
            assert(l[0] == c[0] || l[0] == p[0] || l[0] == a[0] || l[0] == u[0]);
            assert(l == c ==> l[0] == 'c' && l[1] == 'o' && l[2] == 'n');
            assert(l == p ==> l[0] == 'p' && l[1] == 'r' && l[2] == 'n');
            assert(l == a ==> l[0] == 'a' && l[1] == 'u' && l[2] == 'x');
            assert(l == u ==> l[0] == 'n' && l[1] == 'u' && l[2] == 'l');
        }
    } else if n == 4 {
        assert(seq!['c', 'o', 'n'].len() == 3 && seq!['p', 'r', 'n'].len() == 3);
        assert(seq!['a', 'u', 'x'].len() == 3 && seq!['n', 'u', 'l'].len() == 3);
        assert(stem[0] == s[0] && stem[1] == s[1] && stem[2] == s[2] && stem[3] == s[3]);
        let h = l.take(3);
        assert(h[0] == l[0] && h[1] == l[1] && h[2] == l[2]);
        let c = seq!['c', 'o', 'm'];
        let p = seq!['l', 'p', 't'];
        assert(h == c ==> h[0] == 'c' && h[1] == 'o' && h[2] == 'm');
        assert(h == p ==> h[0] == 'l' && h[1] == 'p' && h[2] == 't');
        if h[0] == 'c' && h[1] == 'o' && h[2] == 'm' {
            assert(h =~= c);
        }
        if h[0] == 'l' && h[1] == 'p' && h[2] == 't' {
            assert(h =~= p);
        }
        let d = s[3];
        if digits.contains(d) {
            let i = choose|i: int| 0 <= i < digits.len() && digits[i] == d;
            assert(digits[i] == d);
        }
        if '1' <= d <= '9' {
            let i = d as int - '1' as int;
            assert(digits[i] == d);
        }
        if d == '\u{b9}' {
            assert(digits[9] == d);
        }
        if d == '\u{b2}' {
            assert(digits[10] == d);
        }
        if d == '\u{b3}' {
            assert(digits[11] == d);
        }
    }
}

/// A file can be offered under every ordinary name: one with characters, none of
/// them a control character, a separator or one that Windows keeps, with no dot or
/// space at its end, of at most 1024 bytes, and not that of a device (`n` characters
/// in front of its first dot, the spaces before which do not count). The offer
/// arrives as it was made, and any other name is refused by its name.
pub proof fn law_ordinary_files_can_be_offered(
    transfer_id: u64,
    name: Seq<char>,
    size: u64,
    n: int,
    dot: int,
)
    requires
        transfer_id != 0,
        0 <= n <= dot <= name.len(),
        forall|i: int| 0 <= i < dot ==> name[i] != '.',
        dot == name.len() || name[dot] == '.',
        forall|i: int| n <= i < dot ==> name[i] == ' ',
        n == 0 || name[n - 1] != ' ',
    ensures
        ({
            let offer = EventModel::ManualFileOffer { transfer_id, file_name: name, size };
            if {
                &&& 0 < name.len()
                &&& byte_len(name) <= 1024
                &&& name.last() != '.'
                &&& name.last() != ' '
                &&& !kept_for_device(name, n)
                &&& forall|i: int|
                    0 <= i < name.len() ==> {
                        let c = #[trigger] name[i];
                        ' ' <= c && c != '\u{7f}' && !seq![
                            '/',
                            '\\',
                            '<',
                            '>',
                            ':',
                            '"',
                            '|',
                            '?',
                            '*',
                        ].contains(c)
                    }
            } {
                encodable(offer) && message_of(datagram(offer)) == Ok::<EventModel, Fault>(offer)
            } else {
                fault_of(offer) == Some(Fault::InvalidPath(name))
            }
        }),
{
    broadcast use group_be_len;

    let offer = EventModel::ManualFileOffer { transfer_id, file_name: name, size };
    let kept = seq!['/', '\\', '<', '>', ':', '"', '|', '?', '*'];
    lemma_first_part(name, '.', dot);
    let stem = name.take(dot);
    assert(stem.take(n) =~= name.take(n));
    lemma_trimmed(stem, n);
    lemma_device(name, n);
    assert forall|c: char| #[trigger] kept.contains(c) == (c == '/' || c == '\\' || c == '<' || c
        == '>' || c == ':' || c == '"' || c == '|' || c == '?' || c == '*') by {
        assert(kept[0] == '/' && kept[1] == '\\' && kept[2] == '<' && kept[3] == '>' && kept[4]
            == ':' && kept[5] == '"' && kept[6] == '|' && kept[7] == '?' && kept[8] == '*');
        if kept.contains(c) {
            let i = choose|i: int| 0 <= i < kept.len() && kept[i] == c;
            assert(kept[i] == c);
        }
    }
    assert forall|i: int| 0 <= i < name.len() implies crate::proto::validate::unportable(
        #[trigger] name[i],
    ) == (name[i] == '\u{7f}' || kept.contains(name[i]) || name[i] < ' ') by {}
    let plain = forall|i: int|
        0 <= i < name.len() ==> {
            let c = #[trigger] name[i];
            ' ' <= c && c != '\u{7f}' && !kept.contains(c)
        };
    assert(plain == (forall|i: int|
        0 <= i < name.len() ==> !crate::proto::validate::unportable(#[trigger] name[i])));
    if encodable(offer) {
        law_round_trip(offer);
    }
}

/// A text of dots, or none at all.
pub open spec fn only_dots(s: Seq<char>) -> bool {
    forall|k: int| 0 <= k < s.len() ==> s[k] == '.'
}

/// A path is accepted if and only if it has at most 1024 bytes, holds no backslash,
/// colon or null character, and no part of it between slashes is empty, `.` or `..`:
/// so it is relative, and leads to something below the directory where it starts.
pub proof fn law_paths_stay_below(path: Seq<char>)
    ensures
        path_fault(path) is None <==> {
            &&& byte_len(path) <= 1024
            &&& !path.contains('\\') && !path.contains(':') && !path.contains('\0')
            &&& forall|i: int, j: int|
                #![trigger path.subrange(i, j)]
                0 <= i <= j <= path.len() && j <= i + 2 && (i == 0 || path[i - 1] == '/') && (j
                    == path.len() || path[j] == '/') ==> !only_dots(path.subrange(i, j))
        },
        byte_len(path) <= 1024 && path_fault(path) is Some ==> path_fault(path) == Some(
            Fault::InvalidPath(path),
        ),
{
    let parts = split(path, '/');
    let good = path_fault(path) is None;
    let plain = forall|i: int|
        0 <= i < path.len() ==> #[trigger] path[i] != '\\' && path[i] != ':' && path[i] != '\0';
    assert(plain == (!path.contains('\\') && !path.contains(':') && !path.contains('\0'))) by {
        if !plain {
            let i = choose|i: int|
                0 <= i < path.len() && !(#[trigger] path[i] != '\\' && path[i] != ':' && path[i]
                    != '\0');
            assert(path.contains(path[i]));
        }
    }
    if good {
        assert forall|i: int, j: int|
            #![trigger path.subrange(i, j)]
            0 <= i <= j <= path.len() && j <= i + 2 && (i == 0 || path[i - 1] == '/') && (j
                == path.len() || path[j] == '/') implies !only_dots(path.subrange(i, j)) by {
            let part = path.subrange(i, j);
            if only_dots(part) {
                assert forall|x: int| i <= x < j implies path[x] != '/' by {
                    assert(part[x - i] == '.');
                }
                law_parts_are_there(path, '/', i, j);
                let k = choose|k: int| 0 <= k < parts.len() && #[trigger] parts[k] == part;
                assert(crate::proto::validate::ordinary_part(parts[k]));
                if j == i + 1 {
                    assert(part =~= seq!['.']);
                } else if j == i + 2 {
                    assert(part =~= seq!['.', '.']);
                }
            }
        }
    } else if byte_len(path) <= 1024 && plain {
        let k = choose|k: int|
            0 <= k < parts.len() && !crate::proto::validate::ordinary_part(#[trigger] parts[k]);
        let (i, j) = law_parts_lie_between(path, '/', k);
        let part = path.subrange(i, j);
        let one = seq!['.'];
        let two = seq!['.', '.'];
        assert(part == one ==> part.len() == 1 && part[0] == '.');
        assert(part == two ==> part.len() == 2 && part[0] == '.' && part[1] == '.');
        assert(only_dots(part));
    }
}

/// The sizes of some entries together.
pub open spec fn sizes(entries: Seq<EntryModel>) -> int {
    entries.fold_left(0int, |sum: int, e: EntryModel| sum + e.size)
}

proof fn lemma_sizes(entries: Seq<EntryModel>, i: int)
    requires
        0 <= i < entries.len(),
    ensures
        sizes(entries.take(i + 1)) == sizes(entries.take(i)) + entries[i].size,
{
    assert(entries.take(i + 1).drop_last() =~= entries.take(i));
    assert(entries.take(i + 1).last() == entries[i]);
}

proof fn lemma_sizes_grow(entries: Seq<EntryModel>, i: int)
    requires
        0 <= i <= entries.len(),
    ensures
        0 <= sizes(entries.take(i)) <= sizes(entries),
    decreases entries.len() - i,
{
    if i < entries.len() {
        lemma_sizes_grow(entries, i + 1);
        lemma_sizes(entries, i);
        lemma_sizes_positive(entries, i);
    } else {
        assert(entries.take(i) =~= entries);
        lemma_sizes_positive(entries, i);
    }
}

proof fn lemma_sizes_positive(entries: Seq<EntryModel>, i: int)
    requires
        0 <= i <= entries.len(),
    ensures
        0 <= sizes(entries.take(i)),
    decreases i,
{
    if i > 0 {
        lemma_sizes_positive(entries, i - 1);
        lemma_sizes(entries, i - 1);
    } else {
        assert(entries.take(0) =~= Seq::<EntryModel>::empty());
    }
}

/// What holds of entries from `i` on that have no fault.
spec fn fine_from(entries: Seq<EntryModel>, i: int, previous: u64) -> bool {
    &&& forall|k: int|
        i <= k < entries.len() ==> path_fault((#[trigger] entries[k]).path) is None && (
        entries[k].kind == ClipboardEntryKind::Directory ==> entries[k].size == 0)
    &&& forall|k: int| i <= k < entries.len() ==> (#[trigger] entries[k]).file_id > previous
    &&& forall|j: int, k: int|
        i <= j < k < entries.len() ==> (#[trigger] entries[j]).file_id < (
        #[trigger] entries[k]).file_id
    &&& sizes(entries) <= 64 * 1024 * 1024
}

proof fn lemma_entries(entries: Seq<EntryModel>, i: int, previous: u64)
    requires
        0 <= i <= entries.len(),
        sizes(entries.take(i)) <= 64 * 1024 * 1024,
    ensures
        entries_fault(entries, i, previous, sizes(entries.take(i))) is None <==> fine_from(
            entries,
            i,
            previous,
        ),
    decreases entries.len() - i,
{
    lemma_sizes_positive(entries, i);
    if i == entries.len() {
        assert(entries.take(i) =~= entries);
    } else {
        lemma_sizes(entries, i);
        lemma_sizes_grow(entries, i + 1);
        let e = entries[i];
        let next = sizes(entries.take(i + 1));
        if next <= 64 * 1024 * 1024 {
            lemma_entries(entries, i + 1, e.file_id);
            let good = path_fault(e.path) is None && e.file_id > previous && (e.kind
                == ClipboardEntryKind::Directory ==> e.size == 0);
            assert(entries_fault(entries, i, previous, sizes(entries.take(i))) is None <==> good
                && entries_fault(entries, i + 1, e.file_id, next) is None);
            if fine_from(entries, i + 1, e.file_id) && good {
                assert(fine_from(entries, i, previous));
            }
            if fine_from(entries, i, previous) {
                assert(entries[i] == e);
                assert(fine_from(entries, i + 1, e.file_id));
            }
        }
    }
}

/// A manifest is accepted if and only if it has 1 to 256 entries, each with a path
/// that is accepted, their ids grow from above zero, a directory has no size, and
/// all files together have at most 64 MiB.
pub proof fn law_manifests_are_ordered_and_bounded(transfer_id: u64, entries: Seq<EntryModel>)
    ensures
        fault_of(EventModel::ClipboardManifest { transfer_id, entries }) is None <==> {
            &&& 1 <= entries.len() <= 256
            &&& forall|k: int|
                0 <= k < entries.len() ==> path_fault((#[trigger] entries[k]).path) is None
            &&& forall|k: int| 0 <= k < entries.len() ==> (#[trigger] entries[k]).file_id > 0
            &&& forall|j: int, k: int|
                0 <= j < k < entries.len() ==> (#[trigger] entries[j]).file_id < (
                #[trigger] entries[k]).file_id
            &&& forall|k: int|
                0 <= k < entries.len() && (#[trigger] entries[k]).kind
                    == ClipboardEntryKind::Directory ==> entries[k].size == 0
            &&& entries.fold_left(0int, |sum: int, e: EntryModel| sum + e.size) <= 64 * 1024 * 1024
        },
{
    assert(entries.take(0) =~= Seq::<EntryModel>::empty());
    assert(sizes(entries.take(0)) == 0);
    lemma_entries(entries, 0, 0);
    assert(manifest_fault(entries) == fault_of(
        EventModel::ClipboardManifest { transfer_id, entries },
    ));
}

/// As many pieces as hold all bytes, and not one more.
proof fn lemma_pieces(total: int, size: int, n: int)
    requires
        0 <= total,
        0 < size,
        0 <= n,
    ensures
        n == pieces(total, size) <==> (n - 1) * size < total <= n * size,
{
    let q = (total + size - 1) / size;
    vstd::arithmetic::div_mod::lemma_fundamental_div_mod(total + size - 1, size);
    let r = (total + size - 1) % size;
    assert(0 <= r < size);
    assert((q - 1) * size == q * size - size) by (nonlinear_arith);
    assert(size * q == q * size) by (nonlinear_arith);
    assert((q - 1) * size < total <= q * size);
    if (n - 1) * size < total <= n * size {
        assert(n == q) by (nonlinear_arith)
            requires
                0 < size,
                (n - 1) * size < total <= n * size,
                (q - 1) * size < total <= q * size,
        ;
    }
}

/// A payload of the clipboard is announced with at most 64 MiB and as many chunks of
/// 16371 bytes as hold it; an image has four bytes for each pixel besides. A record
/// of the history has 1 byte to 48 MiB, in chunks of 1179 bytes.
pub proof fn law_announcements_fit_their_chunks(
    id: u64,
    record_id: u64,
    width: u32,
    height: u32,
    total_len: u32,
    chunks: u32,
)
    ensures
        fault_of(EventModel::ClipboardStart { transfer_id: id, total_len, chunks }) is None <==> {
            &&& total_len <= 64 * 1024 * 1024
            &&& (chunks - 1) * 16371 < total_len <= chunks * 16371
        },
        fault_of(
            EventModel::ClipboardImageStart { transfer_id: id, width, height, total_len, chunks },
        ) is None <==> {
            &&& width * height * 4 == total_len
            &&& total_len <= 64 * 1024 * 1024
            &&& (chunks - 1) * 16371 < total_len <= chunks * 16371
        },
        fault_of(
            EventModel::HistoryRecordStart { request_id: id, record_id, total_len, chunks },
        ) is None <==> {
            &&& 0 < total_len <= 48 * 1024 * 1024
            &&& (chunks - 1) * 1179 < total_len <= chunks * 1179
        },
{
    lemma_pieces(total_len as int, 16371, chunks as int);
    lemma_pieces(total_len as int, 1179, chunks as int);
}

/// A range of a clipboard file has 1 to 1167 bytes below 64 MiB, and names its file
/// and its request. Nothing is completed beyond its total.
pub proof fn law_ranges_lie_in_the_file(
    transfer_id: u64,
    file_id: u64,
    request_id: u64,
    offset: u64,
    length: u64,
    data: Seq<u8>,
    digest: Seq<u8>,
)
    requires
        data.len() <= usize::MAX,
    ensures
        fault_of(
            EventModel::ClipboardFileRequest { transfer_id, file_id, request_id, offset, length },
        ) is None <==> {
            &&& file_id != 0 && request_id != 0
            &&& 1 <= length <= 1167
            &&& offset + length <= 64 * 1024 * 1024
        },
        fault_of(
            EventModel::ClipboardFileChunk { transfer_id, file_id, request_id, offset, data },
        ) is None <==> {
            &&& file_id != 0 && request_id != 0
            &&& 1 <= data.len() <= 1167
            &&& offset + data.len() <= 64 * 1024 * 1024
        },
        fault_of(
            EventModel::ClipboardFileComplete {
                transfer_id,
                file_id,
                request_id,
                size: offset,
                digest,
            },
        ) is None <==> file_id != 0 && request_id != 0 && offset <= 64 * 1024 * 1024,
        fault_of(
            EventModel::ClipboardTransferProgress {
                transfer_id,
                file_id,
                completed: offset,
                total: length,
            },
        ) is None <==> offset <= length,
{
}

/// Whatever is said of a manually sent file names its transfer; a piece of it has 1
/// to 1183 bytes, and a reason for a failure 1 to 512.
pub proof fn law_manual_messages_name_their_transfer(
    transfer_id: u64,
    offset: u64,
    length: u32,
    data: Seq<u8>,
    decision: crate::proto::ManualDecision,
    sha256: Seq<u8>,
    success: bool,
    error: Option<Seq<char>>,
)
    ensures
        fault_of(EventModel::ManualFileDecision { transfer_id, decision }) is None <==> transfer_id
            != 0,
        fault_of(EventModel::ManualFileCancel { transfer_id }) is None <==> transfer_id != 0,
        fault_of(EventModel::ManualFileComplete { transfer_id, sha256 }) is None <==> transfer_id
            != 0,
        fault_of(EventModel::ManualFileRequest { transfer_id, offset, length }) is None <==> (
        transfer_id != 0 && 1 <= length <= 1183),
        fault_of(EventModel::ManualFileChunk { transfer_id, offset, data }) is None <==> (
        transfer_id != 0 && 1 <= data.len() <= 1183),
        fault_of(EventModel::ManualFileResult { transfer_id, success, error }) is None <==> {
            &&& transfer_id != 0
            &&& error matches Some(text) ==> 0 < text.len() && byte_len(text) <= 512
        },
{
}

/// A profile is asked for by a number above zero, has a name of at most 128 bytes,
/// and no picture or one of at most 128 by 128 pixels; a piece of a record or of a
/// picture has bytes, and leaves room for its head in 1200.
pub proof fn law_profiles_and_records_are_small(
    request_id: u64,
    record_id: u64,
    width: u32,
    height: u32,
    total_len: u32,
    chunks: u32,
    display_name: Seq<char>,
    data: Seq<u8>,
)
    ensures
        fault_of(EventModel::ProfileRequest { request_id }) is None <==> request_id != 0,
        fault_of(
            EventModel::ProfileStart {
                request_id,
                width,
                height,
                total_len,
                chunks,
                display_name,
            },
        ) is None <==> {
            &&& request_id != 0
            &&& byte_len(display_name) <= 128
            &&& total_len == width * height * 4
            &&& width <= 128 && height <= 128
            &&& chunks == 0 ==> width == 0 && height == 0
        },
        fault_of(EventModel::ProfileChunk { request_id, index: chunks, data }) is None <==> (
        request_id != 0 && 1 <= data.len() && 13 + data.len() <= 1200),
        fault_of(
            EventModel::HistoryRecordChunk { request_id, record_id, index: chunks, data },
        ) is None <==> 1 <= data.len() && 21 + data.len() <= 1200,
        fault_of(EventModel::ClipboardChunk { transfer_id: request_id, index: chunks, data })
            is None <==> 13 + data.len() <= 16384,
{
}

/// A clear names at most 100 devices, each by 1 to 128 bytes.
pub proof fn law_boundaries_are_small(operation_id: Seq<u8>, boundary: Seq<(Seq<char>, u64)>)
    ensures
        fault_of(EventModel::HistoryClearApply { operation_id, boundary }) is None <==> {
            &&& boundary.len() <= 100
            &&& forall|i: int|
                0 <= i < boundary.len() ==> 0 < (#[trigger] boundary[i]).0.len() && byte_len(
                    boundary[i].0,
                ) <= 128
        },
        fault_of(EventModel::HistoryClearBoundary { operation_id, boundary }) == fault_of(
            EventModel::HistoryClearApply { operation_id, boundary },
        ),
{
}

/// The messages that carry nothing that could be wrong are always sent.
pub proof fn law_plain_messages_are_always_sent(e: EventModel)
    requires
        e is Enter || e is Leave || e is Ack || e is Input || e is Ping || e is Pong
            || e is ProfileChanged || e is ClipboardCapabilities || e is ClipboardTransferCancel
            || e is HistorySyncRequest || e is HistorySyncPageEnd || (e matches EventModel::Hello {
            commit,
        } && commit.len() == 8) || (e matches EventModel::HistoryClearBoundaryRequest {
            operation_id,
        } && operation_id.len() == 16),
    ensures
        encodable(e),
        !(e is ClipboardTransferCancel) ==> message_of(datagram(e)) == Ok::<EventModel, Fault>(e),
{
    broadcast use group_be_len;

    if !(e is ClipboardTransferCancel) {
        law_round_trip(e);
    }
}

/// A transfer of the clipboard is cancelled whole or by one file, and the receiver reads
/// it so; progress is read where it is of a file and of at most 64 MiB.
pub proof fn law_cancellations_and_progress_arrive(
    transfer_id: u64,
    file_id: Option<u64>,
    reason: crate::proto::ClipboardCancelReason,
    file: u64,
    completed: u64,
    total: u64,
)
    ensures
        file_id != Some(0u64) ==> ({
            let e = EventModel::ClipboardTransferCancel { transfer_id, file_id, reason };
            encodable(e) && message_of(datagram(e)) == Ok::<EventModel, Fault>(e)
        }),
        file != 0 && completed <= total <= 64 * 1024 * 1024 ==> ({
            let e = EventModel::ClipboardTransferProgress {
                transfer_id,
                file_id: file,
                completed,
                total,
            };
            encodable(e) && message_of(datagram(e)) == Ok::<EventModel, Fault>(e)
        }),
{
    broadcast use group_be_len;

    if file_id != Some(0u64) {
        law_round_trip(EventModel::ClipboardTransferCancel { transfer_id, file_id, reason });
    }
    if file != 0 && completed <= total <= 64 * 1024 * 1024 {
        law_round_trip(
            EventModel::ClipboardTransferProgress { transfer_id, file_id: file, completed, total },
        );
    }
}

/// A datagram of no kind, of an unknown kind, or too large is refused for that.
pub proof fn law_unknown_datagrams_are_refused(b: Seq<u8>)
    ensures
        b.len() == 0 ==> message_of(b) == Err::<EventModel, Fault>(Fault::Truncated),
        0 < b.len() <= 16384 && b[0] >= 41 ==> message_of(b) == Err::<EventModel, Fault>(
            Fault::InvalidEventId(b[0]),
        ),
        16384 < b.len() <= usize::MAX ==> message_of(b) == Err::<EventModel, Fault>(
            Fault::TooLarge { actual: b.len() as usize, limit: 16384 },
        ),
{
}

/// Whatever is accepted can be sent on: an ordinary message that breaks no rule has a
/// datagram, of at most 16384 bytes, and one that breaks a rule has none.
pub proof fn law_accepted_messages_are_sent(e: EventModel)
    ensures
        encodable(e) <==> fault_of(e) is None && datagram(e).len() <= 16384,
{
}

/// A message that is refused is refused for the rule that it breaks, in numbers.
pub proof fn law_refusals_name_the_rule(
    transfer_id: u64,
    file_id: u64,
    request_id: u64,
    offset: u64,
    length: u64,
    total_len: u32,
    chunks: u32,
    n: u32,
    decision: crate::proto::ManualDecision,
)
    ensures
        fault_of(EventModel::ManualFileDecision { transfer_id: 0, decision }) == Some(
            Fault::InvalidFileChunk("zero transfer id"@),
        ),
        fault_of(EventModel::ManualFileCancel { transfer_id: 0 }) == Some(
            Fault::InvalidFileChunk("zero transfer id"@),
        ),
        total_len > 64 * 1024 * 1024 ==> fault_of(
            EventModel::ClipboardStart { transfer_id, total_len, chunks },
        ) == Some(Fault::TooLarge { actual: total_len as usize, limit: 67108864 }),
        total_len <= 64 * 1024 * 1024 && (n - 1) * 16371 < total_len <= n * 16371 && chunks != n
            ==> fault_of(EventModel::ClipboardStart { transfer_id, total_len, chunks }) == Some(
            Fault::InvalidChunkCount { expected: n, actual: chunks },
        ),
        fault_of(
            EventModel::ClipboardFileRequest {
                transfer_id,
                file_id: 0,
                request_id,
                offset,
                length,
            },
        ) == Some(Fault::InvalidFileChunk("zero file id"@)),
        file_id != 0 ==> fault_of(
            EventModel::ClipboardFileRequest {
                transfer_id,
                file_id,
                request_id: 0,
                offset,
                length,
            },
        ) == Some(Fault::InvalidFileChunk("zero request id"@)),
        offset > length ==> fault_of(
            EventModel::ClipboardTransferProgress {
                transfer_id,
                file_id,
                completed: offset,
                total: length,
            },
        ) == Some(Fault::InvalidProgress { completed: offset, total: length }),
{
    lemma_pieces(total_len as int, 16371, n as int);
}

} // verus!

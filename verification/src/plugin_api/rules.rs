//! What is accepted from a plugin.
use crate::plugin_api::frames::clipped;
use crate::plugin_api::frames::ending;
use crate::plugin_api::frames::fed;
use crate::plugin_api::frames::newline_at;
use crate::plugin_api::frames::StepModel;
use crate::plugin_api::manifest::manifest_fault;
use crate::plugin_api::manifest::probe_fault;
use crate::plugin_api::manifest::AdapterManifest;
use crate::plugin_api::manifest::Probe;
use crate::plugin_api::payload_fault;
use crate::plugin_api::version_fault;
use crate::plugin_api::ApiFault;
use crate::plugin_api::Message;
use crate::text::whitespace;
use crate::wording::law_trimming_takes_whitespace_alone;
use vstd::prelude::*;
use vstd::utf8::encode_utf8;
use vstd::utf8::encode_utf8_decode_utf8;
use vstd::utf8::encode_utf8_valid_utf8;

verus! {

/// A text with something in it that is no whitespace.
pub open spec fn says_something(s: Seq<char>) -> bool {
    exists|k: int| 0 <= k < s.len() && !whitespace(#[trigger] s[k])
}

proof fn lemma_says(s: Seq<char>)
    ensures
        says_something(s) == !crate::text::blank(s),
{
    let (a, b) = law_trimming_takes_whitespace_alone(s);
}

/// A manifest is accepted if and only if it is of this version, names an identifier, a
/// plugin and a program, and offers to read or to paste types that have names, no two
/// neighbours the same.
pub proof fn law_which_manifests_are_accepted(m: AdapterManifest)
    ensures
        manifest_fault(m) is None <==> {
            &&& m.manifest_version == 1 && m.protocol_version == 1
            &&& m.id@.len() > 0 && m.name@.len() > 0 && m.executable@.len() > 0
            &&& forall|i: int|
                0 <= i < m.id@.len() ==> {
                    let c = #[trigger] m.id@[i];
                    'a' <= c <= 'z' || 'A' <= c <= 'Z' || '0' <= c <= '9' || c == '.' || c == '_'
                        || c == '-'
                }
            &&& m.capabilities.clipboard_read || m.capabilities.paste
            &&& m.capabilities.mime_types@.len() > 0
            &&& forall|i: int|
                0 <= i < m.capabilities.mime_types@.len() ==> says_something(
                    (#[trigger] m.capabilities.mime_types@[i])@,
                )
            &&& forall|i: int|
                0 < i < m.capabilities.mime_types@.len() ==> m.capabilities.mime_types@[i - 1]@ != (
                #[trigger] m.capabilities.mime_types@[i])@
        },
{
    let types = m.capabilities.mime_types@;
    assert forall|i: int| 0 <= i < types.len() implies crate::text::blank((#[trigger] types[i])@)
        == !says_something(types[i]@) by {
        lemma_says(types[i]@);
    }
}

/// A program can be started if it is a file and, where the system says so, someone may
/// execute it.
pub proof fn law_which_programs_can_be_started(is_file: bool, mode: Option<u32>)
    ensures
        probe_fault(Probe::Found { is_file, mode }) is None <==> is_file && (mode matches Some(m)
            ==> m & 0x49 != 0),
{
}

/// The bytes of a range are accepted if and only if they decode and are at most as many
/// as were asked for, and their text is not longer than those could need.
pub proof fn law_ranges_are_bounded(encoded_len: nat, decoded: Option<Seq<u8>>, max_len: usize)
    ensures
        payload_fault(encoded_len, decoded, max_len) is None ==> decoded is Some
            && decoded->Some_0.len() <= max_len,
        decoded matches Some(bytes) ==> bytes.len() <= max_len && max_len <= usize::MAX / 8
            && encoded_len <= 4 * ((bytes.len() + 2) / 3) ==> payload_fault(
            encoded_len,
            decoded,
            max_len,
        ) is None,
        decoded matches Some(bytes) ==> bytes.len() > max_len ==> payload_fault(
            encoded_len,
            decoded,
            max_len,
        ) == Some(ApiFault::PayloadTooLong),
        decoded is None ==> payload_fault(encoded_len, decoded, max_len) is Some,
{
}

/// A plugin that greets in this version is heard, and in any other it is refused by its
/// version; every other message is heard.
pub proof fn law_only_this_version_is_spoken(m: Message)
    ensures
        m matches Message::Hello { protocol_version, .. } ==> {
            &&& protocol_version == 1 ==> version_fault(m) is None
            &&& protocol_version != 1 ==> version_fault(m) == Some(protocol_version)
        },
        !(m is Hello) ==> version_fault(m) is None,
{
}

proof fn lemma_newline(bytes: Seq<u8>, n: int)
    requires
        0 <= n < bytes.len(),
        bytes[n] == 10,
        forall|i: int| 0 <= i < n ==> bytes[i] != 10,
    ensures
        newline_at(bytes) == Some(n),
    decreases bytes.len(),
{
    if n > 0 {
        lemma_newline(bytes.drop_first(), n - 1);
    }
}

/// A line of more than 2 MiB is refused as too long, wherever it was cut into pieces.
pub proof fn law_long_lines_are_refused(line: Seq<u8>, piece: Seq<u8>, n: int)
    requires
        0 <= n < piece.len(),
        piece[n] == 10,
        forall|i: int| 0 <= i < n ==> piece[i] != 10,
        line.len() + n + 1 > 2 * 1024 * 1024,
    ensures
        fed(line, piece) == (
            n + 1,
            Seq::<u8>::empty(),
            StepModel::Frame(Err(ApiFault::FrameTooLong)),
        ),
{
    lemma_newline(piece, n);
    let all = line + piece.take(n + 1);
    assert(clipped(all).len() > 2 * 1024 * 1024);
}

/// A stream that ends between two lines has ended; one that ends inside a line has lost
/// the rest of it.
pub proof fn law_streams_end_between_lines(line: Seq<u8>)
    ensures
        fed(Seq::empty(), Seq::empty()).2 == StepModel::End,
        0 < line.len() <= 2 * 1024 * 1024 ==> fed(line, Seq::empty()).2 == StepModel::Frame(
            Err(ApiFault::TruncatedFrame),
        ),
        fed(line, Seq::empty()).2 == ending(line),
{
}

/// A line may end as lines end on Windows: what is before both marks is the text.
pub proof fn law_lines_of_windows_are_read(text: Seq<char>)
    requires
        newline_at(encode_utf8(text)) is None,
        encode_utf8(text).len() + 2 <= 2 * 1024 * 1024,
    ensures
        fed(Seq::empty(), encode_utf8(text).push(13).push(10)) == (
            encode_utf8(text).len() as int + 2,
            Seq::<u8>::empty(),
            StepModel::Frame(Ok(text)),
        ),
{
    let bytes = encode_utf8(text);
    let line = bytes.push(13).push(10);
    let n = bytes.len() as int + 1;
    lemma_no_newline(bytes);
    assert forall|i: int| 0 <= i < n implies line[i] != 10 by {
        if i < bytes.len() {
            assert(line[i] == bytes[i]);
        }
    }
    lemma_newline(line, n);
    assert(line.take(n + 1) =~= line);
    assert(Seq::<u8>::empty() + line =~= line);
    assert(line.drop_last() =~= bytes.push(13));
    assert(bytes.push(13).drop_last() =~= bytes);
    encode_utf8_valid_utf8(text);
    encode_utf8_decode_utf8(text);
}

proof fn lemma_no_newline(bytes: Seq<u8>)
    requires
        newline_at(bytes) is None,
    ensures
        forall|i: int| 0 <= i < bytes.len() ==> bytes[i] != 10,
    decreases bytes.len(),
{
    if bytes.len() > 0 {
        let rest = bytes.drop_first();
        lemma_no_newline(rest);
        assert forall|i: int| 0 <= i < bytes.len() implies bytes[i] != 10 by {
            if i > 0 {
                assert(rest[i - 1] == bytes[i]);
            }
        }
    }
}

} // verus!

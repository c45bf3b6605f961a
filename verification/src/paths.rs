//! Paths as the system reads them: what they are made of, and when two of them are
//! the same.
use crate::text::chars_of;
use crate::text::parts_of;
use crate::text::same_chars;
use crate::text::split;
use crate::text::split_chars;
use crate::text::upper_char;
use crate::ui::settings::Host;
use vstd::prelude::*;

verus! {

/// The parts of a path that count: not those between two separators, nor a dot.
pub open spec fn components(parts: Seq<Seq<char>>) -> Seq<Seq<char>>
    decreases parts.len(),
{
    if parts.len() == 0 {
        Seq::empty()
    } else if parts.last().len() == 0 || parts.last() == "."@ {
        components(parts.drop_last())
    } else {
        components(parts.drop_last()).push(parts.last())
    }
}

pub open spec fn path_parts(path: Seq<char>) -> Seq<Seq<char>> {
    components(split(path, '/'))
}

pub open spec fn is_absolute(path: Seq<char>) -> bool {
    path.len() > 0 && path[0] == '/'
}

fn copy_chars(v: &Vec<char>) -> (r: Vec<char>)
    ensures
        r@ == v@,
{
    vstd::slice::slice_to_vec(v.as_slice())
}

/// The parts that count, from the one at `from` on.
fn counted(all: &Vec<Vec<char>>, from: usize) -> (r: Vec<Vec<char>>)
    requires
        from <= all@.len(),
    ensures
        parts_of(r@) == components(parts_of(all@).skip(from as int)),
{
    let ghost models = parts_of(all@).skip(from as int);
    let dot: Vec<char> = chars_of(".");
    let mut r: Vec<Vec<char>> = Vec::new();
    let mut i: usize = from;
    assert(models.take(0) =~= Seq::<Seq<char>>::empty());
    assert(parts_of(r@) =~= components(models.take(0)));
    while i < all.len()
        invariant
            from <= i <= all@.len(),
            models == parts_of(all@).skip(from as int),
            dot@ == "."@,
            parts_of(r@) == components(models.take(i - from)),
        decreases all@.len() - i,
    {
        assert(models.take(i + 1 - from).drop_last() =~= models.take(i - from));
        assert(models.take(i + 1 - from).last() == all@[i as int]@);
        if all[i].len() > 0 && !same_chars(all[i].as_slice(), dot.as_slice()) {
            let ghost before = parts_of(r@);
            r.push(copy_chars(&all[i]));
            assert(parts_of(r@) =~= before.push(all@[i as int]@));
        }
        i = i + 1;
    }
    assert(models.take(i - from) =~= models);
    r
}

/// The parts of a path that count.
pub fn parts_at(path: &str) -> (r: Vec<Vec<char>>)
    ensures
        parts_of(r@) == path_parts(path@),
{
    let all: Vec<Vec<char>> = split_chars(chars_of(path).as_slice(), '/');
    assert(parts_of(all@).skip(0) =~= parts_of(all@));
    counted(&all, 0)
}

// ---------------------------------------------------------------------------
// The same path
// ---------------------------------------------------------------------------

/// What a path is made of.
pub ghost struct PathModel {
    /// The letter of a drive.
    pub drive: Option<char>,
    /// The server and the share of a network path.
    pub share: Seq<Seq<char>>,
    /// It starts at the root.
    pub rooted: bool,
    /// It starts with a dot.
    pub dotted: bool,
    pub parts: Seq<Seq<char>>,
}

/// What a path is made of.
struct PathForm {
    drive: Option<char>,
    share: Vec<Vec<char>>,
    rooted: bool,
    dotted: bool,
    parts: Vec<Vec<char>>,
}

impl View for PathForm {
    type V = PathModel;

    closed spec fn view(&self) -> PathModel {
        PathModel {
            drive: self.drive,
            share: parts_of(self.share@),
            rooted: self.rooted,
            dotted: self.dotted,
            parts: parts_of(self.parts@),
        }
    }
}

/// A path that a drive, if any, stands in front of.
pub open spec fn local_path(drive: Option<char>, text: Seq<char>) -> PathModel {
    PathModel {
        drive,
        share: Seq::empty(),
        rooted: is_absolute(text),
        dotted: split(text, '/')[0] == "."@,
        parts: path_parts(text),
    }
}

pub open spec fn is_letter(c: char) -> bool {
    'a' <= c <= 'z' || 'A' <= c <= 'Z'
}

/// A path that starts with the letter of a drive.
pub open spec fn on_drive(text: Seq<char>) -> bool {
    text.len() >= 2 && is_letter(text[0]) && text[1] == ':'
}

/// A path that starts with a server and a share: two separators, and a name behind
/// them and behind the next one.
pub open spec fn on_share(text: Seq<char>) -> bool {
    let names = split(text.skip(2), '/');
    text.len() >= 2 && text[0] == '/' && text[1] == '/' && names.len() >= 2 && names[0].len() > 0
        && names[1].len() > 0
}

/// A path of Windows, where both slashes separate.
pub open spec fn with_slashes(path: Seq<char>) -> Seq<char> {
    path.map_values(
        |c: char|
            if c == '\\' {
                '/'
            } else {
                c
            },
    )
}

/// What a path is made of.
pub open spec fn path_model(host: Host, path: Seq<char>) -> PathModel {
    let text = with_slashes(path);
    if !(host is Windows) {
        local_path(None, path)
    } else if on_drive(text) {
        local_path(Some(upper_char(text[0])), text.skip(2))
    } else if on_share(text) {
        let names = split(text.skip(2), '/');
        PathModel {
            drive: None,
            share: names.take(2),
            rooted: true,
            dotted: false,
            parts: components(names.skip(2)),
        }
    } else {
        local_path(None, text)
    }
}

fn from_index(v: &Vec<char>, n: usize) -> (r: Vec<char>)
    requires
        n <= v@.len(),
    ensures
        r@ == v@.skip(n as int),
{
    let rest: &[char] = vstd::slice::slice_subrange(v.as_slice(), n, v.len());
    assert(rest@ =~= v@.skip(n as int));
    vstd::slice::slice_to_vec(rest)
}

fn local_form(drive: Option<char>, text: &Vec<char>) -> (f: PathForm)
    ensures
        f@ == local_path(drive, text@),
{
    let all: Vec<Vec<char>> = split_chars(text.as_slice(), '/');
    let dot: Vec<char> = chars_of(".");
    assert(parts_of(all@)[0] == all@[0]@);
    assert(parts_of(all@).skip(0) =~= parts_of(all@));
    let share: Vec<Vec<char>> = Vec::new();
    assert(parts_of(share@) =~= Seq::<Seq<char>>::empty());
    PathForm {
        drive,
        share,
        rooted: text.len() > 0 && text[0] == '/',
        dotted: same_chars(all[0].as_slice(), dot.as_slice()),
        parts: counted(&all, 0),
    }
}

fn slashed(path: &Vec<char>) -> (r: Vec<char>)
    ensures
        r@ == with_slashes(path@),
{
    let mut r: Vec<char> = Vec::new();
    let mut i: usize = 0;
    while i < path.len()
        invariant
            i <= path@.len(),
            r@ == with_slashes(path@.take(i as int)),
        decreases path@.len() - i,
    {
        let c: char = path[i];
        r.push(
            if c == '\\' {
                '/'
            } else {
                c
            },
        );
        i = i + 1;
        assert(r@ =~= with_slashes(path@.take(i as int)));
    }
    assert(path@.take(i as int) =~= path@);
    r
}

fn form_of(host: Host, path: &str) -> (f: PathForm)
    ensures
        f@ == path_model(host, path@),
{
    let whole: Vec<char> = chars_of(path);
    if let Host::Windows = host {
    } else {
        return local_form(None, &whole);
    }
    let text: Vec<char> = slashed(&whole);
    if text.len() < 2 {
        return local_form(None, &text);
    }
    let first: char = text[0];
    let rest: Vec<char> = from_index(&text, 2);
    if ('a' <= first && first <= 'z' || 'A' <= first && first <= 'Z') && text[1] == ':' {
        let letter: char = if 'a' <= first && first <= 'z' {
            ((first as u8) - 32) as char
        } else {
            first
        };
        assert(letter == upper_char(first));
        return local_form(Some(letter), &rest);
    }
    if first == '/' && text[1] == '/' {
        let names: Vec<Vec<char>> = split_chars(rest.as_slice(), '/');
        let ghost models = parts_of(names@);
        if names.len() >= 2 && names[0].len() > 0 && names[1].len() > 0 {
            assert(models[0] == names@[0]@ && models[1] == names@[1]@);
            let mut share: Vec<Vec<char>> = Vec::new();
            share.push(copy_chars(&names[0]));
            share.push(copy_chars(&names[1]));
            assert(parts_of(share@) =~= models.take(2));
            return PathForm {
                drive: None,
                share,
                rooted: true,
                dotted: false,
                parts: counted(&names, 2),
            };
        }
        assert(names@.len() >= 2 ==> models[0] == names@[0]@ && models[1] == names@[1]@);
    }
    local_form(None, &text)
}

fn same_parts(a: &Vec<Vec<char>>, b: &Vec<Vec<char>>) -> (r: bool)
    ensures
        r == (parts_of(a@) == parts_of(b@)),
{
    let ghost left = parts_of(a@);
    let ghost right = parts_of(b@);
    if a.len() != b.len() {
        assert(left.len() != right.len());
        return false;
    }
    let mut i: usize = 0;
    while i < a.len()
        invariant
            i <= a@.len(),
            a@.len() == b@.len(),
            left == parts_of(a@),
            right == parts_of(b@),
            forall|j: int| 0 <= j < i ==> left[j] == right[j],
        decreases a@.len() - i,
    {
        if !same_chars(a[i].as_slice(), b[i].as_slice()) {
            assert(left[i as int] != right[i as int]);
            return false;
        }
        i = i + 1;
    }
    assert(left =~= right);
    true
}

/// Whether two paths are the same: made of the same parts, however they are
/// written.
pub fn same_path(host: Host, a: &str, b: &str) -> (r: bool)
    ensures
        r == (path_model(host, a@) == path_model(host, b@)),
{
    let a: PathForm = form_of(host, a);
    let b: PathForm = form_of(host, b);
    let drives: bool = match (a.drive, b.drive) {
        (Some(a), Some(b)) => a == b,
        (None, None) => true,
        _ => false,
    };
    drives && a.rooted == b.rooted && a.dotted == b.dotted && same_parts(&a.share, &b.share)
        && same_parts(&a.parts, &b.parts)
}

/// A separator at the end of a path that is not empty changes nothing, nor does a
/// dot behind it.
pub proof fn law_endings_do_not_matter(path: Seq<char>)
    requires
        path.len() > 0,
    ensures
        path_model(Host::Linux, path.push('/')) == path_model(Host::Linux, path),
        path_model(Host::Linux, path.push('/').push('.')) == path_model(Host::Linux, path),
{
    reveal_strlit(".");
    let slash = path.push('/');
    let dot = slash.push('.');
    let parts = split(path, '/');
    lemma_split_len(path);
    assert(slash.drop_last() =~= path);
    assert(dot.drop_last() =~= slash);
    let longer = split(slash, '/');
    assert(longer =~= parts.push(Seq::empty()));
    assert(longer.drop_last() =~= parts);
    assert(components(longer) == components(parts));
    let dotted = split(dot, '/');
    assert(dotted =~= parts.push(Seq::empty().push('.')));
    assert(dotted.drop_last() =~= parts);
    assert(Seq::<char>::empty().push('.') =~= "."@);
    assert(components(dotted) == components(parts));
    assert(longer[0] == parts[0] && dotted[0] == parts[0]);
}

proof fn lemma_split_len(s: Seq<char>)
    ensures
        split(s, '/').len() >= 1,
    decreases s.len(),
{
    if s.len() > 0 {
        lemma_split_len(s.drop_last());
    }
}

} // verus!

//! Container formats, told by the extension of the output path. Paths are
//! read as the host writes them, with `/` between their components.

use vstd::prelude::*;

verus! {

/// The container formats the writer knows.
#[derive(Clone, Copy, Debug, PartialEq, Eq, Structural)]
pub enum Container {
    Mkv,
    Mp4,
    Webm,
    Mov,
}

/// The greatest index at which `c` occurs in `s`, or -1 where it does not.
pub open spec fn last_index_of(s: Seq<char>, c: char) -> int
    decreases s.len(),
{
    if s.len() == 0 {
        -1
    } else if s.last() == c {
        s.len() - 1
    } else {
        last_index_of(s.drop_last(), c)
    }
}

/// `path` ends in something that names nothing: a `/`, or a `.` component
/// behind a `/`.
pub open spec fn ends_idly(path: Seq<char>) -> bool {
    ||| path.len() >= 1 && path.last() == '/'
    ||| path.len() >= 2 && path.last() == '.' && path[path.len() - 2] == '/'
}

/// `path` without its idle end: trailing `/` and trailing `.` components
/// are skipped.
pub open spec fn trimmed(path: Seq<char>) -> Seq<char>
    decreases path.len(),
{
    if ends_idly(path) {
        trimmed(path.drop_last())
    } else {
        path
    }
}

/// The file name of `path`: its final component, what follows the last `/`
/// of the trimmed path. There is none where that is empty, `.` or `..`.
pub open spec fn file_name(path: Seq<char>) -> Option<Seq<char>> {
    let t = trimmed(path);
    let name = t.subrange(last_index_of(t, '/') + 1, t.len() as int);
    if name.len() == 0 || name == "."@ || name == ".."@ {
        None
    } else {
        Some(name)
    }
}

/// The extension of `path`: what follows the last `.` of its file name. A
/// path without a file name has none, nor has a file name without a `.` or
/// with none but at its start.
pub open spec fn extension_of(path: Seq<char>) -> Option<Seq<char>> {
    match file_name(path) {
        Some(name) => {
            let dot = last_index_of(name, '.');
            if dot > 0 {
                Some(name.subrange(dot + 1, name.len() as int))
            } else {
                None
            }
        },
        None => None,
    }
}

/// The container that the extension `ext` names.
pub open spec fn container_named(ext: Seq<char>) -> Option<Container> {
    if ext == "mkv"@ {
        Some(Container::Mkv)
    } else if ext == "mp4"@ {
        Some(Container::Mp4)
    } else if ext == "webm"@ {
        Some(Container::Webm)
    } else if ext == "mov"@ {
        Some(Container::Mov)
    } else {
        None
    }
}

/// The container that the extension of `path` names.
pub open spec fn container_of(path: Seq<char>) -> Option<Container> {
    match extension_of(path) {
        Some(ext) => container_named(ext),
        None => None,
    }
}

proof fn lemma_last_index_found(s: Seq<char>, c: char, i: int)
    requires
        -1 <= i < s.len(),
        i >= 0 ==> s[i] == c,
        forall|j: int| i < j < s.len() ==> s[j] != c,
    ensures
        last_index_of(s, c) == i,
    decreases s.len(),
{
    if s.len() > 0 && s.last() != c {
        let t = s.drop_last();
        assert forall|j: int| i < j < t.len() implies t[j] != c by {
            assert(t[j] == s[j]);
        }
        lemma_last_index_found(t, c, i);
    }
}

/// The characters of `s`.
fn characters(s: &str) -> (chars: Vec<char>)
    ensures
        chars@ == s@,
{
    let n = s.unicode_len();
    let mut chars: Vec<char> = Vec::new();
    let mut i: usize = 0;
    while i < n
        invariant
            n == s@.len(),
            i <= n,
            chars@ == s@.subrange(0, i as int),
        decreases n - i,
    {
        chars.push(s.get_char(i));
        assert(chars@ =~= s@.subrange(0, i + 1));
        i += 1;
    }
    assert(s@.subrange(0, n as int) =~= s@);
    chars
}

/// Whether `chars` end in something that names nothing.
fn idle_end(chars: &Vec<char>) -> (b: bool)
    ensures
        b == ends_idly(chars@),
{
    let n = chars.len();
    if n >= 1 && chars[n - 1] == '/' {
        true
    } else {
        n >= 2 && chars[n - 1] == '.' && chars[n - 2] == '/'
    }
}

/// `chars` without their idle end.
fn trim(chars: Vec<char>) -> (out: Vec<char>)
    ensures
        out@ == trimmed(chars@),
{
    let mut out = chars;
    while idle_end(&out)
        invariant
            trimmed(out@) == trimmed(chars@),
        decreases out.len(),
    {
        out.pop();
    }
    out
}

/// The greatest index at or after `start` at which `c` occurs in `chars`, as
/// an offset from `start`; `None` where it does not occur there.
fn last_offset(chars: &Vec<char>, start: usize, c: char) -> (found: Option<usize>)
    requires
        start <= chars.len(),
    ensures
        match found {
            Some(i) => i == last_index_of(chars@.subrange(start as int, chars.len() as int), c)
                && start + i < chars.len(),
            None => last_index_of(chars@.subrange(start as int, chars.len() as int), c) == -1,
        },
{
    let ghost tail = chars@.subrange(start as int, chars.len() as int);
    let mut i: usize = chars.len();
    while i > start
        invariant
            start <= i <= chars.len(),
            tail == chars@.subrange(start as int, chars.len() as int),
            forall|j: int| i - start <= j < tail.len() ==> tail[j] != c,
        decreases i,
    {
        i -= 1;
        if chars[i] == c {
            proof {
                lemma_last_index_found(tail, c, i - start);
            }
            return Some(i - start);
        }
    }
    proof {
        lemma_last_index_found(tail, c, -1);
    }
    None
}

/// Whether the characters of `chars` from `start` on spell `word`.
fn spells(chars: &Vec<char>, start: usize, word: &str) -> (b: bool)
    requires
        start <= chars.len(),
    ensures
        b == (chars@.subrange(start as int, chars.len() as int) == word@),
{
    let ghost tail = chars@.subrange(start as int, chars.len() as int);
    let n = word.unicode_len();
    if chars.len() - start != n {
        return false;
    }
    let mut i: usize = 0;
    while i < n
        invariant
            i <= n,
            n == word@.len(),
            n == chars.len() - start,
            tail == chars@.subrange(start as int, chars.len() as int),
            forall|j: int| 0 <= j < i ==> tail[j] == word@[j],
        decreases n - i,
    {
        if chars[start + i] != word.get_char(i) {
            assert(tail[i as int] != word@[i as int]);
            return false;
        }
        i += 1;
    }
    assert(tail =~= word@);
    true
}

impl Container {
    /// The extension that names the container.
    pub open spec fn spec_extension(&self) -> Seq<char> {
        match *self {
            Container::Mkv => "mkv"@,
            Container::Mp4 => "mp4"@,
            Container::Webm => "webm"@,
            Container::Mov => "mov"@,
        }
    }

    /// The extension that names the container.
    pub fn extension(&self) -> (ext: &'static str)
        ensures
            ext@ == self.spec_extension(),
    {
        match self {
            Container::Mkv => "mkv",
            Container::Mp4 => "mp4",
            Container::Webm => "webm",
            Container::Mov => "mov",
        }
    }

    /// The container that the extension of `path` names, if it names one.
    pub fn of_path(path: &str) -> (found: Option<Container>)
        ensures
            found == container_of(path@),
    {
        let chars = trim(characters(path));
        let start: usize = match last_offset(&chars, 0, '/') {
            Some(slash) => slash + 1,
            None => 0,
        };
        assert(chars@.subrange(0, chars.len() as int) =~= chars@);
        let ghost name = chars@.subrange(start as int, chars.len() as int);
        if chars.len() == start || spells(&chars, start, ".") || spells(&chars, start, "..") {
            return None;
        }
        assert(file_name(path@) == Some(name));
        match last_offset(&chars, start, '.') {
            Some(dot) => {
                if dot == 0 {
                    return None;
                }
                let from = start + dot + 1;
                assert(chars@.subrange(from as int, chars.len() as int) =~= name.subrange(
                    dot + 1,
                    name.len() as int,
                ));
                if spells(&chars, from, "mkv") {
                    Some(Container::Mkv)
                } else if spells(&chars, from, "mp4") {
                    Some(Container::Mp4)
                } else if spells(&chars, from, "webm") {
                    Some(Container::Webm)
                } else if spells(&chars, from, "mov") {
                    Some(Container::Mov)
                } else {
                    None
                }
            },
            None => None,
        }
    }
}

} // verus!

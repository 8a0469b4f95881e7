//! Paths: the parts of a file name, the last component of a path, and the
//! rewriting of a project path into the path under which the game knows an
//! asset.

use vstd::prelude::*;
use vstd::string::StringExecFns;

verus! {

/// The extension of a file name: what follows its last dot. A name without a
/// dot, or whose only dot stands in front, has none.
pub open spec fn extension_of(name: Seq<char>) -> Option<Seq<char>> {
    match name.index_of_last('.') {
        Some(i) => if i > 0 {
            Some(name.skip(i + 1))
        } else {
            None
        },
        None => None,
    }
}

/// A file name without its extension.
pub open spec fn stem_of(name: Seq<char>) -> Seq<char> {
    match name.index_of_last('.') {
        Some(i) => if i > 0 {
            name.take(i)
        } else {
            name
        },
        None => name,
    }
}

/// Whether a character parts the components of a path.
pub open spec fn is_separator(c: char) -> bool {
    c == '/' || c == '\\'
}

/// The index of the last separator of a path, or -1.
pub open spec fn last_separator(path: Seq<char>) -> int
    decreases path.len(),
{
    if path.len() == 0 {
        -1
    } else if is_separator(path.last()) {
        path.len() - 1
    } else {
        last_separator(path.drop_last())
    }
}

/// The last component of a path: what follows its last separator.
pub open spec fn file_name_of(path: Seq<char>) -> Seq<char> {
    path.skip(last_separator(path) + 1)
}

/// Whether `pattern` stands in `text` at index `i`.
pub open spec fn occurs_at(text: Seq<char>, pattern: Seq<char>, i: int) -> bool {
    &&& 0 <= i
    &&& i + pattern.len() <= text.len()
    &&& text.subrange(i, i + pattern.len()) == pattern
}

/// The first index, not before `from`, at which `pattern` stands in `text`.
pub open spec fn first_occurrence(text: Seq<char>, pattern: Seq<char>, from: int) -> Option<int>
    decreases text.len() - from,
{
    if from < 0 || from + pattern.len() > text.len() {
        None
    } else if pattern.len() == 0 || occurs_at(text, pattern, from) {
        Some(from)
    } else {
        first_occurrence(text, pattern, from + 1)
    }
}

/// What follows the first occurrence of `pattern` in `text`.
pub open spec fn suffix_after(text: Seq<char>, pattern: Seq<char>) -> Option<Seq<char>> {
    match first_occurrence(text, pattern, 0) {
        Some(i) => Some(text.skip(i + pattern.len())),
        None => None,
    }
}

/// The index of the last separator is the index of a separator after which
/// none follows.
pub proof fn lemma_last_separator(path: Seq<char>, k: int)
    requires
        -1 <= k < path.len(),
        k >= 0 ==> is_separator(path[k]),
        forall|j: int| k < j < path.len() ==> !is_separator(#[trigger] path[j]),
    ensures
        last_separator(path) == k,
    decreases path.len(),
{
    if path.len() > 0 && k < path.len() - 1 {
        let front = path.drop_last();
        assert(!is_separator(path[path.len() - 1]));
        assert forall|j: int| k < j < front.len() implies !is_separator(#[trigger] front[j]) by {
            assert(front[j] == path[j]);
        }
        lemma_last_separator(front, k);
    }
}

/// The index of the last separator lies within the path, or is -1.
pub proof fn lemma_last_separator_range(path: Seq<char>)
    ensures
        -1 <= last_separator(path) < path.len(),
    decreases path.len(),
{
    if path.len() > 0 && !is_separator(path.last()) {
        lemma_last_separator_range(path.drop_last());
    }
}

/// The characters of a text.
pub fn to_chars(text: &str) -> (chars: Vec<char>)
    ensures
        chars@ == text@,
{
    let n = text.unicode_len();
    let mut chars: Vec<char> = Vec::new();
    let mut i: usize = 0;
    while i < n
        invariant
            n == text@.len(),
            i <= n,
            chars@ == text@.take(i as int),
        decreases n - i,
    {
        chars.push(text.get_char(i));
        i = i + 1;
        assert(text@.take(i as int) =~= text@.take(i - 1).push(text@[i - 1]));
    }
    assert(text@.take(n as int) =~= text@);
    chars
}

/// The index of the last occurrence of `needle`.
pub fn last_index_of(chars: &Vec<char>, needle: char) -> (r: Option<usize>)
    ensures
        match r {
            Some(i) => chars@.index_of_last(needle) == Some(i as int) && i < chars@.len(),
            None => chars@.index_of_last(needle) is None,
        },
{
    let mut i: usize = chars.len();
    while i > 0
        invariant
            i <= chars@.len(),
            forall|j: int| i <= j < chars@.len() ==> chars@[j] != needle,
        decreases i,
    {
        i = i - 1;
        if chars[i] == needle {
            proof {
                chars@.index_of_last_ensures(needle);
                assert(chars@.contains(needle));
            }
            return Some(i);
        }
    }
    proof {
        chars@.index_of_last_ensures(needle);
    }
    None
}

/// The index of the last separator, if there is one.
pub fn last_separator_index(chars: &Vec<char>) -> (r: Option<usize>)
    ensures
        match r {
            Some(i) => last_separator(chars@) == i as int && i < chars@.len(),
            None => last_separator(chars@) == -1,
        },
{
    let mut i: usize = chars.len();
    while i > 0
        invariant
            i <= chars@.len(),
            forall|j: int| i <= j < chars@.len() ==> !is_separator(#[trigger] chars@[j]),
        decreases i,
    {
        i = i - 1;
        if chars[i] == '/' || chars[i] == '\\' {
            proof {
                lemma_last_separator(chars@, i as int);
            }
            return Some(i);
        }
    }
    proof {
        lemma_last_separator(chars@, -1);
    }
    None
}

/// Whether `pattern` stands in `text` at index `at`.
pub fn matches_at(text: &Vec<char>, pattern: &Vec<char>, at: usize) -> (r: bool)
    requires
        at + pattern@.len() <= text@.len(),
    ensures
        r == occurs_at(text@, pattern@, at as int),
{
    let n = text.len();
    let m = pattern.len();
    let mut k: usize = 0;
    while k < m
        invariant
            n == text@.len(),
            m == pattern@.len(),
            at + m <= text@.len(),
            k <= m,
            forall|j: int| 0 <= j < k ==> text@[at + j] == pattern@[j],
        decreases m - k,
    {
        if text[at + k] != pattern[k] {
            proof {
                let window = text@.subrange(at as int, at + m);
                assert(window[k as int] == text@[at + k]);
            }
            return false;
        }
        k = k + 1;
    }
    assert(text@.subrange(at as int, at + m) =~= pattern@);
    true
}

/// The first index, not before `from`, at which `pattern` stands in `text`.
pub fn find_from(text: &Vec<char>, pattern: &Vec<char>, from: usize) -> (r: Option<usize>)
    ensures
        match r {
            Some(i) => first_occurrence(text@, pattern@, from as int) == Some(i as int) && from
                <= i && i + pattern@.len() <= text@.len(),
            None => first_occurrence(text@, pattern@, from as int) is None,
        },
{
    let n = text.len();
    let m = pattern.len();
    if from > n || m > n - from {
        return None;
    }
    if m == 0 {
        return Some(from);
    }
    let mut i: usize = from;
    loop
        invariant
            n == text@.len(),
            m == pattern@.len(),
            0 < m <= n,
            from <= i <= n - m,
            first_occurrence(text@, pattern@, from as int) == first_occurrence(
                text@,
                pattern@,
                i as int,
            ),
        decreases n - m - i,
    {
        if matches_at(text, pattern, i) {
            return Some(i);
        }
        if i == n - m {
            assert(first_occurrence(text@, pattern@, i + 1) is None);
            return None;
        }
        i = i + 1;
    }
}

/// The first index at which `pattern` stands in `text`.
pub fn find_first(text: &Vec<char>, pattern: &Vec<char>) -> (r: Option<usize>)
    ensures
        match r {
            Some(i) => first_occurrence(text@, pattern@, 0) == Some(i as int) && i
                + pattern@.len() <= text@.len(),
            None => first_occurrence(text@, pattern@, 0) is None,
        },
{
    find_from(text, pattern, 0)
}

/// The file name without its extension.
pub fn file_stem<'a>(name: &'a str) -> (stem: &'a str)
    ensures
        stem@ == stem_of(name@),
{
    let chars = to_chars(name);
    let n = chars.len();
    match last_index_of(&chars, '.') {
        Some(i) => {
            if i > 0 {
                let stem = name.substring_char(0, i);
                assert(name@.subrange(0, i as int) =~= name@.take(i as int));
                stem
            } else {
                name
            }
        },
        None => name,
    }
}

/// The extension of the file name, if it has one.
pub fn file_extension<'a>(name: &'a str) -> (ext: Option<&'a str>)
    ensures
        match ext {
            Some(e) => extension_of(name@) == Some(e@),
            None => extension_of(name@) is None,
        },
{
    let chars = to_chars(name);
    let n = chars.len();
    match last_index_of(&chars, '.') {
        Some(i) => {
            if i > 0 {
                let ext = name.substring_char(i + 1, n);
                assert(name@.subrange(i + 1, name@.len() as int) =~= name@.skip(i + 1));
                Some(ext)
            } else {
                None
            }
        },
        None => None,
    }
}

/// The last component of a path.
pub fn file_name<'a>(path: &'a str) -> (name: &'a str)
    ensures
        name@ == file_name_of(path@),
{
    let chars = to_chars(path);
    let n = chars.len();
    match last_separator_index(&chars) {
        Some(i) => {
            let name = path.substring_char(i + 1, n);
            assert(path@.subrange(i + 1, path@.len() as int) =~= path@.skip(i + 1));
            name
        },
        None => {
            assert(path@.skip(0) =~= path@);
            path
        },
    }
}

/// What follows the first occurrence of `pattern` in `text`.
pub fn split_after<'a>(text: &'a str, pattern: &str) -> (rest: Option<&'a str>)
    ensures
        match rest {
            Some(r) => suffix_after(text@, pattern@) == Some(r@),
            None => suffix_after(text@, pattern@) is None,
        },
{
    let chars = to_chars(text);
    let wanted = to_chars(pattern);
    let n = chars.len();
    let m = wanted.len();
    match find_first(&chars, &wanted) {
        Some(i) => {
            let rest = text.substring_char(i + m, n);
            assert(text@.subrange(i + wanted@.len(), text@.len() as int) =~= text@.skip(
                i + wanted@.len(),
            ));
            Some(rest)
        },
        None => None,
    }
}

/// `text` with every occurrence of `pattern` from `from` on replaced by
/// `with`. The occurrences are taken from left to right and do not overlap.
/// What stands before `from` is left out. An empty pattern occurs nowhere.
pub open spec fn replaced_from(
    text: Seq<char>,
    pattern: Seq<char>,
    with: Seq<char>,
    from: int,
) -> Seq<char>
    decreases text.len() - from,
{
    match first_occurrence(text, pattern, from) {
        Some(i) => if pattern.len() > 0 && from <= i && i + pattern.len() <= text.len() {
            text.subrange(from, i) + with + replaced_from(text, pattern, with, i + pattern.len())
        } else {
            text.skip(from)
        },
        None => if 0 <= from <= text.len() {
            text.skip(from)
        } else {
            Seq::empty()
        },
    }
}

/// `text` with every occurrence of `pattern` replaced by `with`.
pub open spec fn replaced(text: Seq<char>, pattern: Seq<char>, with: Seq<char>) -> Seq<char> {
    replaced_from(text, pattern, with, 0)
}

/// Replaces every occurrence of `pattern` in `text` by `with`.
pub fn replace_all(text: &str, pattern: &str, with: &str) -> (r: String)
    ensures
        r@ == replaced(text@, pattern@, with@),
{
    let chars = to_chars(text);
    let wanted = to_chars(pattern);
    let n = chars.len();
    let m = wanted.len();
    if m == 0 {
        assert(text@.skip(0) =~= text@);
        return String::from_str(text);
    }
    let mut out = String::new();
    let mut start: usize = 0;
    loop
        invariant
            chars@ == text@,
            wanted@ == pattern@,
            n == text@.len(),
            m == pattern@.len(),
            m > 0,
            start <= n,
            out@ + replaced_from(text@, pattern@, with@, start as int) == replaced(
                text@,
                pattern@,
                with@,
            ),
        decreases n - start,
    {
        match find_from(&chars, &wanted, start) {
            Some(i) => {
                let ghost before = out@;
                out.append(text.substring_char(start, i));
                out.append(with);
                proof {
                    let rest = replaced_from(text@, pattern@, with@, i + m);
                    assert(replaced_from(text@, pattern@, with@, start as int) == text@.subrange(
                        start as int,
                        i as int,
                    ) + with@ + rest);
                    assert(out@ + rest =~= before + (text@.subrange(start as int, i as int) + with@
                        + rest));
                }
                start = i + m;
            },
            None => {
                let ghost before = out@;
                out.append(text.substring_char(start, n));
                proof {
                    assert(text@.subrange(start as int, n as int) =~= text@.skip(start as int));
                    assert(out@ =~= before + text@.skip(start as int));
                }
                return out;
            },
        }
    }
}

/// The directory under a project's root whose content the game mounts.
pub open spec fn content_suffix() -> Seq<char> {
    "/Content"@
}

/// The names of a project and the paths under which the game knows its
/// assets.
pub trait GameName {
    /// The name that the project's directory carries.
    spec fn project_name(&self) -> Seq<char>;

    /// The name under which the game mounts the project's content.
    spec fn game_name(&self) -> Seq<char>;

    fn get_project_name(&self) -> (name: &str)
        ensures
            name@ == self.project_name(),
    ;

    fn get_game_name(&self) -> (name: &str)
        ensures
            name@ == self.game_name(),
    ;

    /// The path under which the game knows the asset at `path`: `path` with
    /// the project's content directory replaced by the game's name, wherever
    /// it stands. A path outside the content directory has none.
    fn project_path_to_game_path(&self, path: &str) -> (r: Result<String, &'static str>)
        ensures
            r is Ok <==> first_occurrence(path@, self.project_name() + content_suffix(), 0)
                is Some,
            r is Ok ==> r->Ok_0@ == replaced(
                path@,
                self.project_name() + content_suffix(),
                self.game_name(),
            ),
    ;
}

/// The names of a project: the one its directory carries and the one under
/// which the game mounts its content.
pub struct GameNameImpl {
    pub project_name: String,
    pub game_name: String,
}

impl GameNameImpl {
    pub fn new(project_name: &str, game_name: &str) -> (names: Self)
        ensures
            names.project_name@ == project_name@,
            names.game_name@ == game_name@,
    {
        let project_name = String::from_str(project_name);
        let game_name = String::from_str(game_name);
        Self { project_name, game_name }
    }
}

impl GameName for GameNameImpl {
    open spec fn project_name(&self) -> Seq<char> {
        self.project_name@
    }

    open spec fn game_name(&self) -> Seq<char> {
        self.game_name@
    }

    fn get_project_name(&self) -> (name: &str) {
        self.project_name.as_str()
    }

    fn get_game_name(&self) -> (name: &str) {
        self.game_name.as_str()
    }

    fn project_path_to_game_path(&self, path: &str) -> (r: Result<String, &'static str>) {
        let mut path_match = String::from_str(self.project_name.as_str());
        path_match.append("/Content");
        let chars = to_chars(path);
        let wanted = to_chars(path_match.as_str());
        match find_from(&chars, &wanted, 0) {
            Some(_) => Ok(replace_all(path, path_match.as_str(), self.game_name.as_str())),
            None => Err("Couldn't convert the project path to game path"),
        }
    }
}

/// A path of an asset in both forms, without the file's extension.
pub struct AssetPath {
    pub project_path: String,
    pub game_path: String,
}

} // verus!

//! Cleaning the page paths that a language model writes.

use vstd::prelude::*;
use vstd::string::*;

verus! {

/// File name characters that Windows refuses, and the backslash, which reads
/// as a separator there.
pub const PATH_ILLEGAL_CHARS: [char; 8] = ['<', '>', ':', '"', '|', '?', '*', '\\'];

/// A character that a portable page path cannot hold: an illegal one or an
/// ASCII control character.
pub open spec fn is_illegal(c: char) -> bool {
    PATH_ILLEGAL_CHARS@.contains(c) || (c as u32) < 0x20 || c == '\u{7f}'
}

/// The character that takes the place of `c`.
pub open spec fn cleaned_char(c: char) -> char {
    if is_illegal(c) {
        '-'
    } else {
        c
    }
}

/// The path with every illegal character replaced.
pub open spec fn cleaned(raw: Seq<char>) -> Seq<char> {
    raw.map_values(|c: char| cleaned_char(c))
}

/// What follows the last slash.
pub open spec fn file_name(path: Seq<char>) -> Seq<char>
    decreases path.len(),
{
    if path.len() == 0 || path.last() == '/' {
        Seq::empty()
    } else {
        file_name(path.drop_last()).push(path.last())
    }
}

/// The name ends with the page extension, in any casing.
pub open spec fn has_page_extension(name: Seq<char>) -> bool {
    let n = name.len();
    &&& n >= 3
    &&& name[n - 3] == '.'
    &&& name[n - 2] == 'm' || name[n - 2] == 'M'
    &&& name[n - 1] == 'd' || name[n - 1] == 'D'
}

/// The portable form of a page path: illegal characters are replaced, and a
/// file name that lacks the page extension gets it. A path without a file name
/// stays without one.
pub open spec fn slug(raw: Seq<char>) -> Seq<char> {
    let path = cleaned(raw);
    let name = file_name(path);
    if name.len() > 0 && !has_page_extension(name) {
        path + ".md"@
    } else {
        path
    }
}

/// Whether a page path cannot hold `c`.
fn is_illegal_char(c: char) -> (illegal: bool)
    ensures
        illegal == is_illegal(c),
{
    for n in 0..8usize
        invariant
            forall|i: int| 0 <= i < n ==> #[trigger] PATH_ILLEGAL_CHARS@[i] != c,
    {
        if PATH_ILLEGAL_CHARS[n] == c {
            assert(PATH_ILLEGAL_CHARS@[n as int] == c);
            return true;
        }
    }
    (c as u32) < 0x20 || c == '\u{7f}'
}

/// Cleans a page path so that it is portable: every character that Windows
/// refuses and every ASCII control character becomes a hyphen, the slashes keep
/// the layout, and a file name without the page extension gets it. An empty
/// path, or one that ends with a slash, has no file name to extend and gets
/// none, so that it can still be told to be invalid.
pub fn slugify_page_path(raw: &str) -> (path: String)
    ensures
        path@ == slug(raw@),
{
    let mut path = String::new();
    let mut name: Vec<char> = Vec::new();
    for c in it: raw.chars()
        invariant
            it.seq() == raw@,
            path@ == cleaned(raw@.take(it.index() as int)),
            name@ == file_name(path@),
    {
        let ghost before = raw@.take(it.index() as int);
        let clean: char = if is_illegal_char(c) {
            '-'
        } else {
            c
        };
        assert(raw@.take(it.index() + 1) == before.push(c));
        assert(cleaned(before.push(c)) == cleaned(before).push(clean));
        assert(cleaned(before).push(clean).drop_last() == cleaned(before));
        path.push(clean);
        if clean == '/' {
            name.clear();
        } else {
            name.push(clean);
        }
    }
    assert(raw@.take(raw@.len() as int) == raw@);
    let n: usize = name.len();
    let extended = n >= 3 && name[n - 3] == '.' && (name[n - 2] == 'm' || name[n - 2] == 'M') && (
    name[n - 1] == 'd' || name[n - 1] == 'D');
    if n > 0 && !extended {
        path.append(".md");
    }
    path
}

/// The replacement, the slash and the characters of the extension are legal.
proof fn common_chars_are_legal()
    ensures
        !is_illegal('-'),
        !is_illegal('/'),
        !is_illegal('.'),
        !is_illegal('m'),
        !is_illegal('d'),
{
    let all = PATH_ILLEGAL_CHARS@;
    assert(all == seq!['<', '>', ':', '"', '|', '?', '*', '\\']);
}

/// Cleaning keeps the slashes where they are and brings no new ones.
proof fn cleaning_keeps_slashes(raw: Seq<char>, i: int)
    requires
        0 <= i < raw.len(),
    ensures
        cleaned(raw)[i] == '/' <==> raw[i] == '/',
{
    common_chars_are_legal();
}

/// The result holds no illegal character.
pub proof fn a_slug_is_portable(raw: Seq<char>, i: int)
    requires
        0 <= i < slug(raw).len(),
    ensures
        !is_illegal(slug(raw)[i]),
{
    common_chars_are_legal();
    reveal_strlit(".md");
    if i >= cleaned(raw).len() {
        assert(slug(raw)[i] == ".md"@[i - raw.len()]);
    }
}

/// The layout is kept: the result has a slash exactly where the path has one.
pub proof fn a_slug_keeps_the_layout(raw: Seq<char>, i: int)
    requires
        0 <= i < slug(raw).len(),
    ensures
        raw.len() <= slug(raw).len(),
        slug(raw)[i] == '/' <==> i < raw.len() && raw[i] == '/',
{
    common_chars_are_legal();
    reveal_strlit(".md");
    if i >= raw.len() {
        assert(slug(raw)[i] == ".md"@[i - raw.len()]);
    }
}

/// Appending text without a slash appends it to the file name.
proof fn file_name_of_extension(path: Seq<char>, tail: Seq<char>)
    requires
        !tail.contains('/'),
    ensures
        file_name(path + tail) == file_name(path) + tail,
    decreases tail.len(),
{
    if tail.len() == 0 {
        assert(path + tail == path);
    } else {
        let before = tail.drop_last();
        assert(tail.last() == tail[tail.len() - 1]);
        assert(!before.contains('/')) by {
            if before.contains('/') {
                let i = before.index_of('/');
                assert(tail[i] == '/');
            }
        }
        file_name_of_extension(path, before);
        assert((path + tail).drop_last() == path + before);
        assert(file_name(path) + tail == (file_name(path) + before).push(tail.last()));
    }
}

/// A path with a file name becomes a page: its file name has the extension. A
/// path without one gets none.
pub proof fn a_slug_with_a_file_name_is_a_page(raw: Seq<char>)
    ensures
        file_name(raw).len() > 0 <==> file_name(slug(raw)).len() > 0,
        file_name(raw).len() > 0 ==> has_page_extension(file_name(slug(raw))),
        file_name(raw).len() == 0 ==> slug(raw) == cleaned(raw),
{
    cleaning_keeps_the_name_length(raw);
    reveal_strlit(".md");
    let path = cleaned(raw);
    assert(!".md"@.contains('/'));
    file_name_of_extension(path, ".md"@);
    let name = file_name(path) + ".md"@;
    assert(name[name.len() - 3] == '.' && name[name.len() - 2] == 'm' && name[name.len() - 1]
        == 'd');
}

/// Cleaning does not change how long the file name is.
proof fn cleaning_keeps_the_name_length(raw: Seq<char>)
    ensures
        file_name(cleaned(raw)).len() == file_name(raw).len(),
    decreases raw.len(),
{
    if raw.len() > 0 {
        cleaning_keeps_slashes(raw, raw.len() - 1);
        cleaning_keeps_the_name_length(raw.drop_last());
        assert(cleaned(raw).drop_last() == cleaned(raw.drop_last()));
    }
}

/// A path that is portable and whose file name, if it has one, has the page
/// extension is left as it is.
pub proof fn a_portable_page_path_is_unchanged(raw: Seq<char>)
    requires
        forall|i: int| 0 <= i < raw.len() ==> !is_illegal(#[trigger] raw[i]),
        file_name(raw).len() > 0 ==> has_page_extension(file_name(raw)),
    ensures
        slug(raw) == raw,
{
    assert(cleaned(raw) == raw);
}

/// Cleaning a path twice is the same as cleaning it once.
pub proof fn slugging_is_idempotent(raw: Seq<char>)
    ensures
        slug(slug(raw)) == slug(raw),
{
    assert forall|i: int| 0 <= i < slug(raw).len() implies !is_illegal(#[trigger] slug(raw)[i]) by {
        a_slug_is_portable(raw, i);
    }
    a_slug_with_a_file_name_is_a_page(raw);
    a_portable_page_path_is_unchanged(slug(raw));
}

/// The characters that are replaced are those that Windows refuses, the
/// backslash, and the ASCII control characters with DEL.
pub proof fn the_refused_characters_are_replaced(c: char)
    ensures
        is_illegal(c) <==> {
            ||| c == '<'
            ||| c == '>'
            ||| c == ':'
            ||| c == '"'
            ||| c == '|'
            ||| c == '?'
            ||| c == '*'
            ||| c == '\\'
            ||| c <= '\u{1f}'
            ||| c == '\u{7f}'
        },
{
    let all = PATH_ILLEGAL_CHARS@;
    assert(all == seq!['<', '>', ':', '"', '|', '?', '*', '\\']);
    assert(all[0] == '<' && all[1] == '>' && all[2] == ':' && all[3] == '"' && all[4] == '|'
        && all[5] == '?' && all[6] == '*' && all[7] == '\\');
}

/// The file name is what follows the last slash: the path ends with it, it
/// holds no slash, and a slash stands before it unless it is the whole path.
pub proof fn a_file_name_follows_the_last_slash(path: Seq<char>)
    ensures
        ({
            let name = file_name(path);
            let at = path.len() - name.len();
            &&& at >= 0
            &&& name == path.skip(at)
            &&& !name.contains('/')
            &&& at > 0 ==> path[at - 1] == '/'
        }),
    decreases path.len(),
{
    let name = file_name(path);
    if path.len() == 0 || path.last() == '/' {
        assert(name == path.skip(path.len() as int));
    } else {
        let before = path.drop_last();
        let inner = file_name(before);
        a_file_name_follows_the_last_slash(before);
        let at = path.len() - name.len();
        assert(path.skip(at) == before.skip(at).push(path.last()));
        assert(!name.contains('/')) by {
            if name.contains('/') {
                let i = name.index_of('/');
                assert(name[i] == '/');
                assert(inner[i] == '/');
            }
        }
    }
}

/// Each character stays where it is, as it is or as a hyphen: a hyphen exactly
/// in place of a refused one. After them stands nothing, or the extension
/// `.md`, which is there exactly when the file name is not empty and does not
/// end with it in any casing.
pub proof fn a_slug_changes_only_what_it_must(raw: Seq<char>, i: int)
    ensures
        0 <= i < raw.len() ==> slug(raw)[i] == if is_illegal(raw[i]) {
            '-'
        } else {
            raw[i]
        },
        ({
            let n = raw.len() as int;
            let named = n > 0 && raw[n - 1] != '/';
            let page = n >= 3 && raw[n - 3] == '.' && (raw[n - 2] == 'm' || raw[n - 2] == 'M') && (
            raw[n - 1] == 'd' || raw[n - 1] == 'D');
            slug(raw).skip(n) == if named && !page {
                seq!['.', 'm', 'd']
            } else {
                Seq::empty()
            }
        }),
{
    reveal_strlit(".md");
    assert(".md"@ == seq!['.', 'm', 'd']);
    let n = raw.len() as int;
    let path = cleaned(raw);
    let name = file_name(path);
    a_file_name_follows_the_last_slash(path);
    common_chars_are_legal();
    the_refused_characters_are_replaced('M');
    the_refused_characters_are_replaced('D');
    let at = n - name.len();
    if n > 0 {
        cleaning_keeps_slashes(raw, n - 1);
        if name.len() == 0 {
            assert(path[n - 1] == '/');
        } else {
            assert(name[name.len() - 1] == path[n - 1]);
            assert(name.contains(path[n - 1]));
        }
    }
    if n >= 3 {
        if at > n - 3 {
            assert(path[at - 1] == '/');
        } else {
            assert(name[name.len() - 3] == path[n - 3] && name[name.len() - 2] == path[n - 2]
                && name[name.len() - 1] == path[n - 1]);
        }
    }
    assert(slug(raw).skip(n) == if slug(raw) == path {
        Seq::<char>::empty()
    } else {
        ".md"@
    });
}

} // verus!

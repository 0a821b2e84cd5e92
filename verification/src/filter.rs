//! The exclusion filter: which names a scan skips.
//!
//! A name is the final component of a path. Its extension is what follows the
//! last `.` of the name, unless that `.` is the name's first character.

use vstd::prelude::*;
use vstd::string::{StrSliceExecFns, StringExecFns};
use crate::chars::{chars_eq, chars_of};

verus! {

/// The position of the last `.` among the first `n` characters of `name`,
/// or -1 where there is none.
pub open spec fn last_dot_upto(name: Seq<char>, n: int) -> int
    decreases n,
{
    if n <= 0 {
        -1
    } else if name[n - 1] == '.' {
        n - 1
    } else {
        last_dot_upto(name, n - 1)
    }
}

/// The position of the last `.` of `name`, or -1 where there is none.
pub open spec fn last_dot(name: Seq<char>) -> int {
    last_dot_upto(name, name.len() as int)
}

/// The extension of a name, without the separator: empty where the name has
/// no `.`, or only a leading one, or ends in one.
pub open spec fn extension(name: Seq<char>) -> Seq<char> {
    if last_dot(name) <= 0 {
        Seq::empty()
    } else {
        name.subrange(last_dot(name) + 1, name.len() as int)
    }
}

/// The extension of a name with its leading separator; a lone separator
/// where the name has no extension.
pub open spec fn dotted_extension(name: Seq<char>) -> Seq<char> {
    seq!['.'] + extension(name)
}

/// Whether a name is hidden: it begins with a `.`.
pub open spec fn is_hidden(name: Seq<char>) -> bool {
    name.len() > 0 && name[0] == '.'
}

/// A required extension with its leading separator, added where the caller
/// left it out.
pub open spec fn normalized(ext: Seq<char>) -> Seq<char> {
    if ext.len() > 0 && ext[0] == '.' {
        ext
    } else {
        seq!['.'] + ext
    }
}

/// Whether `token` is one of the exclusion tokens.
pub open spec fn listed(excludes: Seq<String>, token: Seq<char>) -> bool {
    exists|i: int| 0 <= i < excludes.len() && (#[trigger] excludes[i])@ == token
}

/// Whether a required extension rejects a name: one is given, it is not
/// empty, the name has an extension, and the two differ.
pub open spec fn rejected_by_required(name: Seq<char>, required: Option<String>) -> bool {
    match required {
        Some(r) => r@.len() > 0 && extension(name).len() > 0 && normalized(r@)
            != dotted_extension(name),
        None => false,
    }
}

/// The exclusion rule. A name is skipped where it is hidden, where it or its
/// extension is an exclusion token, or where a required extension rejects it.
pub open spec fn excluded(name: Seq<char>, required: Option<String>, excludes: Seq<String>) -> bool {
    is_hidden(name) || listed(excludes, name) || listed(excludes, dotted_extension(name))
        || rejected_by_required(name, required)
}

/// A hidden name is excluded, whatever extension is required and whatever
/// the exclusion tokens are.
pub proof fn lemma_hidden_excluded(
    name: Seq<char>,
    required: Option<String>,
    excludes: Seq<String>,
)
    requires
        is_hidden(name),
    ensures
        excluded(name, required, excludes),
{
}

/// A name is excluded where it or its extension is an exclusion token, also
/// where its extension is the required one.
pub proof fn lemma_listed_excluded(
    name: Seq<char>,
    required: Option<String>,
    excludes: Seq<String>,
)
    requires
        listed(excludes, name) || listed(excludes, dotted_extension(name)),
    ensures
        excluded(name, required, excludes),
{
}

/// A name without an extension is never excluded for the required extension
/// alone, and what is excluded with no extension required is excluded with
/// any.
pub proof fn lemma_required_only_narrows(
    name: Seq<char>,
    required: Option<String>,
    excludes: Seq<String>,
)
    ensures
        extension(name).len() == 0 ==> excluded(name, required, excludes) == excluded(
            name,
            None,
            excludes,
        ),
        excluded(name, None, excludes) ==> excluded(name, required, excludes),
{
}

/// The last `.` lies inside the part of the name that was searched, and
/// nothing after it is a `.`.
pub proof fn lemma_last_dot_upto(name: Seq<char>, n: int)
    requires
        0 <= n <= name.len(),
    ensures
        -1 <= last_dot_upto(name, n) < n,
        last_dot_upto(name, n) >= 0 ==> name[last_dot_upto(name, n)] == '.',
        forall|j: int| last_dot_upto(name, n) < j < n ==> name[j] != '.',
    decreases n,
{
    if n > 0 && name[n - 1] != '.' {
        lemma_last_dot_upto(name, n - 1);
    }
}

/// Finds the last `.` of a name.
fn find_last_dot(name: &Vec<char>) -> (pos: Option<usize>)
    ensures
        match pos {
            Some(p) => p as int == last_dot(name@),
            None => last_dot(name@) == -1,
        },
{
    let mut i: usize = name.len();
    while i > 0
        invariant
            i <= name.len(),
            last_dot(name@) == last_dot_upto(name@, i as int),
        decreases i,
    {
        if name[i - 1] == '.' {
            return Some(i - 1);
        }
        i = i - 1;
    }
    None
}

/// The characters of a name's extension, without the separator.
pub fn extension_chars(name: &Vec<char>) -> (ext: Vec<char>)
    ensures
        ext@ == extension(name@),
{
    let mut ext: Vec<char> = Vec::new();
    proof {
        lemma_last_dot_upto(name@, name@.len() as int);
    }
    match find_last_dot(name) {
        Some(p) => {
            if p > 0 {
                assert(p < name.len());
                let mut i: usize = p + 1;
                while i < name.len()
                    invariant
                        p < i <= name.len(),
                        ext@ == name@.subrange(p + 1, i as int),
                    decreases name.len() - i,
                {
                    ext.push(name[i]);
                    assert(name@.subrange(p + 1, i + 1) =~= name@.subrange(p + 1, i as int).push(
                        name@[i as int],
                    ));
                    i = i + 1;
                }
            } else {
                assert(ext@ =~= Seq::<char>::empty());
            }
        },
        None => {
            assert(ext@ =~= Seq::<char>::empty());
        },
    }
    ext
}

/// The characters of a name's extension with its leading separator.
pub fn dotted_extension_chars(name: &Vec<char>) -> (ext: Vec<char>)
    ensures
        ext@ == dotted_extension(name@),
{
    let bare = extension_chars(name);
    let mut ext: Vec<char> = Vec::new();
    ext.push('.');
    let mut i: usize = 0;
    while i < bare.len()
        invariant
            i <= bare.len(),
            ext@ == seq!['.'] + bare@.take(i as int),
        decreases bare.len() - i,
    {
        ext.push(bare[i]);
        assert(seq!['.'] + bare@.take(i + 1) =~= (seq!['.'] + bare@.take(i as int)).push(
            bare@[i as int],
        ));
        i = i + 1;
    }
    assert(bare@.take(bare@.len() as int) =~= bare@);
    ext
}

/// A name's extension with its leading separator, as a string.
pub fn dotted_extension_string(name: &str) -> (ext: String)
    ensures
        ext@ == dotted_extension(name@),
{
    let chars = chars_of(name);
    proof {
        lemma_last_dot_upto(chars@, chars@.len() as int);
        reveal_strlit(".");
    }
    let mut ext = ".".to_owned();
    assert(ext@ =~= seq!['.']);
    match find_last_dot(&chars) {
        Some(p) => {
            if p > 0 {
                assert(p < chars.len());
                let tail = name.substring_char(p + 1, chars.len());
                ext.append(tail);
            } else {
                assert(ext@ =~= seq!['.'] + Seq::<char>::empty());
            }
        },
        None => {
            assert(ext@ =~= seq!['.'] + Seq::<char>::empty());
        },
    }
    ext
}

/// Puts the leading separator on a required extension that lacks it.
pub fn normalize_extension(ext: &Vec<char>) -> (out: Vec<char>)
    ensures
        out@ == normalized(ext@),
{
    let mut out: Vec<char> = Vec::new();
    if !(ext.len() > 0 && ext[0] == '.') {
        out.push('.');
    }
    let ghost head = out@;
    let mut i: usize = 0;
    while i < ext.len()
        invariant
            i <= ext.len(),
            out@ == head + ext@.take(i as int),
        decreases ext.len() - i,
    {
        out.push(ext[i]);
        assert(head + ext@.take(i + 1) =~= (head + ext@.take(i as int)).push(ext@[i as int]));
        i = i + 1;
    }
    assert(ext@.take(ext@.len() as int) =~= ext@);
    assert(Seq::<char>::empty() + ext@ =~= ext@);
    out
}

/// Whether `token` is one of the exclusion tokens.
pub fn is_listed(excludes: &[String], token: &Vec<char>) -> (found: bool)
    ensures
        found == listed(excludes@, token@),
{
    let mut i: usize = 0;
    while i < excludes.len()
        invariant
            i <= excludes.len(),
            forall|j: int| 0 <= j < i ==> (#[trigger] excludes@[j])@ != token@,
        decreases excludes.len() - i,
    {
        let entry = chars_of(excludes[i].as_str());
        if chars_eq(&entry, token) {
            return true;
        }
        i = i + 1;
    }
    false
}

/// Decides whether a scan skips the entry called `name`. `required` is the
/// one extension asked for, if any, with or without its separator; `excludes`
/// holds names and extensions to leave out.
pub fn should_exclude(name: &str, required: &Option<String>, excludes: &[String]) -> (skip: bool)
    ensures
        skip == excluded(name@, *required, excludes@),
{
    let name_chars = chars_of(name);
    if name_chars.len() > 0 && name_chars[0] == '.' {
        return true;
    }
    if is_listed(excludes, &name_chars) {
        return true;
    }
    let ext = dotted_extension_chars(&name_chars);
    if is_listed(excludes, &ext) {
        return true;
    }
    match required {
        Some(r) => {
            let wanted = chars_of(r.as_str());
            if wanted.len() == 0 || ext.len() <= 1 {
                false
            } else {
                let wanted = normalize_extension(&wanted);
                !chars_eq(&wanted, &ext)
            }
        },
        None => false,
    }
}

} // verus!

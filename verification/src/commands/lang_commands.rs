//! Localisation files of a project.

use vstd::prelude::*;
use vstd::string::*;
use crate::sorting::{in_order, sort_names, NameOrder, NameOrderView};
use crate::text::{
    contains, contains_text, find_char_from, first_index, has_prefix, lowercase_of, same_text,
    slice_text, starts_with, texts_of, to_lowercase, trim, trimmed,
};

verus! {

/// One localisation file: its path below the project root, its name, and its
/// kind, which is its extension.
#[derive(Debug, Clone)]
pub struct LangFile {
    pub path: String,
    pub name: String,
    pub file_type: String,
}

/// The files of one locale.
#[derive(Debug, Clone)]
pub struct LangLocale {
    pub locale: String,
    pub files: Vec<LangFile>,
}

/// The locales of a project, and which of them is the default.
#[derive(Debug, Clone)]
pub struct LangData {
    pub default_locale: String,
    pub locales: Vec<LangLocale>,
}

/// A path that does not climb: it holds no `..`.
pub open spec fn safe_relative_path(path: Seq<char>) -> bool {
    !contains_text(path, ".."@)
}

/// Decides whether a localisation file may be read or written under `path`.
pub fn is_safe_relative_path(path: &str) -> (r: bool)
    ensures
        r == safe_relative_path(path@),
{
    !contains(path, "..")
}

/// Directly in the language directory only a JSON file is a localisation
/// file.
pub fn is_root_lang_extension(extension: &str) -> (r: bool)
    ensures
        r == (extension@ == "json"@),
{
    same_text(extension, "json")
}

/// In the directory of a locale, PHP and JSON files are localisation files.
pub fn is_locale_lang_extension(extension: &str) -> (r: bool)
    ensures
        r == (extension@ == "php"@ || extension@ == "json"@),
{
    same_text(extension, "php") || same_text(extension, "json")
}

/// `s` without every `c` at its end.
pub open spec fn stripped_end(s: Seq<char>, c: char) -> Seq<char>
    decreases s.len(),
{
    if s.len() > 0 && s.last() == c {
        stripped_end(s.drop_last(), c)
    } else {
        s
    }
}

/// `s` without every `c` at its start and at its end.
pub open spec fn stripped(s: Seq<char>, c: char) -> Seq<char>
    decreases s.len(),
{
    if s.len() > 0 && s[0] == c {
        stripped(s.drop_first(), c)
    } else {
        stripped_end(s, c)
    }
}

/// Cuts every `c` off both ends of `s`.
pub fn strip_char(s: &str, c: char) -> (r: &str)
    ensures
        r@ == stripped(s@, c),
{
    let n: usize = s.unicode_len();
    let mut start: usize = 0;
    assert(s@.subrange(0, n as int) =~= s@);
    while start < n && s.get_char(start) == c
        invariant
            n == s@.len(),
            start <= n,
            stripped(s@, c) == stripped(s@.subrange(start as int, n as int), c),
        decreases n - start,
    {
        assert(s@.subrange(start as int, n as int).drop_first() =~= s@.subrange(
            start + 1,
            n as int,
        ));
        start += 1;
    }
    let mut end: usize = n;
    while end > start && s.get_char(end - 1) == c
        invariant
            n == s@.len(),
            start <= end <= n,
            stripped(s@, c) == stripped_end(s@.subrange(start as int, end as int), c),
        decreases end - start,
    {
        assert(s@.subrange(start as int, end as int).drop_last() =~= s@.subrange(
            start as int,
            end - 1,
        ));
        end -= 1;
    }
    s.substring_char(start, end)
}

/// The locale that one line of a dotenv file names, as written: the text
/// after `APP_LOCALE=` on the trimmed line, without the double quotes and then
/// the single quotes around it.
pub open spec fn line_locale(line: Seq<char>) -> Option<Seq<char>> {
    let t = trimmed(line);
    if has_prefix(t, "APP_LOCALE="@) {
        Some(stripped(stripped(t.subrange("APP_LOCALE="@.len() as int, t.len() as int), '"'), '\''))
    } else {
        None
    }
}

/// The locale that a dotenv file names, as written: that of the first line
/// that names one.
pub open spec fn env_locale(content: Seq<char>) -> Option<Seq<char>>
    decreases content.len(),
{
    let nl = first_index(content, '\n');
    let here = line_locale(content.subrange(0, nl));
    if here is Some {
        here
    } else if 0 <= nl < content.len() {
        env_locale(content.subrange(nl + 1, content.len() as int))
    } else {
        None
    }
}

/// The default locale of a project: the locale of its dotenv file in lower
/// case, and `en` where there is no file or it names none.
pub open spec fn default_locale(env: Option<Seq<char>>) -> Seq<char> {
    match env {
        Some(content) => match env_locale(content) {
            Some(written) => lowercase_of(written),
            None => "en"@,
        },
        None => "en"@,
    }
}

/// Reads the locale that one line names.
pub fn locale_of_line<'a>(line: &'a str) -> (r: Option<&'a str>)
    ensures
        match r {
            Some(v) => line_locale(line@) == Some(v@),
            None => line_locale(line@) is None,
        },
{
    let t = trim(line);
    if starts_with(t, "APP_LOCALE=") {
        let from: usize = "APP_LOCALE=".unicode_len();
        let value = t.substring_char(from, t.unicode_len());
        Some(strip_char(strip_char(value, '"'), '\''))
    } else {
        None
    }
}

/// Reads the locale that a dotenv file names.
pub fn locale_of_env<'a>(content: &'a str) -> (r: Option<&'a str>)
    ensures
        match r {
            Some(v) => env_locale(content@) == Some(v@),
            None => env_locale(content@) is None,
        },
{
    let n: usize = content.unicode_len();
    let mut pos: usize = 0;
    assert(content@.subrange(0, n as int) =~= content@);
    loop
        invariant
            n == content@.len(),
            pos <= n,
            env_locale(content@) == env_locale(content@.subrange(pos as int, n as int)),
        decreases n - pos,
    {
        let nl: usize = find_char_from(content, '\n', pos);
        let line = content.substring_char(pos, nl);
        proof {
            let rest = content@.subrange(pos as int, n as int);
            assert(rest.subrange(0, nl - pos) =~= line@);
            if nl < n {
                assert(rest.subrange(nl - pos + 1, rest.len() as int) =~= content@.subrange(
                    nl + 1,
                    n as int,
                ));
            }
        }
        match locale_of_line(line) {
            Some(v) => {
                return Some(v);
            },
            None => {},
        }
        if nl < n {
            pos = nl + 1;
        } else {
            return None;
        }
    }
}

/// Names the default locale of a project from the text of its dotenv file.
pub fn get_default_locale(env: Option<&str>) -> (r: String)
    ensures
        r@ == default_locale(slice_text(env)),
{
    let written = match env {
        Some(content) => locale_of_env(content),
        None => None,
    };
    match written {
        Some(v) => to_lowercase(v),
        None => String::from_str("en"),
    }
}

/// Lists the names of locales: the default locale first, the others by
/// name.
pub fn order_locales(locales: &Vec<String>, default_locale: &str) -> (r: Vec<String>)
    ensures
        in_order(texts_of(r@), NameOrderView::DefaultFirst(default_locale@)),
        texts_of(r@).to_multiset() == texts_of(locales@).to_multiset(),
{
    let order = NameOrder::DefaultFirst(String::from_str(default_locale));
    sort_names(locales, &order)
}

} // verus!

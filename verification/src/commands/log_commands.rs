//! Names of log files.

use vstd::prelude::*;
use vstd::string::*;
use crate::sorting::{in_order, sort_names, NameOrder, NameOrderView};
use crate::text::{contains, contains_text, ends_with, has_suffix, texts_of};

verus! {

/// A log file is one whose name ends in `.log`.
pub open spec fn log_file_name(name: Seq<char>) -> bool {
    has_suffix(name, ".log"@)
}

/// A name that stays inside the log directory: it holds neither `..` nor a
/// path separator.
pub open spec fn plain_file_name(name: Seq<char>) -> bool {
    !contains_text(name, ".."@) && !contains_text(name, "/"@) && !contains_text(name, "\\"@)
}

/// Decides whether a directory entry is listed as a log file.
pub fn is_log_file_name(name: &str) -> (r: bool)
    ensures
        r == log_file_name(name@),
{
    ends_with(name, ".log")
}

/// Decides whether a requested log file name may be opened.
pub fn is_plain_file_name(name: &str) -> (r: bool)
    ensures
        r == plain_file_name(name@),
{
    !contains(name, "..") && !contains(name, "/") && !contains(name, "\\")
}

/// The names among `names` that are names of log files, in their order.
pub open spec fn log_names(names: Seq<Seq<char>>) -> Seq<Seq<char>>
    decreases names.len(),
{
    if names.len() == 0 {
        Seq::<Seq<char>>::empty()
    } else if log_file_name(names.last()) {
        log_names(names.drop_last()).push(names.last())
    } else {
        log_names(names.drop_last())
    }
}

/// Picks the log files among the names of a directory's files.
pub fn pick_log_files(names: &Vec<String>) -> (r: Vec<String>)
    ensures
        texts_of(r@) == log_names(texts_of(names@)),
{
    let ghost all = texts_of(names@);
    let mut picked: Vec<String> = Vec::new();
    let mut i: usize = 0;
    assert(all.subrange(0, 0) =~= Seq::<Seq<char>>::empty());
    assert(texts_of(picked@) =~= log_names(all.subrange(0, 0)));
    while i < names.len()
        invariant
            i <= names.len(),
            all == texts_of(names@),
            texts_of(picked@) == log_names(all.subrange(0, i as int)),
        decreases names.len() - i,
    {
        let ghost held = picked@;
        assert(all.subrange(0, i + 1).drop_last() =~= all.subrange(0, i as int));
        assert(all.subrange(0, i + 1).last() == names@[i as int]@);
        if is_log_file_name(names[i].as_str()) {
            picked.push(names[i].clone());
            assert(texts_of(picked@) =~= texts_of(held).push(names@[i as int]@));
        }
        i += 1;
    }
    assert(all.subrange(0, names.len() as int) =~= all);
    picked
}

/// Lists the log files among the names of a directory's files, downwards by
/// name, so that the file of the latest day comes first.
pub fn list_log_files(names: &Vec<String>) -> (r: Vec<String>)
    ensures
        in_order(texts_of(r@), NameOrderView::Downward),
        texts_of(r@).to_multiset() == log_names(texts_of(names@)).to_multiset(),
{
    let picked = pick_log_files(names);
    sort_names(&picked, &NameOrder::Downward)
}

} // verus!

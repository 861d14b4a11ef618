//! The listing of a directory: which entries are shown, and the line of each.

use crate::options::Options;
use crate::row::{long_format_row, long_row, FileMeta};
use crate::text::texts;
use vstd::prelude::*;
use vstd::string::*;

verus! {

/// One child of the directory, as its enumeration yields it.
#[derive(Debug)]
pub struct Entry {
    /// The name; empty where the name on disk is no valid text.
    pub name: String,
    /// What a long row shows of the entry; `None` where its metadata cannot
    /// be read.
    pub meta: Option<FileMeta>,
}

/// The lines of a listing, and where it broke off if it did.
#[derive(Debug, PartialEq, Eq)]
pub struct Listing {
    /// The lines, in the order of the enumeration.
    pub lines: Vec<String>,
    /// The position of the entry at which the listing broke off, because a
    /// long row was asked for and the entry's metadata could not be read;
    /// `None` where every entry was dealt with.
    pub failed_at: Option<usize>,
}

/// How one entry is to be shown.
#[derive(Clone, Copy, Debug, PartialEq, Eq, Structural)]
pub enum Rendering {
    /// Not at all: the entry is hidden.
    Skip,
    /// As its bare name.
    BareName,
    /// As a long row, for which its metadata is needed.
    LongRow,
}

/// A hidden name is one that starts with `.`.
pub open spec fn is_hidden_name(name: Seq<char>) -> bool {
    name.len() > 0 && name[0] == '.'
}

/// Whether an entry of this name is shown under `options`.
pub open spec fn is_listed(name: Seq<char>, options: Options) -> bool {
    options.show_all || !is_hidden_name(name)
}

/// How an entry of this name is to be shown under `options`.
pub open spec fn rendering(name: Seq<char>, options: Options) -> Rendering {
    if !is_listed(name, options) {
        Rendering::Skip
    } else if options.long_format {
        Rendering::LongRow
    } else {
        Rendering::BareName
    }
}

/// The entries that are shown, in the order of the enumeration.
pub open spec fn kept(entries: Seq<Entry>, options: Options) -> Seq<Entry> {
    entries.filter(|entry: Entry| is_listed(entry.name@, options))
}

/// The names of the entries, in the same order.
pub open spec fn names(entries: Seq<Entry>) -> Seq<Seq<char>> {
    entries.map_values(|entry: Entry| entry.name@)
}

/// The names among `all` that are shown under `options`, in the same order.
pub open spec fn listed_names(all: Seq<Seq<char>>, options: Options) -> Seq<Seq<char>> {
    all.filter(|name: Seq<char>| is_listed(name, options))
}

/// The names among `all` that do not start with `.`, in the same order.
pub open spec fn visible_names(all: Seq<Seq<char>>) -> Seq<Seq<char>> {
    all.filter(|name: Seq<char>| !is_hidden_name(name))
}

/// The line of an entry that is shown: its name, or its long row where its
/// metadata can be read.
pub open spec fn line_of(entry: Entry, options: Options) -> Seq<char> {
    if options.long_format {
        long_row(entry.name@, entry.meta->0)
    } else {
        entry.name@
    }
}

/// Whether a listing breaks off at `entry`: a long row is asked for, and the
/// entry's metadata cannot be read.
pub open spec fn is_unreadable(entry: Entry, options: Options) -> bool {
    rendering(entry.name@, options) == Rendering::LongRow && entry.meta is None
}

/// `k` is the position of the first entry at which a listing breaks off.
pub open spec fn breaks_at(entries: Seq<Entry>, options: Options, k: int) -> bool {
    &&& 0 <= k < entries.len()
    &&& is_unreadable(entries[k], options)
    &&& forall|j: int| 0 <= j < k ==> !is_unreadable(#[trigger] entries[j], options)
}

/// The number of entries that a listing deals with: those before the first
/// at which it breaks off, or all of them.
pub open spec fn reach(entries: Seq<Entry>, options: Options) -> int {
    if exists|k: int| breaks_at(entries, options, k) {
        choose|k: int| breaks_at(entries, options, k)
    } else {
        entries.len() as int
    }
}

/// The lines of a listing: one for each entry that is shown, in the order of
/// the enumeration.
pub open spec fn listing(entries: Seq<Entry>, options: Options) -> Seq<Seq<char>> {
    kept(entries, options).map_values(|entry: Entry| line_of(entry, options))
}

/// The name under which an entry is listed: its name on disk where that is
/// valid text, the empty name where it is not.
pub fn entry_name(decoded: Option<String>) -> (name: String)
    ensures
        name@ == match decoded {
            Some(text) => text@,
            None => Seq::<char>::empty(),
        },
{
    match decoded {
        Some(text) => text,
        None => String::new(),
    }
}

/// Whether `name` is hidden.
pub fn is_hidden(name: &str) -> (hidden: bool)
    ensures
        hidden == is_hidden_name(name@),
{
    !name.is_empty() && name.get_char(0) == '.'
}

/// Decides how the entry `name` is to be shown. Metadata is needed for
/// `Rendering::LongRow` alone, so a caller fetches it only then.
pub fn plan_entry(name: &str, options: &Options) -> (plan: Rendering)
    ensures
        plan == rendering(name@, *options),
{
    if !options.show_all && is_hidden(name) {
        Rendering::Skip
    } else if options.long_format {
        Rendering::LongRow
    } else {
        Rendering::BareName
    }
}

/// Renders the listing of a directory whose enumeration yielded `entries`.
/// Metadata is looked at for long rows alone. At the first entry that is to
/// be shown as a long row and has none, the listing breaks off: the lines of
/// the entries before it stand, and its position is reported.
pub fn list_directory(entries: &Vec<Entry>, options: &Options) -> (out: Listing)
    ensures
        texts(out.lines@) == listing(
            entries@.take(reach(entries@, *options)),
            *options,
        ),
        out.failed_at == if reach(entries@, *options) < entries@.len() {
            Some(reach(entries@, *options) as usize)
        } else {
            None
        },
{
    let mut lines: Vec<String> = Vec::new();
    let mut i: usize = 0;
    proof {
        reveal(Seq::filter);
    }
    while i < entries.len()
        invariant
            i <= entries.len(),
            forall|j: int| 0 <= j < i ==> !is_unreadable(#[trigger] entries@[j], *options),
            texts(lines@) == listing(entries@.take(i as int), *options),
        decreases entries.len() - i,
    {
        let entry = &entries[i];
        let ghost before = lines@;
        proof {
            lemma_listing_push(entries@.take(i as int), *entry, *options);
            assert(entries@.take(i + 1) =~= entries@.take(i as int).push(*entry));
        }
        match plan_entry(entry.name.as_str(), options) {
            Rendering::Skip => {},
            Rendering::BareName => {
                lines.push(entry.name.clone());
            },
            Rendering::LongRow => {
                match &entry.meta {
                    Some(meta) => {
                        let row = long_format_row(entry.name.as_str(), meta);
                        lines.push(row);
                    },
                    None => {
                        proof {
                            lemma_reach_at_break(entries@, *options, i as int);
                        }
                        return Listing { lines, failed_at: Some(i) };
                    },
                }
            },
        }
        i += 1;
    }
    proof {
        lemma_reach_without_break(entries@, *options);
    }
    Listing { lines, failed_at: None }
}

/// A listing that breaks off at `k` deals with the `k` entries before it.
pub proof fn lemma_reach_at_break(entries: Seq<Entry>, options: Options, k: int)
    requires
        breaks_at(entries, options, k),
    ensures
        reach(entries, options) == k,
{
}

/// A listing deals with every entry where none that is to be shown as a long
/// row lacks its metadata.
pub proof fn lemma_reach_without_break(entries: Seq<Entry>, options: Options)
    requires
        forall|j: int| 0 <= j < entries.len() ==> !is_unreadable(#[trigger] entries[j], options),
    ensures
        reach(entries, options) == entries.len(),
{
}

/// A listing of bare names never breaks off, and neither does one in which
/// every entry has its metadata.
pub proof fn lemma_complete_listings(entries: Seq<Entry>, options: Options)
    requires
        !options.long_format || forall|j: int|
            0 <= j < entries.len() ==> (#[trigger] entries[j]).meta is Some,
    ensures
        reach(entries, options) == entries.len(),
{
    lemma_reach_without_break(entries, options);
}

/// The listing of an enumeration that yields one entry more: the lines so
/// far, and the new entry's line after them if it is shown.
pub proof fn lemma_listing_push(entries: Seq<Entry>, entry: Entry, options: Options)
    ensures
        listing(entries.push(entry), options) == if is_listed(entry.name@, options) {
            listing(entries, options).push(line_of(entry, options))
        } else {
            listing(entries, options)
        },
{
    let shown = |entry: Entry| is_listed(entry.name@, options);
    entries.lemma_filter_push(entry, shown);
    if is_listed(entry.name@, options) {
        assert(listing(entries.push(entry), options) =~= listing(entries, options).push(
            line_of(entry, options),
        ));
    }
}

/// The listing of a directory enumerated as `first` and then `second` is the
/// listing of `first` followed by that of `second`: lines come out in the
/// order of the enumeration.
pub proof fn lemma_listing_concat(first: Seq<Entry>, second: Seq<Entry>, options: Options)
    ensures
        listing(first + second, options) == listing(first, options) + listing(second, options),
{
    let shown = |entry: Entry| is_listed(entry.name@, options);
    Seq::filter_distributes_over_add(first, second, shown);
    assert(listing(first + second, options) =~= listing(first, options) + listing(
        second,
        options,
    ));
}

/// The listing of a single entry: its line if it is shown, nothing if it is
/// hidden and hidden entries are not asked for.
pub proof fn lemma_listing_single(entry: Entry, options: Options)
    ensures
        listing(seq![entry], options) == if options.show_all || !is_hidden_name(entry.name@) {
            seq![line_of(entry, options)]
        } else {
            Seq::<Seq<char>>::empty()
        },
{
    reveal(Seq::filter);
    lemma_listing_push(Seq::empty(), entry, options);
    assert(Seq::<Seq<char>>::empty().push(line_of(entry, options)) =~= seq![
        line_of(entry, options),
    ]);
}

/// The names that a listing shows are the names of the directory's entries
/// in the order of the enumeration, without those that start with `.` unless
/// `show_all` is set, and then all of them. A short listing is made of these
/// names; a long one has the row of each.
pub proof fn lemma_listed_names(entries: Seq<Entry>, options: Options)
    ensures
        names(kept(entries, options)) == listed_names(names(entries), options),
        options.show_all ==> listed_names(names(entries), options) == names(entries),
        !options.show_all ==> listed_names(names(entries), options) == visible_names(
            names(entries),
        ),
        listing(entries, options).len() == listed_names(names(entries), options).len(),
        !options.long_format ==> listing(entries, options) == listed_names(
            names(entries),
            options,
        ),
        options.long_format ==> forall|i: int|
            0 <= i < listing(entries, options).len() ==> #[trigger] listing(entries, options)[i]
                == long_row(
                listed_names(names(entries), options)[i],
                kept(entries, options)[i].meta->0,
            ),
    decreases entries.len(),
{
    let shown = |entry: Entry| is_listed(entry.name@, options);
    let listed = |name: Seq<char>| is_listed(name, options);
    let visible = |name: Seq<char>| !is_hidden_name(name);
    reveal(Seq::filter);
    if entries.len() > 0 {
        let rest = entries.drop_last();
        let last = entries.last();
        assert(names(entries) =~= names(rest).push(last.name@));
        lemma_listed_names(rest, options);
        rest.lemma_filter_push(last, shown);
        names(rest).lemma_filter_push(last.name@, listed);
        names(rest).lemma_filter_push(last.name@, visible);
        lemma_listing_push(rest, last, options);
    }
}

/// Every entry that is shown is an entry of the directory, and every entry of
/// the directory that is not hidden, or any entry at all under `show_all`, is
/// shown.
pub proof fn lemma_kept_entries(entries: Seq<Entry>, options: Options)
    ensures
        forall|i: int|
            0 <= i < kept(entries, options).len() ==> {
                &&& entries.contains(#[trigger] kept(entries, options)[i])
                &&& is_listed(kept(entries, options)[i].name@, options)
            },
        forall|i: int|
            0 <= i < entries.len() && is_listed(entries[i].name@, options) ==> kept(
                entries,
                options,
            ).contains(#[trigger] entries[i]),
{
    let shown = |entry: Entry| is_listed(entry.name@, options);
    assert forall|i: int| 0 <= i < kept(entries, options).len() implies {
        &&& entries.contains(#[trigger] kept(entries, options)[i])
        &&& is_listed(kept(entries, options)[i].name@, options)
    } by {
        let entry = kept(entries, options)[i];
        entries.lemma_filter_contains_rev(shown, entry);
        entries.lemma_filter_pred(shown, i);
    }
    assert forall|i: int|
        0 <= i < entries.len() && is_listed(entries[i].name@, options) implies kept(
        entries,
        options,
    ).contains(#[trigger] entries[i]) by {
        entries.lemma_filter_contains(shown, i);
    }
}

} // verus!

//! Listing one directory: the names of its visible entries, directories
//! first, each group in byte-wise order, as a fragment of HTML.

use crate::response::{PreparedView, Response, StatusView, WriteError};
use crate::sink::{wrote, Sink};
use crate::text::{
    by_bytes, le, lemma_by_bytes_total_order, starts_with_dot, text_le, texts,
};
use std::io::Error as IoError;
use vstd::multiset::Multiset;
use vstd::prelude::*;
use vstd::relations::{sorted_by, total_ordering};
use vstd::seq_lib::{lemma_sorted_unique, to_multiset_insert};
use vstd::string::{StringExecFns, StringSliceAdditionalSpecFns};
use vstd::utf8::encode_utf8;

verus! {

/// Why a directory could not be listed.
#[derive(Debug)]
#[allow(inconsistent_fields)]
pub enum IndexError {
    /// The directory at `path` could not be opened.
    ReadingDirectory { path: String, source: IoError },
    /// An entry of the directory could not be read.
    ReadingEntry { source: IoError },
    /// The metadata of the entry at `path` could not be read.
    ReadingMetadata { path: String, source: IoError },
    /// The listing `buf` could not be written.
    WritingToStream { buf: String, source: WriteError },
}

impl IndexError {
    /// The failure that lies behind the error: that of the read, or that of
    /// the sink.
    pub open spec fn cause(self) -> IoError {
        match self {
            Self::ReadingDirectory { source, .. } => source,
            Self::ReadingEntry { source } => source,
            Self::ReadingMetadata { source, .. } => source,
            Self::WritingToStream { source, .. } => source.cause(),
        }
    }

    /// What went wrong, in words.
    pub fn message(&self) -> (r: String)
        ensures
            r@ == match self {
                Self::ReadingDirectory { path, .. } => "failed to read directory '"@ + path@
                    + "'"@,
                Self::ReadingEntry { .. } => "failed to read entry data in directory"@,
                Self::ReadingMetadata { path, .. } => "failed to read metadata for path '"@
                    + path@ + "'"@,
                Self::WritingToStream { buf, .. } => "failed to write to remote (unknown); content: "@
                    + buf@,
            },
    {
        match self {
            Self::ReadingDirectory { path, .. } => {
                let mut text = "failed to read directory '".to_owned();
                text.append(path.as_str());
                text.append("'");
                text
            },
            Self::ReadingEntry { .. } => "failed to read entry data in directory".to_owned(),
            Self::ReadingMetadata { path, .. } => {
                let mut text = "failed to read metadata for path '".to_owned();
                text.append(path.as_str());
                text.append("'");
                text
            },
            Self::WritingToStream { buf, .. } => {
                let mut text = "failed to write to remote (unknown); content: ".to_owned();
                text.append(buf.as_str());
                text
            },
        }
    }
}

/// One entry of a directory.
#[derive(Clone, Debug)]
pub struct Entry {
    /// The entry's name, where it is valid text.
    pub name: Option<String>,
    /// Whether the entry is itself a directory.
    pub is_dir: bool,
}

/// An entry as a plain value.
pub struct EntryView {
    pub name: Option<Seq<char>>,
    pub is_dir: bool,
}

impl View for Entry {
    type V = EntryView;

    open spec fn view(&self) -> EntryView {
        EntryView {
            name: match self.name {
                Some(name) => Some(name@),
                None => None,
            },
            is_dir: self.is_dir,
        }
    }
}

/// The entries of a directory as plain values.
pub open spec fn views(entries: Seq<Entry>) -> Seq<EntryView> {
    Seq::new(entries.len(), |i: int| entries[i]@)
}

/// Whether a name is hidden: it starts with a dot, as do the names of the
/// directory itself and of its parent.
pub open spec fn hidden(name: Seq<char>) -> bool {
    name.len() > 0 && name.first() == '.'
}

/// Whether an entry is listed among the directories (`dirs`) or among the
/// files (`!dirs`): its name is valid text and not hidden, and it is of
/// the kind asked for.
pub open spec fn listed(entry: EntryView, dirs: bool) -> bool {
    entry.name matches Some(name) && !hidden(name) && entry.is_dir == dirs
}

/// The names of the entries that are listed as directories or as files, in
/// the order of the entries.
pub open spec fn names(entries: Seq<EntryView>, dirs: bool) -> Seq<Seq<char>>
    decreases entries.len(),
{
    if entries.len() == 0 {
        Seq::empty()
    } else if listed(entries.last(), dirs) {
        names(entries.drop_last(), dirs).push(entries.last().name->0)
    } else {
        names(entries.drop_last(), dirs)
    }
}

/// The link to one entry.
pub open spec fn anchor(name: Seq<char>) -> Seq<char> {
    "<a href='./"@ + name + "'>"@ + name + "</a><br />"@
}

/// The links to the given names, one after another.
pub open spec fn anchors(names: Seq<Seq<char>>) -> Seq<char>
    decreases names.len(),
{
    if names.len() == 0 {
        Seq::empty()
    } else {
        anchors(names.drop_last()) + anchor(names.last())
    }
}

/// One section of a listing: a heading and the links below it, or nothing
/// at all when there is nothing to link to.
pub open spec fn section(heading: Seq<char>, names: Seq<Seq<char>>) -> Seq<char> {
    if names.len() == 0 {
        Seq::empty()
    } else {
        heading + anchors(names)
    }
}

/// The listing of a directory: its directories, then its files, each group
/// in byte-wise order of the names.
pub open spec fn listing(entries: Seq<EntryView>) -> Seq<char> {
    section("<h2>directories</h2>"@, names(entries, true).sort_by(by_bytes())) + section(
        "<h2>files</h2>"@,
        names(entries, false).sort_by(by_bytes()),
    )
}

/// Appends the link to the entry named `path` to `buf`.
pub fn write_anchor(buf: &mut String, path: &str)
    ensures
        final(buf)@ == old(buf)@ + anchor(path@),
{
    buf.append("<a href='./");
    buf.append(path);
    buf.append("'>");
    buf.append(path);
    buf.append("</a><br />");
    assert(buf@ =~= old(buf)@ + anchor(path@));
}

/// Puts `name` into the sorted `sorted`, at its place.
fn insert_sorted(sorted: &mut Vec<String>, name: String)
    requires
        sorted_by(texts(old(sorted)@), by_bytes()),
    ensures
        sorted_by(texts(final(sorted)@), by_bytes()),
        texts(final(sorted)@).to_multiset() == texts(old(sorted)@).to_multiset().insert(name@),
{
    let mut at: usize = 0;
    while at < sorted.len() && le(sorted[at].as_str(), name.as_str())
        invariant
            at <= sorted.len(),
            forall|j: int| 0 <= j < at ==> text_le(#[trigger] texts(sorted@)[j], name@),
        decreases sorted.len() - at,
    {
        at += 1;
    }
    let ghost before = texts(sorted@);
    sorted.insert(at, name);
    proof {
        let after = texts(sorted@);
        let order = by_bytes();
        lemma_by_bytes_total_order();
        assert(after =~= before.insert(at as int, name@));
        to_multiset_insert(before, at as int, name@);
        assert forall|i: int, j: int| 0 <= i < j < after.len() implies #[trigger] order(
            after[i],
            after[j],
        ) by {
            if j < at {
                assert(order(before[i], before[j]));
            } else if j == at {
                assert(text_le(before[i], name@));
            } else if i == at {
                assert(!text_le(before[at as int], name@));
                assert(order(name@, before[at as int]) || order(before[at as int], name@));
                if j - 1 > at {
                    assert(order(before[at as int], before[j - 1]));
                }
            } else if i < at {
                assert(order(before[i], before[j - 1]));
            } else {
                assert(order(before[i - 1], before[j - 1]));
            }
        }
    }
}

/// Appends one section of a listing to `buf`: nothing for no names, and
/// otherwise the heading and a link for each name.
fn write_section(buf: &mut String, heading: &str, names: &Vec<String>)
    ensures
        final(buf)@ == old(buf)@ + section(heading@, texts(names@)),
{
    if names.is_empty() {
        assert(buf@ =~= old(buf)@ + Seq::<char>::empty());
        return ;
    }
    buf.append(heading);
    let ghost all = texts(names@);
    let mut i: usize = 0;
    assert(all.take(0) =~= Seq::<Seq<char>>::empty());
    assert(buf@ =~= old(buf)@ + heading@ + anchors(all.take(0)));
    while i < names.len()
        invariant
            i <= names.len(),
            all == texts(names@),
            buf@ == old(buf)@ + heading@ + anchors(all.take(i as int)),
        decreases names.len() - i,
    {
        let ghost so_far = buf@;
        write_anchor(buf, names[i].as_str());
        proof {
            assert(all.take(i + 1).drop_last() =~= all.take(i as int));
            assert(all.take(i + 1).last() == names[i as int]@);
            assert(buf@ =~= old(buf)@ + heading@ + anchors(all.take(i + 1)));
        }
        i += 1;
    }
    proof {
        assert(all.take(i as int) =~= all);
        assert(buf@ =~= old(buf)@ + (heading@ + anchors(all)));
    }
}

/// Renders the listing of a directory from its entries, in whatever order
/// they were read.
pub fn list(entries: &[Entry]) -> (html: String)
    ensures
        html@ == listing(views(entries@)),
{
    let mut dirs: Vec<String> = Vec::new();
    let mut files: Vec<String> = Vec::new();
    let ghost all = views(entries@);
    let mut i: usize = 0;
    assert(all.take(0) =~= Seq::<EntryView>::empty());
    assert(texts(dirs@) =~= Seq::<Seq<char>>::empty());
    assert(texts(files@) =~= Seq::<Seq<char>>::empty());
    while i < entries.len()
        invariant
            i <= entries.len(),
            all == views(entries@),
            sorted_by(texts(dirs@), by_bytes()),
            sorted_by(texts(files@), by_bytes()),
            texts(dirs@).to_multiset() == names(all.take(i as int), true).to_multiset(),
            texts(files@).to_multiset() == names(all.take(i as int), false).to_multiset(),
        decreases entries.len() - i,
    {
        let entry = &entries[i];
        proof {
            assert(all.take(i + 1).drop_last() =~= all.take(i as int));
            assert(all.take(i + 1).last() == entry@);
            vstd::seq_lib::to_multiset_build(names(all.take(i as int), true), entry@.name->0);
            vstd::seq_lib::to_multiset_build(names(all.take(i as int), false), entry@.name->0);
        }
        if let Some(name) = &entry.name {
            if !starts_with_dot(name.as_str()) {
                if entry.is_dir {
                    insert_sorted(&mut dirs, name.clone());
                } else {
                    insert_sorted(&mut files, name.clone());
                }
            }
        }
        i += 1;
    }
    proof {
        assert(all.take(i as int) =~= all);
        lemma_by_bytes_total_order();
        names(all, true).lemma_sort_by_ensures(by_bytes());
        names(all, false).lemma_sort_by_ensures(by_bytes());
        lemma_sorted_unique(texts(dirs@), names(all, true).sort_by(by_bytes()), by_bytes());
        lemma_sorted_unique(texts(files@), names(all, false).sort_by(by_bytes()), by_bytes());
    }
    let mut buf = String::new();
    write_section(&mut buf, "<h2>directories</h2>", &dirs);
    write_section(&mut buf, "<h2>files</h2>", &files);
    assert(buf@ =~= listing(all));
    buf
}

/// The body of the response to a request for a listing: the listing when
/// the directory could be read, and nothing when it could not.
pub open spec fn page(read: Result<Vec<Entry>, IndexError>) -> Seq<char> {
    match read {
        Ok(entries) => listing(views(entries@)),
        Err(_) => Seq::empty(),
    }
}

/// The response to a request for a listing: the listing under status 200
/// when the directory could be read, and status 500 with no body when it
/// could not.
pub open spec fn reply(read: Result<Vec<Entry>, IndexError>) -> PreparedView {
    PreparedView {
        status: match read {
            Ok(_) => StatusView::Success,
            Err(_) => StatusView::InternalServiceError,
        },
        content: encode_utf8(page(read)),
        extension: None,
    }
}

/// The failure in the result of answering, if it has one.
pub open spec fn failure_in(r: Result<(), IndexError>) -> Option<IoError> {
    match r {
        Ok(_) => None,
        Err(error) => Some(error.cause()),
    }
}

/// Writes the response to a request for a listing, given what reading the
/// directory gave. A failure to write comes back with the body that was to
/// be written.
pub fn index<S: Sink>(stream: &mut S, read: Result<Vec<Entry>, IndexError>) -> (r: Result<
    (),
    IndexError,
>)
    ensures
        wrote(*old(stream), *final(stream), failure_in(r), reply(read).wire()),
        r matches Err(e) ==> e matches IndexError::WritingToStream { buf, .. } && buf@ == page(
            read,
        ),
{
    let buf = match &read {
        Ok(entries) => list(entries.as_slice()),
        Err(_) => String::new(),
    };
    let written = match &read {
        Ok(_) => Response::new(buf.as_str().as_bytes()).ok().write(stream),
        Err(_) => Response::new(buf.as_str().as_bytes()).internal_service_error().write(stream),
    };
    match written {
        Ok(()) => Ok(()),
        Err(source) => Err(IndexError::WritingToStream { buf, source }),
    }
}

/// The names listed are the names of the entries that are listed, no more
/// and no fewer: what is hidden or no valid text is left out, and so is
/// every file among the directories and every directory among the files.
pub proof fn lemma_names_are_of_listed(entries: Seq<EntryView>, dirs: bool, name: Seq<char>)
    ensures
        names(entries, dirs).contains(name) <==> exists|i: int|
            0 <= i < entries.len() && listed(#[trigger] entries[i], dirs) && entries[i].name
                == Some(name),
    decreases entries.len(),
{
    if entries.len() > 0 {
        let front = entries.drop_last();
        let last = entries.last();
        lemma_names_are_of_listed(front, dirs, name);
        if names(entries, dirs).contains(name) {
            if listed(last, dirs) && last.name == Some(name) {
                assert(entries[entries.len() - 1] == last);
            } else {
                let among = names(entries, dirs);
                let j = choose|j: int| 0 <= j < among.len() && among[j] == name;
                assert(names(front, dirs)[j] == name);
                let i = choose|i: int|
                    0 <= i < front.len() && listed(#[trigger] front[i], dirs) && front[i].name
                        == Some(name);
                assert(entries[i] == front[i]);
            }
        }
        if exists|i: int|
            0 <= i < entries.len() && listed(#[trigger] entries[i], dirs) && entries[i].name
                == Some(name) {
            let i = choose|i: int|
                0 <= i < entries.len() && listed(#[trigger] entries[i], dirs) && entries[i].name
                    == Some(name);
            if i == entries.len() - 1 {
                let among = names(entries, dirs);
                assert(among[among.len() - 1] == name);
            } else {
                assert(front[i] == entries[i]);
                let j = choose|j: int|
                    0 <= j < names(front, dirs).len() && names(front, dirs)[j] == name;
                assert(names(entries, dirs)[j] == name);
            }
        }
    }
}

/// The names of a listing stand in byte-wise order, each as often as among
/// the entries.
pub proof fn lemma_names_in_order(entries: Seq<EntryView>, dirs: bool)
    ensures
        sorted_by(names(entries, dirs).sort_by(by_bytes()), by_bytes()),
        names(entries, dirs).sort_by(by_bytes()).to_multiset() == names(
            entries,
            dirs,
        ).to_multiset(),
{
    lemma_by_bytes_total_order();
    names(entries, dirs).lemma_sort_by_ensures(by_bytes());
}

/// Where no name occurs twice among the names listed, as it is in every
/// directory, the names of a listing stand in strictly ascending order:
/// each comes before all that follow it, and is none of them.
pub proof fn lemma_names_ascend(entries: Seq<EntryView>, dirs: bool)
    requires
        names(entries, dirs).no_duplicates(),
    ensures
        ({
            let sorted = names(entries, dirs).sort_by(by_bytes());
            forall|i: int, j: int|
                0 <= i < j < sorted.len() ==> text_le(#[trigger] sorted[i], #[trigger] sorted[j])
                    && sorted[i] != sorted[j] && !text_le(sorted[j], sorted[i])
        }),
{
    let listed = names(entries, dirs);
    let sorted = listed.sort_by(by_bytes());
    lemma_by_bytes_total_order();
    listed.lemma_sort_by_ensures(by_bytes());
    listed.lemma_multiset_has_no_duplicates();
    sorted.lemma_multiset_has_no_duplicates_conv();
    assert forall|i: int, j: int| 0 <= i < j < sorted.len() implies text_le(
        #[trigger] sorted[i],
        #[trigger] sorted[j],
    ) && sorted[i] != sorted[j] && !text_le(sorted[j], sorted[i]) by {
        let order = by_bytes();
        assert(order(sorted[i], sorted[j]));
        if text_le(sorted[j], sorted[i]) {
            assert(order(sorted[j], sorted[i]));
        }
    }
}

/// What one entry adds to the names listed as directories or as files.
pub open spec fn share(entry: EntryView, dirs: bool) -> Multiset<Seq<char>> {
    if listed(entry, dirs) {
        Multiset::singleton(entry.name->0)
    } else {
        Multiset::empty()
    }
}

/// Taking one entry away takes away what that entry adds to the names.
proof fn lemma_names_remove(entries: Seq<EntryView>, dirs: bool, i: int)
    requires
        0 <= i < entries.len(),
    ensures
        names(entries, dirs).to_multiset() == names(entries.remove(i), dirs).to_multiset().add(
            share(entries[i], dirs),
        ),
    decreases entries.len(),
{
    broadcast use vstd::multiset::group_multiset_axioms;

    let front = entries.drop_last();
    let last = entries.last();
    if i == entries.len() - 1 {
        assert(entries.remove(i) =~= front);
        if listed(last, dirs) {
            vstd::seq_lib::to_multiset_build(names(front, dirs), last.name->0);
        }
        assert(names(entries, dirs).to_multiset() =~= names(front, dirs).to_multiset().add(
            share(last, dirs),
        ));
    } else {
        let rest = entries.remove(i);
        assert(rest.drop_last() =~= front.remove(i));
        assert(rest.last() == last);
        lemma_names_remove(front, dirs, i);
        if listed(last, dirs) {
            vstd::seq_lib::to_multiset_build(names(front, dirs), last.name->0);
            vstd::seq_lib::to_multiset_build(names(front.remove(i), dirs), last.name->0);
        }
        assert(names(entries, dirs).to_multiset() =~= names(rest, dirs).to_multiset().add(
            share(entries[i], dirs),
        ));
    }
}

/// Directories that hold the same entries list the same names, whatever
/// the order of the entries.
pub proof fn lemma_names_ignore_order(a: Seq<EntryView>, b: Seq<EntryView>, dirs: bool)
    requires
        a.to_multiset() == b.to_multiset(),
    ensures
        names(a, dirs).to_multiset() == names(b, dirs).to_multiset(),
    decreases a.len(),
{
    broadcast use vstd::multiset::group_multiset_axioms;

    vstd::seq_lib::to_multiset_len(a);
    vstd::seq_lib::to_multiset_len(b);
    if a.len() > 0 {
        let last = a.last();
        let at = a.len() - 1;
        assert(a.contains(last));
        vstd::seq_lib::to_multiset_contains(a, last);
        vstd::seq_lib::to_multiset_contains(b, last);
        let i = choose|i: int| 0 <= i < b.len() && b[i] == last;
        vstd::seq_lib::to_multiset_remove(a, at);
        vstd::seq_lib::to_multiset_remove(b, i);
        lemma_names_ignore_order(a.remove(at), b.remove(i), dirs);
        lemma_names_remove(a, dirs, at);
        lemma_names_remove(b, dirs, i);
    } else {
        assert(b.len() == 0);
    }
}

/// The listing of a directory depends on the entries of the directory
/// alone, and not on the order in which they were read.
pub proof fn lemma_listing_ignores_order(a: Seq<EntryView>, b: Seq<EntryView>)
    requires
        a.to_multiset() == b.to_multiset(),
    ensures
        listing(a) == listing(b),
{
    lemma_by_bytes_total_order();
    lemma_names_ignore_order(a, b, true);
    lemma_names_ignore_order(a, b, false);
    names(a, true).lemma_sort_by_ensures(by_bytes());
    names(b, true).lemma_sort_by_ensures(by_bytes());
    names(a, false).lemma_sort_by_ensures(by_bytes());
    names(b, false).lemma_sort_by_ensures(by_bytes());
    lemma_sorted_unique(
        names(a, true).sort_by(by_bytes()),
        names(b, true).sort_by(by_bytes()),
        by_bytes(),
    );
    lemma_sorted_unique(
        names(a, false).sort_by(by_bytes()),
        names(b, false).sort_by(by_bytes()),
        by_bytes(),
    );
}

} // verus!

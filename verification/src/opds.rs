//! The catalogue as it is handed to a reader: a titled feed of entries, each
//! a link to a further catalogue or to a book.

use crate::text::{replace_char, replaced};
use vstd::prelude::*;
use vstd::string::StringExecFns;

verus! {

/// One line of a feed.
#[derive(Debug)]
pub struct Entry {
    pub id: String,
    pub title: String,
    pub href: String,
    pub htype: String,
}

/// An entry, over texts.
pub struct EntryView {
    pub id: Seq<char>,
    pub title: Seq<char>,
    pub href: Seq<char>,
    pub htype: Seq<char>,
}

impl View for Entry {
    type V = EntryView;

    open spec fn view(&self) -> EntryView {
        EntryView { id: self.id@, title: self.title@, href: self.href@, htype: self.htype@ }
    }
}

/// The id of the entry for a link: the link behind the word "root", with a
/// colon for every slash.
pub open spec fn entry_id(link: Seq<char>) -> Seq<char> {
    "root"@ + replaced(link, '/', ':')
}

/// The entry that leads to a further catalogue.
pub open spec fn catalog_entry(title: Seq<char>, link: Seq<char>) -> EntryView {
    EntryView {
        id: entry_id(link),
        title,
        href: link,
        htype: "application/atom+xml;profile=opds-catalog"@,
    }
}

/// The entry that leads to a book.
pub open spec fn book_entry(title: Seq<char>, link: Seq<char>) -> EntryView {
    EntryView { id: entry_id(link), title, href: link, htype: "application/fb2+zip"@ }
}

impl Entry {
    /// An entry that leads to a further catalogue.
    pub fn new(title: &str, link: &str) -> (entry: Entry)
        ensures
            entry@ == catalog_entry(title@, link@),
    {
        Entry::catalog(title, link)
    }

    /// An entry that leads to a further catalogue.
    pub fn catalog(title: &str, link: &str) -> (entry: Entry)
        ensures
            entry@ == catalog_entry(title@, link@),
    {
        let mut id = "root".to_owned();
        id.append(replace_char(link, '/', ':').as_str());
        Entry {
            id,
            title: title.to_owned(),
            href: link.to_owned(),
            htype: "application/atom+xml;profile=opds-catalog".to_owned(),
        }
    }

    /// An entry that leads to a book.
    pub fn book(title: &str, link: &str) -> (entry: Entry)
        ensures
            entry@ == book_entry(title@, link@),
    {
        let mut id = "root".to_owned();
        id.append(replace_char(link, '/', ':').as_str());
        Entry {
            id,
            title: title.to_owned(),
            href: link.to_owned(),
            htype: "application/fb2+zip".to_owned(),
        }
    }
}

/// A titled list of entries.
#[derive(Debug)]
pub struct Feed {
    pub title: String,
    pub entries: Vec<Entry>,
}

/// A feed, over texts.
pub struct FeedView {
    pub title: Seq<char>,
    pub entries: Seq<EntryView>,
}

impl View for Feed {
    type V = FeedView;

    open spec fn view(&self) -> FeedView {
        FeedView { title: self.title@, entries: self.entries@.map_values(|e: Entry| e@) }
    }
}

impl Feed {
    /// A feed of this title, without entries.
    pub fn new(title: &str) -> (feed: Feed)
        ensures
            feed@.title == title@,
            feed@.entries == Seq::<EntryView>::empty(),
    {
        Feed { title: title.to_owned(), entries: Vec::new() }
    }

    /// Appends an entry that leads to a further catalogue.
    pub fn add(&mut self, title: &str, link: &str)
        ensures
            final(self)@.title == old(self)@.title,
            final(self)@.entries == old(self)@.entries.push(catalog_entry(title@, link@)),
    {
        let entry = Entry::catalog(title, link);
        self.entries.push(entry);
    }

    /// Appends an entry that leads to a book.
    pub fn book(&mut self, title: &str, link: &str)
        ensures
            final(self)@.title == old(self)@.title,
            final(self)@.entries == old(self)@.entries.push(book_entry(title@, link@)),
    {
        let entry = Entry::book(title, link);
        self.entries.push(entry);
    }
}

} // verus!

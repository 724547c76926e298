//! Feeds made of what the catalogue holds: lists of prefixes to narrow a
//! search, and lists of authors, series, genres and books.

use crate::codec::{encode, url_safe_base64};
use crate::collation::{catalogue_order, names_of, sorted};
use crate::database::{Author, BookDesc, BookSerie, Serie, Value};
use crate::listing::{key_ordered, key_ordered_is, lines_of, sort_lines, KeyView, SortKey};
use crate::opds::{book_entry, catalog_entry, Entry, EntryView, Feed};
use crate::text::{decimal, decimal_string};
use vstd::prelude::*;
use vstd::string::StringExecFns;

verus! {

/// What an entry is made from: the text to show, and the link as a root
/// and a path below it.
#[derive(Debug, PartialEq)]
pub struct FeedSrc {
    pub label: String,
    pub root: String,
    pub path: String,
}

impl FeedSrc {
    pub fn new(label: &str, root: &str, path: &str) -> (src: FeedSrc)
        ensures
            src.label@ == label@,
            src.root@ == root@,
            src.path@ == path@,
    {
        FeedSrc { label: label.to_owned(), root: root.to_owned(), path: path.to_owned() }
    }
}

/// The text shown for a prefix: the prefix and three dots.
pub open spec fn label_of(content: Seq<char>) -> Seq<char> {
    content + "..."@
}

/// The link to what lies below `root` under `content`: the root, a slash,
/// and the content in URL-safe base64.
pub open spec fn link_of(root: Seq<char>, content: Seq<char>) -> Seq<char> {
    root + "/"@ + url_safe_base64(content)
}

/// The entry that leads on from a prefix.
pub open spec fn prefix_entry(root: Seq<char>, content: Seq<char>) -> EntryView {
    catalog_entry(label_of(content), link_of(root, content))
}

/// The text shown for a prefix.
pub fn href_label(content: &String) -> (label: String)
    ensures
        label@ == label_of(content@),
{
    let mut label = content.clone();
    label.append("...");
    label
}

/// The link below `root` to the part of this name: the root, a slash, and
/// the name.
pub fn link_below(root: &String, part: &str) -> (link: String)
    ensures
        link@ == root@ + "/"@ + part@,
{
    let mut link = root.clone();
    link.append("/");
    link.append(part);
    link
}

/// The link to what lies below `root` under `content`.
pub fn href_link(root: &String, content: &String) -> (link: String)
    ensures
        link@ == link_of(root@, content@),
{
    link_below(root, encode(content.as_str()).as_str())
}

/// Appends the entry made from `src`.
pub fn add_to_feed(src: FeedSrc, feed: &mut Feed)
    ensures
        final(feed)@.title == old(feed)@.title,
        final(feed)@.entries == old(feed)@.entries.push(
            catalog_entry(label_of(src.label@), link_of(src.root@, src.path@)),
        ),
{
    let label = href_label(&src.label);
    let link = href_link(&src.root, &src.path);
    feed.add(label.as_str(), link.as_str());
}

/// The test for a line that holds something.
pub open spec fn not_empty() -> spec_fn(Seq<char>) -> bool {
    |line: Seq<char>| line.len() > 0
}

/// The entries for the given lines: one for each line that is not empty,
/// in catalogue order.
pub open spec fn prefix_entries(lines: Seq<Seq<char>>, root: Seq<char>) -> Seq<EntryView> {
    catalogue_order(lines).filter(not_empty()).map_values(
        |line: Seq<char>| prefix_entry(root, line),
    )
}

/// Appends an entry for each of the lines that is not empty, in catalogue
/// order.
pub fn fill_feed_from(lines: Vec<String>, root: String, feed: &mut Feed)
    ensures
        final(feed)@.title == old(feed)@.title,
        final(feed)@.entries == old(feed)@.entries + prefix_entries(names_of(lines@), root@),
{
    let listed = sorted(lines);
    let ghost all = names_of(listed@);
    let ghost start = feed@.entries;
    let n = listed.len();
    let mut i: usize = 0;
    proof {
        reveal(Seq::filter);
        assert(all.take(0) =~= Seq::<Seq<char>>::empty());
        assert(feed@.entries =~= start + prefix_entries_of(all.take(0), root@));
    }
    while i < n
        invariant
            n == listed@.len(),
            i <= n,
            all == names_of(listed@),
            feed@.title == old(feed)@.title,
            feed@.entries == start + prefix_entries_of(all.take(i as int), root@),
        decreases n - i,
    {
        let line = &listed[i];
        let ghost before = feed@.entries;
        proof {
            reveal(Seq::filter);
            assert(all.take(i + 1).drop_last() =~= all.take(i as int));
            assert(all.take(i + 1).last() == line@);
        }
        if !line.as_str().is_empty() {
            let label = href_label(line);
            let link = href_link(&root, line);
            feed.add(label.as_str(), link.as_str());
            proof {
                let kept = all.take(i as int).filter(not_empty());
                assert(all.take(i + 1).filter(not_empty()) == kept.push(line@));
                assert(prefix_entries_of(all.take(i + 1), root@) =~= prefix_entries_of(
                    all.take(i as int),
                    root@,
                ).push(prefix_entry(root@, line@)));
            }
        }
        i = i + 1;
    }
    proof {
        assert(all.take(n as int) =~= all);
    }
}

/// The entries for the lines that are not empty, in the order of the lines.
pub open spec fn prefix_entries_of(lines: Seq<Seq<char>>, root: Seq<char>) -> Seq<EntryView> {
    lines.filter(not_empty()).map_values(|line: Seq<char>| prefix_entry(root, line))
}

/// The feed of a title with an entry for each of the lines; a failure to
/// get the lines is handed on.
pub fn make_feed_from<E>(lines: Result<Vec<String>, E>, title: String, root: String) -> (made: Result<
    Feed,
    E,
>)
    ensures
        match (lines, made) {
            (Ok(lines), Ok(feed)) => feed@.title == title@ && feed@.entries == prefix_entries(
                names_of(lines@),
                root@,
            ),
            (Err(failure), Err(handed)) => handed == failure,
            _ => false,
        },
{
    let mut feed = Feed::new(title.as_str());
    match lines {
        Ok(lines) => {
            fill_feed_from(lines, root, &mut feed);
            Ok(feed)
        },
        Err(failure) => Err(failure),
    }
}

/// What the lines show, without their keys.
pub open spec fn entries_of(lines: Seq<(KeyView, EntryView)>) -> Seq<EntryView> {
    lines.map_values(|line: (KeyView, EntryView)| line.1)
}

/// The entries of the lines in the order of their keys, those of the same
/// key in the order given.
pub open spec fn listed(lines: Seq<(KeyView, EntryView)>) -> Seq<EntryView> {
    entries_of(key_ordered(lines))
}

/// Appends the entries of the lines, in the order given.
fn append_lines(feed: &mut Feed, lines: Vec<(SortKey, Entry)>)
    ensures
        final(feed)@.title == old(feed)@.title,
        final(feed)@.entries == old(feed)@.entries + entries_of(lines_of(lines@)),
{
    let ghost start = feed@.entries;
    let ghost all = entries_of(lines_of(lines@));
    proof {
        assert(feed@.entries =~= start + all.take(0));
    }
    for line in it: lines
        invariant
            it.seq() == lines@,
            all == entries_of(lines_of(lines@)),
            feed@.title == old(feed)@.title,
            feed@.entries == start + all.take(it.index() as int),
    {
        let ghost before = feed@.entries;
        let (_, entry) = line;
        feed.entries.push(entry);
        proof {
            let i = it.index() as int;
            assert(all[i] == entry@);
            assert(all.take(i + 1) =~= all.take(i).push(entry@));
            assert(feed@.entries =~= before.push(entry@));
        }
    }
    proof {
        assert(all.take(all.len() as int) =~= all);
    }
}

/// Appends the entries of the lines in the order of their keys.
fn list_by_key(feed: &mut Feed, lines: Vec<(SortKey, Entry)>)
    ensures
        final(feed)@.title == old(feed)@.title,
        final(feed)@.entries == old(feed)@.entries + listed(lines_of(lines@)),
{
    let mut lines = lines;
    let ghost given = lines_of(lines@);
    sort_lines(&mut lines);
    proof {
        key_ordered_is(given, lines_of(lines@));
    }
    append_lines(feed, lines);
}

/// The text shown for an author: last, first and middle name.
pub open spec fn author_title(author: Author) -> Seq<char> {
    author.last_name.value@ + " "@ + author.first_name.value@ + " "@ + author.middle_name.value@
}

/// The link to an author, by the ids of the first, middle and last name.
pub open spec fn author_link(first: u32, middle: u32, last: u32) -> Seq<char> {
    "/opds/author/id/"@ + decimal(first as nat) + "/"@ + decimal(middle as nat) + "/"@ + decimal(
        last as nat,
    )
}

/// The entry that leads to an author.
pub open spec fn author_entry(author: Author) -> EntryView {
    catalog_entry(
        author_title(author),
        author_link(author.first_name.id, author.middle_name.id, author.last_name.id),
    )
}

/// The line of an author in a list of authors: listed by the first name.
pub open spec fn author_line(author: Author) -> (KeyView, EntryView) {
    (KeyView::Name(author.first_name.value@), author_entry(author))
}

/// The lines of the authors, in the order given.
pub open spec fn author_lines(authors: Seq<Author>) -> Seq<(KeyView, EntryView)> {
    authors.map_values(|author: Author| author_line(author))
}

fn author_link_text(first: u32, middle: u32, last: u32) -> (link: String)
    ensures
        link@ == author_link(first, middle, last),
{
    let mut link = "/opds/author/id/".to_owned();
    link.append(decimal_string(first).as_str());
    link.append("/");
    link.append(decimal_string(middle).as_str());
    link.append("/");
    link.append(decimal_string(last).as_str());
    link
}

fn author_entry_of(author: &Author) -> (entry: Entry)
    ensures
        entry@ == author_entry(*author),
{
    let mut title = author.last_name.value.clone();
    title.append(" ");
    title.append(author.first_name.value.as_str());
    title.append(" ");
    title.append(author.middle_name.value.as_str());
    let link = author_link_text(author.first_name.id, author.middle_name.id, author.last_name.id);
    Entry::catalog(title.as_str(), link.as_str())
}

fn author_lines_of(authors: &Vec<Author>) -> (lines: Vec<(SortKey, Entry)>)
    ensures
        lines_of(lines@) == author_lines(authors@),
{
    let mut lines: Vec<(SortKey, Entry)> = Vec::new();
    let n = authors.len();
    let mut i: usize = 0;
    proof {
        assert(lines_of(lines@) =~= author_lines(authors@.take(0)));
    }
    while i < n
        invariant
            n == authors@.len(),
            i <= n,
            lines_of(lines@) == author_lines(authors@.take(i as int)),
        decreases n - i,
    {
        let author = &authors[i];
        let ghost before = lines_of(lines@);
        lines.push((SortKey::Name(author.first_name.value.clone()), author_entry_of(author)));
        proof {
            assert(authors@.take(i + 1) =~= authors@.take(i as int).push(*author));
            assert(lines_of(lines@) =~= before.push(author_line(*author)));
            assert(author_lines(authors@.take(i + 1)) =~= author_lines(
                authors@.take(i as int),
            ).push(author_line(*author)));
        }
        i = i + 1;
    }
    proof {
        assert(authors@.take(n as int) =~= authors@);
    }
    lines
}

/// Appends an entry for each of the authors, in the catalogue order of
/// their first names.
pub fn add_authors(authors: Vec<Author>, feed: &mut Feed)
    ensures
        final(feed)@.title == old(feed)@.title,
        final(feed)@.entries == old(feed)@.entries + listed(author_lines(authors@)),
{
    let lines = author_lines_of(&authors);
    list_by_key(feed, lines);
}

/// The feed of the authors of a genre, in the catalogue order of their
/// first names.
pub fn root_opds_genres_authors(genre: &String, authors: Vec<Author>) -> (feed: Feed)
    ensures
        feed@.title == genre@,
        feed@.entries == listed(author_lines(authors@)),
{
    let mut feed = Feed::new(genre.as_str());
    add_authors(authors, &mut feed);
    feed
}

/// The feed of the authors whose books were taken of late, in the order
/// given.
pub fn root_opds_favorite_authors(authors: Vec<Author>) -> (feed: Feed)
    ensures
        feed@.title == "Favorites"@,
        feed@.entries == entries_of(author_lines(authors@)),
{
    let mut feed = Feed::new("Favorites");
    let lines = author_lines_of(&authors);
    append_lines(&mut feed, lines);
    proof {
        assert(feed@.entries =~= entries_of(author_lines(authors@)));
    }
    feed
}

/// The text shown for a series: its name and the number of its books.
pub open spec fn serie_title(serie: Serie) -> Seq<char> {
    serie.name@ + " ["@ + decimal(serie.count as nat) + " книг]"@
}

fn serie_title_text(serie: &Serie) -> (title: String)
    ensures
        title@ == serie_title(*serie),
{
    let mut title = serie.name.clone();
    title.append(" [");
    title.append(decimal_string(serie.count).as_str());
    title.append(" книг]");
    title
}

/// The link to the books of a series.
pub open spec fn serie_link(id: u32) -> Seq<char> {
    "/opds/serie/id/"@ + decimal(id as nat)
}

fn serie_link_text(id: u32) -> (link: String)
    ensures
        link@ == serie_link(id),
{
    let mut link = "/opds/serie/id/".to_owned();
    link.append(decimal_string(id).as_str());
    link
}

/// The link to the books of an author in a series.
pub open spec fn author_serie_link(ids: (u32, u32, u32), serie: u32) -> Seq<char> {
    "/opds/author/serie/books/"@ + decimal(ids.0 as nat) + "/"@ + decimal(ids.1 as nat) + "/"@
        + decimal(ids.2 as nat) + "/"@ + decimal(serie as nat)
}

fn author_serie_link_text(ids: (u32, u32, u32), serie: u32) -> (link: String)
    ensures
        link@ == author_serie_link(ids, serie),
{
    let mut link = "/opds/author/serie/books/".to_owned();
    link.append(decimal_string(ids.0).as_str());
    link.append("/");
    link.append(decimal_string(ids.1).as_str());
    link.append("/");
    link.append(decimal_string(ids.2).as_str());
    link.append("/");
    link.append(decimal_string(serie).as_str());
    link
}

/// The line of a series among those of an author: listed by its name.
pub open spec fn author_serie_line(ids: (u32, u32, u32)) -> spec_fn(Serie) -> (KeyView, EntryView) {
    |serie: Serie|
        (
            KeyView::Name(serie.name@),
            catalog_entry(serie_title(serie), author_serie_link(ids, serie.id)),
        )
}

/// The feed of the series of an author, in the catalogue order of their
/// names, with a last entry that leads back to the author.
pub fn root_opds_author_series(author: String, ids: (u32, u32, u32), series: Vec<Serie>) -> (feed:
    Feed)
    ensures
        feed@.title == author@,
        feed@.entries == listed(series@.map_values(author_serie_line(ids))).push(
            catalog_entry(author@, author_link(ids.0, ids.1, ids.2)),
        ),
{
    let mut feed = Feed::new(author.as_str());
    let ghost line = author_serie_line(ids);
    let mut lines: Vec<(SortKey, Entry)> = Vec::new();
    let n = series.len();
    let mut i: usize = 0;
    proof {
        assert(lines_of(lines@) =~= series@.take(0).map_values(line));
    }
    while i < n
        invariant
            n == series@.len(),
            i <= n,
            line == author_serie_line(ids),
            lines_of(lines@) == series@.take(i as int).map_values(line),
        decreases n - i,
    {
        let serie = &series[i];
        let ghost before = lines_of(lines@);
        let title = serie_title_text(serie);
        let link = author_serie_link_text(ids, serie.id);
        lines.push(
            (SortKey::Name(serie.name.clone()), Entry::catalog(title.as_str(), link.as_str())),
        );
        proof {
            assert(series@.take(i + 1) =~= series@.take(i as int).push(*serie));
            assert(lines_of(lines@) =~= before.push(line(*serie)));
            assert(series@.take(i + 1).map_values(line) =~= series@.take(i as int).map_values(
                line,
            ).push(line(*serie)));
        }
        i = i + 1;
    }
    proof {
        assert(series@.take(n as int) =~= series@);
    }
    list_by_key(&mut feed, lines);
    let link = author_link_text(ids.0, ids.1, ids.2);
    feed.add(author.as_str(), link.as_str());
    feed
}

/// The line of a series in a list of series: listed by its name.
pub open spec fn serie_line(serie: Serie) -> (KeyView, EntryView) {
    (KeyView::Name(serie.name@), catalog_entry(serie_title(serie), serie_link(serie.id)))
}

/// The lines of the series, in the order given.
pub open spec fn serie_lines(series: Seq<Serie>) -> Seq<(KeyView, EntryView)> {
    series.map_values(|serie: Serie| serie_line(serie))
}

/// The feed of the series of a genre, in the catalogue order of their
/// names.
pub fn root_opds_genres_series(genre: &String, series: Vec<Serie>) -> (feed: Feed)
    ensures
        feed@.title == genre@,
        feed@.entries == listed(serie_lines(series@)),
{
    let mut feed = Feed::new(genre.as_str());
    let mut lines: Vec<(SortKey, Entry)> = Vec::new();
    let n = series.len();
    let mut i: usize = 0;
    proof {
        assert(lines_of(lines@) =~= serie_lines(series@.take(0)));
    }
    while i < n
        invariant
            n == series@.len(),
            i <= n,
            lines_of(lines@) == serie_lines(series@.take(i as int)),
        decreases n - i,
    {
        let serie = &series[i];
        let ghost before = lines_of(lines@);
        let title = serie_title_text(serie);
        let link = serie_link_text(serie.id);
        lines.push(
            (SortKey::Name(serie.name.clone()), Entry::catalog(title.as_str(), link.as_str())),
        );
        proof {
            assert(series@.take(i + 1) =~= series@.take(i as int).push(*serie));
            assert(lines_of(lines@) =~= before.push(serie_line(*serie)));
            assert(serie_lines(series@.take(i + 1)) =~= serie_lines(series@.take(i as int)).push(
                serie_line(*serie),
            ));
        }
        i = i + 1;
    }
    proof {
        assert(series@.take(n as int) =~= series@);
    }
    list_by_key(&mut feed, lines);
    feed
}

/// The line of a series found by its title: listed by the title.
pub open spec fn found_serie_line(value: Value) -> (KeyView, EntryView) {
    (KeyView::Name(value.value@), catalog_entry(value.value@, serie_link(value.id)))
}

/// The lines of the series found, in the order given.
pub open spec fn found_serie_lines(values: Seq<Value>) -> Seq<(KeyView, EntryView)> {
    values.map_values(|value: Value| found_serie_line(value))
}

/// Appends an entry for each of the series, in the catalogue order of their
/// titles.
pub fn add_series(values: Vec<Value>, feed: &mut Feed)
    ensures
        final(feed)@.title == old(feed)@.title,
        final(feed)@.entries == old(feed)@.entries + listed(found_serie_lines(values@)),
{
    let mut lines: Vec<(SortKey, Entry)> = Vec::new();
    let n = values.len();
    let mut i: usize = 0;
    proof {
        assert(lines_of(lines@) =~= found_serie_lines(values@.take(0)));
    }
    while i < n
        invariant
            n == values@.len(),
            i <= n,
            lines_of(lines@) == found_serie_lines(values@.take(i as int)),
        decreases n - i,
    {
        let value = &values[i];
        let ghost before = lines_of(lines@);
        let link = serie_link_text(value.id);
        lines.push(
            (
                SortKey::Name(value.value.clone()),
                Entry::catalog(value.value.as_str(), link.as_str()),
            ),
        );
        proof {
            assert(values@.take(i + 1) =~= values@.take(i as int).push(*value));
            assert(lines_of(lines@) =~= before.push(found_serie_line(*value)));
            assert(found_serie_lines(values@.take(i + 1)) =~= found_serie_lines(
                values@.take(i as int),
            ).push(found_serie_line(*value)));
        }
        i = i + 1;
    }
    proof {
        assert(values@.take(n as int) =~= values@);
    }
    list_by_key(feed, lines);
}

/// The entry for a genre below `root`: the genre, and the root, a slash and
/// the genre as its link.
pub open spec fn genre_entry(root: Seq<char>) -> spec_fn(Seq<char>) -> EntryView {
    |genre: Seq<char>| catalog_entry(genre, root + "/"@ + genre)
}

/// The feed of the groups of genres, in the order given.
pub fn root_opds_meta(title: &String, root: &String, genres: Vec<String>) -> (feed: Feed)
    ensures
        feed@.title == title@,
        feed@.entries == names_of(genres@).map_values(genre_entry(root@)),
{
    let mut feed = Feed::new(title.as_str());
    let ghost entry = genre_entry(root@);
    let ghost all = names_of(genres@);
    let n = genres.len();
    let mut i: usize = 0;
    proof {
        assert(feed@.entries =~= all.take(0).map_values(entry));
    }
    while i < n
        invariant
            n == genres@.len(),
            i <= n,
            all == names_of(genres@),
            entry == genre_entry(root@),
            feed@.title == title@,
            feed@.entries == all.take(i as int).map_values(entry),
        decreases n - i,
    {
        let genre = &genres[i];
        let mut link = root.clone();
        link.append("/");
        link.append(genre.as_str());
        feed.add(genre.as_str(), link.as_str());
        proof {
            assert(all.take(i + 1) =~= all.take(i as int).push(genre@));
            assert(all.take(i + 1).map_values(entry) =~= all.take(i as int).map_values(entry).push(
                entry(genre@),
            ));
        }
        i = i + 1;
    }
    proof {
        assert(all.take(n as int) =~= all);
    }
    feed
}

/// The feed of the genres of a group, in the order given.
pub fn root_opds_genres_meta(title: &String, root: &String, genres: Vec<String>) -> (feed: Feed)
    ensures
        feed@.title == title@,
        feed@.entries == names_of(genres@).map_values(genre_entry(root@)),
{
    root_opds_meta(title, root, genres)
}

/// How the books of an author are chosen and listed.
#[derive(Debug, Clone, Copy)]
pub enum Sort {
    /// The books of one series, in the order given.
    BySerie(u32),
    /// The books outside any series, by name.
    NoSerie,
    /// The books of one genre: none are listed.
    ByGenre(u32),
    /// All books, by name.
    Alphabet,
    /// All books, the latest first.
    Added,
}

/// The link to a book.
pub open spec fn book_link(id: u32) -> Seq<char> {
    "/opds/book/"@ + decimal(id as nat)
}

fn book_link_text(id: u32) -> (link: String)
    ensures
        link@ == book_link(id),
{
    let mut link = "/opds/book/".to_owned();
    link.append(decimal_string(id).as_str());
    link
}

/// The text shown for a book of an author: its name and date, behind its
/// number where the books of a series are listed.
pub open spec fn author_book_title(sort: Sort, book: BookDesc) -> Seq<char> {
    if sort is BySerie {
        decimal(book.num as nat) + " - "@ + book.name@ + " ("@ + book.date@ + ")"@
    } else {
        book.name@ + " ("@ + book.date@ + ")"@
    }
}

/// What a book of an author is listed by: its date where the latest come
/// first, else its name.
pub open spec fn author_book_key(sort: Sort, book: BookDesc) -> KeyView {
    if sort is Added {
        KeyView::Latest(book.date@)
    } else {
        KeyView::Name(book.name@)
    }
}

/// The line of a book of an author.
pub open spec fn author_book_line(sort: Sort) -> spec_fn(BookDesc) -> (KeyView, EntryView) {
    |book: BookDesc|
        (author_book_key(sort, book), book_entry(author_book_title(sort, book), book_link(book.id)))
}

/// The entries of the books of an author under `sort`: none for a genre,
/// the books as given for a series, else the books in the order of their
/// keys.
pub open spec fn lists_author_books(sort: Sort, books: Seq<BookDesc>, entries: Seq<EntryView>) -> bool {
    let lines = books.map_values(author_book_line(sort));
    match sort {
        Sort::ByGenre(_) => entries == Seq::<EntryView>::empty(),
        Sort::BySerie(_) => entries == entries_of(lines),
        _ => entries == listed(lines),
    }
}

/// The feed of the books of an author.
pub fn root_opds_author_books(books: Vec<BookDesc>, sort: Sort) -> (feed: Feed)
    ensures
        feed@.title == "Книги"@,
        lists_author_books(sort, books@, feed@.entries),
{
    let mut feed = Feed::new("Книги");
    if let Sort::ByGenre(_) = sort {
        return feed;
    }
    let ghost line = author_book_line(sort);
    let mut lines: Vec<(SortKey, Entry)> = Vec::new();
    let n = books.len();
    let mut i: usize = 0;
    proof {
        assert(lines_of(lines@) =~= books@.take(0).map_values(line));
    }
    while i < n
        invariant
            n == books@.len(),
            i <= n,
            line == author_book_line(sort),
            lines_of(lines@) == books@.take(i as int).map_values(line),
        decreases n - i,
    {
        let book = &books[i];
        let ghost before = lines_of(lines@);
        let mut title = String::new();
        if let Sort::BySerie(_) = sort {
            title.append(decimal_string(book.num).as_str());
            title.append(" - ");
        }
        title.append(book.name.as_str());
        title.append(" (");
        title.append(book.date.as_str());
        title.append(")");
        proof {
            assert(title@ =~= author_book_title(sort, *book));
        }
        let key = if let Sort::Added = sort {
            SortKey::Latest(book.date.clone())
        } else {
            SortKey::Name(book.name.clone())
        };
        let link = book_link_text(book.id);
        lines.push((key, Entry::book(title.as_str(), link.as_str())));
        proof {
            assert(books@.take(i + 1) =~= books@.take(i as int).push(*book));
            assert(lines_of(lines@) =~= before.push(line(*book)));
            assert(books@.take(i + 1).map_values(line) =~= books@.take(i as int).map_values(
                line,
            ).push(line(*book)));
        }
        i = i + 1;
    }
    proof {
        assert(books@.take(n as int) =~= books@);
    }
    if let Sort::BySerie(_) = sort {
        append_lines(&mut feed, lines);
        proof {
            assert(feed@.entries =~= entries_of(books@.map_values(line)));
        }
    } else {
        list_by_key(&mut feed, lines);
    }
    feed
}

/// The text shown for a book of a series.
pub open spec fn serie_book_title(book: BookSerie) -> Seq<char> {
    decimal(book.num as nat) + " "@ + book.name@ + " - "@ + book.author@ + " ("@ + book.date@
        + ")"@
}

/// What a book of a series is listed by: its number for "numbered", its
/// name for "alphabet", its date for "added"; the books stay as given for
/// any other word.
pub open spec fn serie_book_key(sort: Seq<char>, book: BookSerie) -> Option<KeyView> {
    if sort == "numbered"@ {
        Some(KeyView::Number(book.num))
    } else if sort == "alphabet"@ {
        Some(KeyView::Name(book.name@))
    } else if sort == "added"@ {
        Some(KeyView::Name(book.date@))
    } else {
        None
    }
}

/// The line of a book of a series.
pub open spec fn serie_book_line(sort: Seq<char>) -> spec_fn(BookSerie) -> (KeyView, EntryView) {
    |book: BookSerie|
        (
            match serie_book_key(sort, book) {
                Some(key) => key,
                None => KeyView::Number(0),
            },
            book_entry(serie_book_title(book), book_link(book.id)),
        )
}

/// Whether `sort` is one of the words that ask for an order.
pub open spec fn asks_for_order(sort: Seq<char>) -> bool {
    sort == "numbered"@ || sort == "alphabet"@ || sort == "added"@
}

/// The feed of the books of a series, in the order that `sort` asks for.
pub fn root_opds_serie_books(books: Vec<BookSerie>, sort: String) -> (feed: Feed)
    ensures
        feed@.title == "Книги в серии"@,
        asks_for_order(sort@) ==> feed@.entries == listed(
            books@.map_values(serie_book_line(sort@)),
        ),
        !asks_for_order(sort@) ==> feed@.entries == entries_of(
            books@.map_values(serie_book_line(sort@)),
        ),
{
    let mut feed = Feed::new("Книги в серии");
    let numbered = sort == "numbered".to_owned();
    let alphabet = sort == "alphabet".to_owned();
    let added = sort == "added".to_owned();
    let ghost line = serie_book_line(sort@);
    let mut lines: Vec<(SortKey, Entry)> = Vec::new();
    let n = books.len();
    let mut i: usize = 0;
    proof {
        assert(lines_of(lines@) =~= books@.take(0).map_values(line));
    }
    while i < n
        invariant
            n == books@.len(),
            i <= n,
            numbered == (sort@ == "numbered"@),
            alphabet == (sort@ == "alphabet"@),
            added == (sort@ == "added"@),
            line == serie_book_line(sort@),
            lines_of(lines@) == books@.take(i as int).map_values(line),
        decreases n - i,
    {
        let book = &books[i];
        let ghost before = lines_of(lines@);
        let mut title = decimal_string(book.num);
        title.append(" ");
        title.append(book.name.as_str());
        title.append(" - ");
        title.append(book.author.as_str());
        title.append(" (");
        title.append(book.date.as_str());
        title.append(")");
        let key = if numbered {
            SortKey::Number(book.num)
        } else if alphabet {
            SortKey::Name(book.name.clone())
        } else if added {
            SortKey::Name(book.date.clone())
        } else {
            SortKey::Number(0)
        };
        let link = book_link_text(book.id);
        lines.push((key, Entry::book(title.as_str(), link.as_str())));
        proof {
            assert(books@.take(i + 1) =~= books@.take(i as int).push(*book));
            assert(lines_of(lines@) =~= before.push(line(*book)));
            assert(books@.take(i + 1).map_values(line) =~= books@.take(i as int).map_values(
                line,
            ).push(line(*book)));
        }
        i = i + 1;
    }
    proof {
        assert(books@.take(n as int) =~= books@);
    }
    if numbered || alphabet || added {
        list_by_key(&mut feed, lines);
    } else {
        append_lines(&mut feed, lines);
        proof {
            assert(feed@.entries =~= entries_of(books@.map_values(line)));
        }
    }
    feed
}

} // verus!

//! The pages of the catalogue that are made of fixed entries and of what a
//! search found: the root, the lists of prefixes, and the menus of an author
//! and of a genre.

use crate::codec::{percent_encode, percent_encoded};
use crate::collation::names_of;
use crate::database::{Author, Value};
use crate::feeds::{author_link, author_title, label_of};
use crate::opds::{catalog_entry, EntryView, Feed};
use crate::text::{decimal, decimal_string, signed_decimal, signed_decimal_string, two_digit_string,
    two_digits};
use vstd::prelude::*;
use vstd::string::StringExecFns;

verus! {

/// The entries of the root of the catalogue.
pub open spec fn root_entries() -> Seq<EntryView> {
    seq![
        catalog_entry("Поиск по авторам"@, "/opds/authors"@),
        catalog_entry("Поиск по сериям"@, "/opds/series"@),
        catalog_entry("Поиск по жанрам"@, "/opds/genres"@),
        catalog_entry("Поиск по наименованиям"@, "/opds/titles"@),
        catalog_entry("Любимые авторы 10 дей"@, "/opds/authors/favorits/days/10"@),
        catalog_entry("Любимые авторы 30 дей "@, "/opds/authors/favorits/days/30"@),
        catalog_entry("Любимые авторы 90 дей "@, "/opds/authors/favorits/days/90"@),
    ]
}

/// The root of the catalogue.
pub fn root_feed() -> (feed: Feed)
    ensures
        feed@.title == "Каталог"@,
        feed@.entries == root_entries(),
{
    let mut feed = Feed::new("Каталог");
    feed.add("Поиск по авторам", "/opds/authors");
    feed.add("Поиск по сериям", "/opds/series");
    feed.add("Поиск по жанрам", "/opds/genres");
    feed.add("Поиск по наименованиям", "/opds/titles");
    feed.add("Любимые авторы 10 дей", "/opds/authors/favorits/days/10");
    feed.add("Любимые авторы 30 дей ", "/opds/authors/favorits/days/30");
    feed.add("Любимые авторы 90 дей ", "/opds/authors/favorits/days/90");
    proof {
        assert(feed@.entries =~= root_entries());
    }
    feed
}

/// The entry that leads back to the root.
pub open spec fn home_entry() -> EntryView {
    catalog_entry("[Home]"@, "/opds"@)
}

/// A feed of this title that begins with the entry back to the root.
pub fn page(title: &str) -> (feed: Feed)
    ensures
        feed@.title == title@,
        feed@.entries == seq![home_entry()],
{
    let mut feed = Feed::new(title);
    feed.add("[Home]", "/opds");
    proof {
        assert(feed@.entries =~= seq![home_entry()]);
    }
    feed
}

/// The entry that leads on from a prefix: the prefix and three dots, and
/// below `root` the prefix as it stands in a link.
pub open spec fn mask_entry(root: Seq<char>) -> spec_fn(Seq<char>) -> EntryView {
    |prefix: Seq<char>| catalog_entry(label_of(prefix), root + "/"@ + percent_encoded(prefix))
}

/// Appends an entry for each of the prefixes, in the order given.
pub fn add_prefixes(feed: &mut Feed, root: &str, prefixes: &Vec<String>)
    ensures
        final(feed)@.title == old(feed)@.title,
        final(feed)@.entries == old(feed)@.entries + names_of(prefixes@).map_values(
            mask_entry(root@),
        ),
{
    let ghost start = feed@.entries;
    let ghost all = names_of(prefixes@);
    let ghost entry = mask_entry(root@);
    let n = prefixes.len();
    let mut i: usize = 0;
    proof {
        assert(feed@.entries =~= start + all.take(0).map_values(entry));
    }
    while i < n
        invariant
            n == prefixes@.len(),
            i <= n,
            all == names_of(prefixes@),
            entry == mask_entry(root@),
            feed@.title == old(feed)@.title,
            feed@.entries == start + all.take(i as int).map_values(entry),
        decreases n - i,
    {
        let prefix = &prefixes[i];
        let mut title = prefix.clone();
        title.append("...");
        let mut link = root.to_owned();
        link.append("/");
        link.append(percent_encode(prefix.as_str()).as_str());
        feed.add(title.as_str(), link.as_str());
        proof {
            assert(all.take(i + 1) =~= all.take(i as int).push(prefix@));
            assert(all.take(i + 1).map_values(entry) =~= all.take(i as int).map_values(entry).push(
                entry(prefix@),
            ));
        }
        i = i + 1;
    }
    proof {
        assert(all.take(n as int) =~= all);
    }
}

/// The entry of an author that a search has found: the name in brackets.
pub open spec fn found_author_entry(author: Author) -> EntryView {
    catalog_entry(
        "["@ + author_title(author) + "]"@,
        author_link(author.first_name.id, author.middle_name.id, author.last_name.id),
    )
}

/// Appends an entry for each of the authors that a search has found, in the
/// order given.
pub fn add_found_authors(feed: &mut Feed, authors: &Vec<Author>)
    ensures
        final(feed)@.title == old(feed)@.title,
        final(feed)@.entries == old(feed)@.entries + authors@.map_values(
            |author: Author| found_author_entry(author),
        ),
{
    let ghost start = feed@.entries;
    let ghost entry = |author: Author| found_author_entry(author);
    let n = authors.len();
    let mut i: usize = 0;
    proof {
        assert(feed@.entries =~= start + authors@.take(0).map_values(entry));
    }
    while i < n
        invariant
            n == authors@.len(),
            i <= n,
            entry == |author: Author| found_author_entry(author),
            feed@.title == old(feed)@.title,
            feed@.entries == start + authors@.take(i as int).map_values(entry),
        decreases n - i,
    {
        let author = &authors[i];
        let mut title = "[".to_owned();
        title.append(author.last_name.value.as_str());
        title.append(" ");
        title.append(author.first_name.value.as_str());
        title.append(" ");
        title.append(author.middle_name.value.as_str());
        title.append("]");
        let mut link = "/opds/author/id/".to_owned();
        link.append(decimal_string(author.first_name.id).as_str());
        link.append("/");
        link.append(decimal_string(author.middle_name.id).as_str());
        link.append("/");
        link.append(decimal_string(author.last_name.id).as_str());
        proof {
            assert(title@ =~= "["@ + author_title(*author) + "]"@);
        }
        feed.add(title.as_str(), link.as_str());
        proof {
            assert(authors@.take(i + 1) =~= authors@.take(i as int).push(*author));
            assert(authors@.take(i + 1).map_values(entry) =~= authors@.take(i as int).map_values(
                entry,
            ).push(entry(*author)));
        }
        i = i + 1;
    }
    proof {
        assert(authors@.take(n as int) =~= authors@);
    }
}

/// The entry of a text with its id: the text in brackets where `bracketed`,
/// and `root` with the id behind it as the link.
pub open spec fn value_entry(root: Seq<char>, bracketed: bool) -> spec_fn(Value) -> EntryView {
    |value: Value|
        catalog_entry(
            if bracketed {
                "["@ + value.value@ + "]"@
            } else {
                value.value@
            },
            root + decimal(value.id as nat),
        )
}

/// Appends an entry for each of the values, in the order given.
pub fn add_values(feed: &mut Feed, root: &str, bracketed: bool, values: &Vec<Value>)
    ensures
        final(feed)@.title == old(feed)@.title,
        final(feed)@.entries == old(feed)@.entries + values@.map_values(
            value_entry(root@, bracketed),
        ),
{
    let ghost start = feed@.entries;
    let ghost entry = value_entry(root@, bracketed);
    let n = values.len();
    let mut i: usize = 0;
    proof {
        assert(feed@.entries =~= start + values@.take(0).map_values(entry));
    }
    while i < n
        invariant
            n == values@.len(),
            i <= n,
            entry == value_entry(root@, bracketed),
            feed@.title == old(feed)@.title,
            feed@.entries == start + values@.take(i as int).map_values(entry),
        decreases n - i,
    {
        let value = &values[i];
        let mut title = String::new();
        if bracketed {
            title.append("[");
            title.append(value.value.as_str());
            title.append("]");
        } else {
            title.append(value.value.as_str());
        }
        let mut link = root.to_owned();
        link.append(decimal_string(value.id).as_str());
        proof {
            assert(title@ =~= entry(*value).title);
        }
        feed.add(title.as_str(), link.as_str());
        proof {
            assert(values@.take(i + 1) =~= values@.take(i as int).push(*value));
            assert(values@.take(i + 1).map_values(entry) =~= values@.take(i as int).map_values(
                entry,
            ).push(entry(*value)));
        }
        i = i + 1;
    }
    proof {
        assert(values@.take(n as int) =~= values@);
    }
}

/// The ids of an author as they stand in a link.
pub open spec fn ids_path(ids: (u32, u32, u32)) -> Seq<char> {
    decimal(ids.0 as nat) + "/"@ + decimal(ids.1 as nat) + "/"@ + decimal(ids.2 as nat)
}

fn ids_path_text(ids: (u32, u32, u32)) -> (path: String)
    ensures
        path@ == ids_path(ids),
{
    let mut path = decimal_string(ids.0);
    path.append("/");
    path.append(decimal_string(ids.1).as_str());
    path.append("/");
    path.append(decimal_string(ids.2).as_str());
    path
}

/// The entries of the menu of an author.
pub open spec fn author_menu_entries(ids: (u32, u32, u32)) -> Seq<EntryView> {
    seq![
        catalog_entry("Cерии"@, "/opds/series/author/"@ + ids_path(ids)),
        catalog_entry("Книги без серий"@, "/opds/books/author/nonserie/"@ + ids_path(ids)),
        catalog_entry("Книги жанрам"@, "/opds/books/author/genre/"@ + ids_path(ids)),
        catalog_entry("Книги алфавиту"@, "/opds/books/author/alphabet/"@ + ids_path(ids)),
        catalog_entry("Книги по дате"@, "/opds/books/author/added/"@ + ids_path(ids)),
    ]
}

fn add_below(feed: &mut Feed, title: &str, root: &str, path: &str)
    ensures
        final(feed)@.title == old(feed)@.title,
        final(feed)@.entries == old(feed)@.entries.push(catalog_entry(title@, root@ + path@)),
{
    let mut link = root.to_owned();
    link.append(path);
    feed.add(title, link.as_str());
}

/// The menu of an author: the ways to list the author's books.
pub fn author_menu(ids: (u32, u32, u32)) -> (feed: Feed)
    ensures
        feed@.title == "Книги автора"@,
        feed@.entries == author_menu_entries(ids),
{
    let path = ids_path_text(ids);
    let mut feed = Feed::new("Книги автора");
    add_below(&mut feed, "Cерии", "/opds/series/author/", path.as_str());
    add_below(&mut feed, "Книги без серий", "/opds/books/author/nonserie/", path.as_str());
    add_below(&mut feed, "Книги жанрам", "/opds/books/author/genre/", path.as_str());
    add_below(&mut feed, "Книги алфавиту", "/opds/books/author/alphabet/", path.as_str());
    add_below(&mut feed, "Книги по дате", "/opds/books/author/added/", path.as_str());
    proof {
        assert(feed@.entries =~= author_menu_entries(ids));
    }
    feed
}

/// The entry that leads back to an author.
pub open spec fn back_to_author(ids: (u32, u32, u32)) -> EntryView {
    catalog_entry("Вернуться к автору"@, author_link(ids.0, ids.1, ids.2))
}

/// Where a list of an author's series or books has come out empty, appends
/// the entry that leads back to the author.
pub fn add_way_back(feed: &mut Feed, ids: (u32, u32, u32), found: usize)
    ensures
        final(feed)@.title == old(feed)@.title,
        found == 0 ==> final(feed)@.entries == old(feed)@.entries.push(back_to_author(ids)),
        found != 0 ==> final(feed)@.entries == old(feed)@.entries,
{
    if found == 0 {
        add_below(feed, "Вернуться к автору", "/opds/author/id/", ids_path_text(ids).as_str());
        proof {
            assert("/opds/author/id/"@ + ids_path(ids) =~= author_link(ids.0, ids.1, ids.2));
        }
    }
}

/// A month of a year, with the name of the month.
pub struct Month {
    pub year: i32,
    pub month: u32,
    pub name: String,
}

/// The entry that leads to the books of a genre that came in a month.
pub open spec fn month_entry(genre: u32) -> spec_fn(Month) -> EntryView {
    |month: Month|
        catalog_entry(
            "Книги за "@ + signed_decimal(month.year as int) + " "@ + month.name@ + " "@,
            "/opds/books/genre/id/"@ + decimal(genre as nat) + "/year/"@ + signed_decimal(
                month.year as int,
            ) + "/month/"@ + decimal(month.month as nat),
        )
}

/// The fixed entries of the menu of a genre.
pub open spec fn genre_menu_head(genre: u32) -> Seq<EntryView> {
    seq![
        home_entry(),
        catalog_entry("Список авторов"@, "/opds/authors/genre/"@ + decimal(genre as nat)),
        catalog_entry("Список серий"@, "/opds/series/genre/"@ + decimal(genre as nat)),
    ]
}

/// The menu of a genre: its authors, its series, and its books month by
/// month, for the months given.
pub fn genre_menu(genre: u32, months: &Vec<Month>) -> (feed: Feed)
    ensures
        feed@.title == "Книги по жанру"@,
        feed@.entries == genre_menu_head(genre) + months@.map_values(month_entry(genre)),
{
    let id = decimal_string(genre);
    let mut feed = page("Книги по жанру");
    add_below(&mut feed, "Список авторов", "/opds/authors/genre/", id.as_str());
    add_below(&mut feed, "Список серий", "/opds/series/genre/", id.as_str());
    let ghost start = feed@.entries;
    let ghost entry = month_entry(genre);
    let n = months.len();
    let mut i: usize = 0;
    proof {
        assert(start =~= genre_menu_head(genre));
        assert(feed@.entries =~= start + months@.take(0).map_values(entry));
    }
    while i < n
        invariant
            n == months@.len(),
            i <= n,
            id@ == decimal(genre as nat),
            entry == month_entry(genre),
            feed@.title == "Книги по жанру"@,
            feed@.entries == start + months@.take(i as int).map_values(entry),
        decreases n - i,
    {
        let month = &months[i];
        let year = signed_decimal_string(month.year);
        let mut title = "Книги за ".to_owned();
        title.append(year.as_str());
        title.append(" ");
        title.append(month.name.as_str());
        title.append(" ");
        let mut link = "/opds/books/genre/id/".to_owned();
        link.append(id.as_str());
        link.append("/year/");
        link.append(year.as_str());
        link.append("/month/");
        link.append(decimal_string(month.month).as_str());
        feed.add(title.as_str(), link.as_str());
        proof {
            assert(months@.take(i + 1) =~= months@.take(i as int).push(*month));
            assert(months@.take(i + 1).map_values(entry) =~= months@.take(i as int).map_values(
                entry,
            ).push(entry(*month)));
        }
        i = i + 1;
    }
    proof {
        assert(months@.take(n as int) =~= months@);
    }
    feed
}

/// The pattern for the dates of a month: the year, the month in two digits,
/// and any day.
pub fn month_mask(year: u16, month: u8) -> (mask: String)
    ensures
        mask@ == decimal(year as nat) + "-"@ + two_digits(month as nat) + "-%"@,
{
    let mut mask = decimal_string(year as u32);
    mask.append("-");
    mask.append(two_digit_string(month as u32).as_str());
    mask.append("-%");
    mask
}

/// The entry of a group of genres: the group, and its name as it stands in
/// a link.
pub open spec fn meta_entry() -> spec_fn(Seq<char>) -> EntryView {
    |meta: Seq<char>| catalog_entry(meta, "/opds/genres/meta/"@ + percent_encoded(meta))
}

/// Appends an entry for each of the groups of genres, in the order given.
pub fn add_metas(feed: &mut Feed, metas: &Vec<String>)
    ensures
        final(feed)@.title == old(feed)@.title,
        final(feed)@.entries == old(feed)@.entries + names_of(metas@).map_values(meta_entry()),
{
    let ghost start = feed@.entries;
    let ghost all = names_of(metas@);
    let ghost entry = meta_entry();
    let n = metas.len();
    let mut i: usize = 0;
    proof {
        assert(feed@.entries =~= start + all.take(0).map_values(entry));
    }
    while i < n
        invariant
            n == metas@.len(),
            i <= n,
            all == names_of(metas@),
            entry == meta_entry(),
            feed@.title == old(feed)@.title,
            feed@.entries == start + all.take(i as int).map_values(entry),
        decreases n - i,
    {
        let meta = &metas[i];
        add_below(feed, meta.as_str(), "/opds/genres/meta/", percent_encode(meta.as_str()).as_str());
        proof {
            assert(all.take(i + 1) =~= all.take(i as int).push(meta@));
            assert(all.take(i + 1).map_values(entry) =~= all.take(i as int).map_values(entry).push(
                entry(meta@),
            ));
        }
        i = i + 1;
    }
    proof {
        assert(all.take(n as int) =~= all);
    }
}

} // verus!

//! The records of the library's catalogue, and the queries that fetch them
//! from a database of the lib.rus.ec layout.

use crate::text::{decimal, decimal_string};
use vstd::prelude::*;
use vstd::string::StringExecFns;

verus! {

/// The layout of tables that the queries of this module are written for.
pub struct LibRusEc;

/// A query, as the text that a database of the layout `Item` takes.
pub trait QueryProvider {
    type Item;

    /// The text of the query, over the values that it holds.
    spec fn sql(&self) -> Seq<char>;

    /// The text of the query.
    fn query(&self) -> (text: String)
        ensures
            text@ == self.sql(),
    ;
}

pub const AUTHORS_NAME_STARTS_WITH: &'static str = "SELECT DISTINCT substr(value, 1, $1) AS name FROM last_names WHERE value LIKE $2 || '%'";

/// The prefixes of a given length (`$1`) of the surnames that begin with a
/// prefix (`$2`).
pub struct AuthorsNameStartsWith;

impl AuthorsNameStartsWith {
    pub fn new() -> Self {
        Self
    }
}

impl QueryProvider for AuthorsNameStartsWith {
    type Item = LibRusEc;

    open spec fn sql(&self) -> Seq<char> {
        AUTHORS_NAME_STARTS_WITH@
    }

    fn query(&self) -> (text: String) {
        AUTHORS_NAME_STARTS_WITH.to_owned()
    }
}

pub const SERIES_NAME_STARTS_WITH: &'static str = "SELECT DISTINCT substr(value, 1, $1) AS name FROM series WHERE value LIKE $2 || '%'";

/// The prefixes of a given length (`$1`) of the titles of the series that
/// begin with a prefix (`$2`).
pub struct SeriesNameStartsWith;

impl SeriesNameStartsWith {
    pub fn new() -> Self {
        Self
    }
}

impl QueryProvider for SeriesNameStartsWith {
    type Item = LibRusEc;

    open spec fn sql(&self) -> Seq<char> {
        SERIES_NAME_STARTS_WITH@
    }

    fn query(&self) -> (text: String) {
        SERIES_NAME_STARTS_WITH.to_owned()
    }
}

pub const AUTHORS_BY_LAST_NAME_HEAD: &'static str = r#"
            SELECT DISTINCT
    	        first_names.id AS first_id,
                middle_names.id AS middle_id,
                last_names.id AS last_id,
                first_names.value AS first_name,
                middle_names.value AS middle_name,
                last_names.value AS last_name
            FROM authors_map, first_names, middle_names, last_names
            WHERE
                last_names.id = (SELECT id FROM last_names WHERE value = '"#;

pub const AUTHORS_BY_LAST_NAME_TAIL: &'static str = r#"')
	        AND first_names.id = first_name_id
	        AND middle_names.id = middle_name_id
	        AND last_names.id = last_name_id
        "#;

/// The authors of a surname, each with the ids and texts of the three parts
/// of the name.
pub struct AuthorsByLastName {
    name: String,
}

impl AuthorsByLastName {
    /// The name that the query asks for.
    pub closed spec fn name(&self) -> Seq<char> {
        self.name@
    }

    pub fn new(name: &String) -> (query: Self)
        ensures
            query.name() == name@,
    {
        Self { name: name.clone() }
    }
}

impl QueryProvider for AuthorsByLastName {
    type Item = LibRusEc;

    open spec fn sql(&self) -> Seq<char> {
        AUTHORS_BY_LAST_NAME_HEAD@ + self.name() + AUTHORS_BY_LAST_NAME_TAIL@
    }

    fn query(&self) -> (text: String) {
        let mut text = AUTHORS_BY_LAST_NAME_HEAD.to_owned();
        text.append(self.name.as_str());
        text.append(AUTHORS_BY_LAST_NAME_TAIL);
        text
    }
}

pub const SERIES_BY_NAME_HEAD: &'static str = "SELECT DISTINCT id, value FROM series WHERE value = '";

pub const SERIES_BY_NAME_TAIL: &'static str = "'";

/// The series of a title.
pub struct SeriesByName {
    name: String,
}

impl SeriesByName {
    /// The name that the query asks for.
    pub closed spec fn name(&self) -> Seq<char> {
        self.name@
    }

    pub fn new(name: &String) -> (query: Self)
        ensures
            query.name() == name@,
    {
        Self { name: name.clone() }
    }
}

impl QueryProvider for SeriesByName {
    type Item = LibRusEc;

    open spec fn sql(&self) -> Seq<char> {
        SERIES_BY_NAME_HEAD@ + self.name() + SERIES_BY_NAME_TAIL@
    }

    fn query(&self) -> (text: String) {
        let mut text = SERIES_BY_NAME_HEAD.to_owned();
        text.append(self.name.as_str());
        text.append(SERIES_BY_NAME_TAIL);
        text
    }
}

pub const GENRES_BY_META_HEAD: &'static str = "SELECT DISTINCT genre FROM genres_def WHERE meta = '";

pub const GENRES_BY_META_TAIL: &'static str = "' ORDER BY 1;";

/// The genres of a group of genres.
pub struct GenresByMeta {
    name: String,
}

impl GenresByMeta {
    /// The name that the query asks for.
    pub closed spec fn name(&self) -> Seq<char> {
        self.name@
    }

    pub fn new(name: &String) -> (query: Self)
        ensures
            query.name() == name@,
    {
        Self { name: name.clone() }
    }
}

impl QueryProvider for GenresByMeta {
    type Item = LibRusEc;

    open spec fn sql(&self) -> Seq<char> {
        GENRES_BY_META_HEAD@ + self.name() + GENRES_BY_META_TAIL@
    }

    fn query(&self) -> (text: String) {
        let mut text = GENRES_BY_META_HEAD.to_owned();
        text.append(self.name.as_str());
        text.append(GENRES_BY_META_TAIL);
        text
    }
}

pub const AUTHORS_NAME_BY_GENRE_STARTS_WITH_HEAD: &'static str = r#"
            SELECT DISTINCT substr(last_names.value, 1, $1) AS name
            FROM genres_def
            JOIN genres ON genres.value = genres_def.code
            JOIN genres_map ON genres_map.genre_id = genres.id
            JOIN authors_map ON authors_map.book_id = genres_map.book_id
            JOIN last_names ON last_names.id = authors_map.last_name_id
            WHERE genres_def.genre = '"#;

pub const AUTHORS_NAME_BY_GENRE_STARTS_WITH_TAIL: &'static str = r#"' AND last_names.value LIKE $2 || '%'
            "#;

/// The prefixes of a given length (`$1`) of the surnames that begin with a
/// prefix (`$2`), among the authors of a genre.
pub struct AuthorsNameByGenreStartsWith {
    pub genre_name: String,
}

impl AuthorsNameByGenreStartsWith {
    pub fn new(genre_name: &String) -> (query: Self)
        ensures
            query.genre_name@ == genre_name@,
    {
        Self { genre_name: genre_name.clone() }
    }
}

impl QueryProvider for AuthorsNameByGenreStartsWith {
    type Item = LibRusEc;

    open spec fn sql(&self) -> Seq<char> {
        AUTHORS_NAME_BY_GENRE_STARTS_WITH_HEAD@ + self.genre_name@ + AUTHORS_NAME_BY_GENRE_STARTS_WITH_TAIL@
    }

    fn query(&self) -> (text: String) {
        let mut text = AUTHORS_NAME_BY_GENRE_STARTS_WITH_HEAD.to_owned();
        text.append(self.genre_name.as_str());
        text.append(AUTHORS_NAME_BY_GENRE_STARTS_WITH_TAIL);
        text
    }
}

pub const SERIES_NAME_BY_GENRE_STARTS_WITH_HEAD: &'static str = r#"
            SELECT DISTINCT substr(series.value, 1, $1) AS name
            FROM genres_def
            JOIN genres ON genres.value = genres_def.code
            JOIN genres_map ON genres_map.genre_id = genres.id
            JOIN series_map ON genres_map.book_id = series_map.book_id
            JOIN series ON series.id = series_map.serie_id
            WHERE genres_def.genre = '"#;

pub const SERIES_NAME_BY_GENRE_STARTS_WITH_TAIL: &'static str = r#"' AND series.value LIKE $2 || '%'
            "#;

/// The prefixes of a given length (`$1`) of the titles that begin with a
/// prefix (`$2`), among the series of a genre.
pub struct SeriesNameByGenreStartsWith {
    pub genre_name: String,
}

impl SeriesNameByGenreStartsWith {
    pub fn new(genre_name: &String) -> (query: Self)
        ensures
            query.genre_name@ == genre_name@,
    {
        Self { genre_name: genre_name.clone() }
    }
}

impl QueryProvider for SeriesNameByGenreStartsWith {
    type Item = LibRusEc;

    open spec fn sql(&self) -> Seq<char> {
        SERIES_NAME_BY_GENRE_STARTS_WITH_HEAD@ + self.genre_name@ + SERIES_NAME_BY_GENRE_STARTS_WITH_TAIL@
    }

    fn query(&self) -> (text: String) {
        let mut text = SERIES_NAME_BY_GENRE_STARTS_WITH_HEAD.to_owned();
        text.append(self.genre_name.as_str());
        text.append(SERIES_NAME_BY_GENRE_STARTS_WITH_TAIL);
        text
    }
}

pub const BOOKS_BY_SERIE_ID_HEAD: &'static str = r#"
            SELECT
                books.book_id AS id,
                series_map.serie_num AS num,
                titles.value AS name,
                books.book_size AS size,
                dates.value AS added,
                first_names.value || ' ' || middle_names.value || ' ' || last_names.value AS author
            FROM series
            JOIN series_map ON series.id = series_map.serie_id
            JOIN books ON books.book_id = series_map.book_id
            JOIN titles ON titles.id = books.title_id
            JOIN dates ON books.date_id = dates.id
            JOIN authors_map ON authors_map.book_id = books.book_id
            JOIN first_names ON first_names.id = first_name_id
            JOIN middle_names ON middle_names.id = middle_name_id
            JOIN last_names ON last_names.id = last_name_id
            WHERE series.id = "#;

pub const BOOKS_BY_SERIE_ID_TAIL: &'static str = r#"
            "#;

/// The books of a series, each with its author.
pub struct BooksBySerieId {
    id: u32,
}

impl BooksBySerieId {
    /// The id of the series that the query asks for.
    pub closed spec fn id(&self) -> u32 {
        self.id
    }

    pub fn new(id: u32) -> (query: Self)
        ensures
            query.id() == id,
    {
        Self { id: id }
    }
}

impl QueryProvider for BooksBySerieId {
    type Item = LibRusEc;

    open spec fn sql(&self) -> Seq<char> {
        BOOKS_BY_SERIE_ID_HEAD@ + decimal(self.id() as nat) + BOOKS_BY_SERIE_ID_TAIL@
    }

    fn query(&self) -> (text: String) {
        let mut text = BOOKS_BY_SERIE_ID_HEAD.to_owned();
        text.append(decimal_string(self.id).as_str());
        text.append(BOOKS_BY_SERIE_ID_TAIL);
        text
    }
}

/// The ids of the three parts of an author's name.
#[derive(Debug, Clone, Copy, PartialEq, Eq, Structural)]
pub struct AuthorIds {
    first_name_id: u32,
    middle_name_id: u32,
    last_name_id: u32,
}

impl AuthorIds {
    /// The ids of the first, the middle and the last name.
    pub closed spec fn ids(self) -> (u32, u32, u32) {
        (self.first_name_id, self.middle_name_id, self.last_name_id)
    }
}

impl From<(u32, u32, u32)> for AuthorIds {
    fn from(args: (u32, u32, u32)) -> (ids: Self) {
        Self { first_name_id: args.0, middle_name_id: args.1, last_name_id: args.2 }
    }
}

impl vstd::std_specs::convert::FromSpecImpl<(u32, u32, u32)> for AuthorIds {
    open spec fn obeys_from_spec() -> bool {
        true
    }

    closed spec fn from_spec(args: (u32, u32, u32)) -> Self {
        Self { first_name_id: args.0, middle_name_id: args.1, last_name_id: args.2 }
    }
}

/// An author made from three ids holds them, in their order.
pub proof fn author_ids_from_triple(args: (u32, u32, u32))
    ensures
        <AuthorIds as vstd::std_specs::convert::FromSpec<(u32, u32, u32)>>::from_spec(args).ids()
            == args,
{
}

/// The three conditions that pick an author by the ids of the name's parts.
pub open spec fn author_condition(ids: (u32, u32, u32), first: Seq<char>, middle: Seq<char>, last: Seq<char>) -> Seq<char> {
    first + decimal(ids.0 as nat) + middle + decimal(ids.1 as nat) + last + decimal(ids.2 as nat)
}

pub const AUTHOR_FULL_NAME_HEAD: &'static str = r#"
            SELECT first_names.value || ' ' || middle_names.value || ' ' || last_names.value AS author
            FROM first_names, middle_names, last_names
            WHERE first_names.id = "#;

pub const AUTHOR_FULL_NAME_MIDDLE: &'static str = " AND middle_names.id = ";

pub const AUTHOR_FULL_NAME_LAST: &'static str = " AND last_names.id = ";

pub const AUTHOR_FULL_NAME_TAIL: &'static str = r#"
            LIMIT 1;
            "#;

/// The full name of an author, as one text.
pub struct AuthorFullName {
    author: AuthorIds,
}

impl AuthorFullName {
    /// The author that the query asks for.
    pub closed spec fn author(&self) -> AuthorIds {
        self.author
    }

    pub fn new(author: AuthorIds) -> (query: Self)
        ensures
            query.author() == author,
    {
        Self { author: author }
    }
}

impl QueryProvider for AuthorFullName {
    type Item = LibRusEc;

    open spec fn sql(&self) -> Seq<char> {
        author_condition(self.author().ids(), AUTHOR_FULL_NAME_HEAD@, AUTHOR_FULL_NAME_MIDDLE@, AUTHOR_FULL_NAME_LAST@)
            + AUTHOR_FULL_NAME_TAIL@
    }

    fn query(&self) -> (text: String) {
        let mut text = AUTHOR_FULL_NAME_HEAD.to_owned();
        text.append(decimal_string(self.author.first_name_id).as_str());
        text.append(AUTHOR_FULL_NAME_MIDDLE);
        text.append(decimal_string(self.author.middle_name_id).as_str());
        text.append(AUTHOR_FULL_NAME_LAST);
        text.append(decimal_string(self.author.last_name_id).as_str());
        text.append(AUTHOR_FULL_NAME_TAIL);
        text
    }
}

pub const SERIES_BY_AUTHOR_HEAD: &'static str = r#"
            SELECT
                series.id AS id,
                series.value AS name,
                count(series.value) as count
            FROM authors_map
            JOIN books ON authors_map.book_id = books.book_id
            JOIN titles ON books.title_id = titles.id
            JOIN series_map ON  books.book_id = series_map.book_id
            JOIN series ON series_map.serie_id = series.id
            JOIN dates ON  books.date_id = dates.id
            WHERE first_name_id = "#;

pub const SERIES_BY_AUTHOR_MIDDLE: &'static str = " AND middle_name_id = ";

pub const SERIES_BY_AUTHOR_LAST: &'static str = " AND last_name_id = ";

pub const SERIES_BY_AUTHOR_TAIL: &'static str = r#"
                  AND name IS NOT NULL
            GROUP by 1, 2;
            "#;

/// The series of an author, each with the number of its books.
pub struct SeriesByAuthor {
    author: AuthorIds,
}

impl SeriesByAuthor {
    /// The author that the query asks for.
    pub closed spec fn author(&self) -> AuthorIds {
        self.author
    }

    pub fn new(author: AuthorIds) -> (query: Self)
        ensures
            query.author() == author,
    {
        Self { author: author }
    }
}

impl QueryProvider for SeriesByAuthor {
    type Item = LibRusEc;

    open spec fn sql(&self) -> Seq<char> {
        author_condition(self.author().ids(), SERIES_BY_AUTHOR_HEAD@, SERIES_BY_AUTHOR_MIDDLE@, SERIES_BY_AUTHOR_LAST@)
            + SERIES_BY_AUTHOR_TAIL@
    }

    fn query(&self) -> (text: String) {
        let mut text = SERIES_BY_AUTHOR_HEAD.to_owned();
        text.append(decimal_string(self.author.first_name_id).as_str());
        text.append(SERIES_BY_AUTHOR_MIDDLE);
        text.append(decimal_string(self.author.middle_name_id).as_str());
        text.append(SERIES_BY_AUTHOR_LAST);
        text.append(decimal_string(self.author.last_name_id).as_str());
        text.append(SERIES_BY_AUTHOR_TAIL);
        text
    }
}

/// Which books of an author a query asks for.
#[derive(Debug, Clone, Copy)]
pub enum BooksFilter {
    ByTheSerieOnly(u32),
    WithoutSerieOnly,
    All,
}

pub const BOOKS_BY_AUTHOR_HEAD: &'static str = r#"
            SELECT
                books.book_id AS id,
                series_map.serie_num AS num,
                titles.value AS name,
                books.book_size AS size,
                dates.value AS added
            FROM authors_map
            JOIN books ON authors_map.book_id = books.book_id
            JOIN titles ON books.title_id = titles.id
            LEFT JOIN series_map ON  books.book_id = series_map.book_id
            LEFT JOIN series ON series_map.serie_id = series.id
            JOIN dates ON  books.date_id = dates.id
            WHERE "#;

pub const BOOKS_BY_AUTHOR_TAIL: &'static str = r#"
            "#;

pub const BY_FIRST_NAME: &'static str = "first_name_id = ";

pub const BY_MIDDLE_NAME: &'static str = " AND middle_name_id = ";

pub const BY_LAST_NAME: &'static str = " AND last_name_id = ";

pub const BY_SERIE: &'static str = " AND series.id = ";

pub const WITHOUT_SERIE: &'static str = " AND series_map.serie_num IS NULL";

/// The books of an author: all, those of one series, or those of none.
pub struct BooksByAuthor {
    author: AuthorIds,
    filter: BooksFilter,
}

/// The condition that a filter adds to that on the author.
pub open spec fn filter_condition(filter: BooksFilter) -> Seq<char> {
    match filter {
        BooksFilter::ByTheSerieOnly(sid) => BY_SERIE@ + decimal(sid as nat),
        BooksFilter::WithoutSerieOnly => WITHOUT_SERIE@,
        BooksFilter::All => Seq::empty(),
    }
}

impl BooksByAuthor {
    /// The author that the query asks for.
    pub closed spec fn author(&self) -> AuthorIds {
        self.author
    }

    /// The filter that the query asks with.
    pub closed spec fn filter(&self) -> BooksFilter {
        self.filter
    }

    pub fn new(author: AuthorIds, filter: BooksFilter) -> (query: Self)
        ensures
            query.author() == author,
            query.filter() == filter,
    {
        Self { author: author, filter: filter }
    }
}

impl QueryProvider for BooksByAuthor {
    type Item = LibRusEc;

    open spec fn sql(&self) -> Seq<char> {
        BOOKS_BY_AUTHOR_HEAD@ + author_condition(
            self.author().ids(),
            BY_FIRST_NAME@,
            BY_MIDDLE_NAME@,
            BY_LAST_NAME@,
        ) + filter_condition(self.filter()) + BOOKS_BY_AUTHOR_TAIL@
    }

    fn query(&self) -> (text: String) {
        let mut text = BOOKS_BY_AUTHOR_HEAD.to_owned();
        text.append(BY_FIRST_NAME);
        text.append(decimal_string(self.author.first_name_id).as_str());
        text.append(BY_MIDDLE_NAME);
        text.append(decimal_string(self.author.middle_name_id).as_str());
        text.append(BY_LAST_NAME);
        text.append(decimal_string(self.author.last_name_id).as_str());
        match self.filter {
            BooksFilter::ByTheSerieOnly(sid) => {
                text.append(BY_SERIE);
                text.append(decimal_string(sid).as_str());
            },
            BooksFilter::WithoutSerieOnly => {
                text.append(WITHOUT_SERIE);
            },
            BooksFilter::All => {},
        }
        text.append(BOOKS_BY_AUTHOR_TAIL);
        text
    }
}

/// A text of the catalogue with its id.
#[derive(Debug, PartialEq)]
pub struct Value {
    pub id: u32,
    pub value: String,
}

impl Value {
    pub fn new(id: u32, value: String) -> (made: Self)
        ensures
            made.id == id,
            made.value == value,
    {
        Self { id, value }
    }
}

/// An author: the three parts of the name.
#[derive(Debug, PartialEq)]
pub struct Author {
    pub first_name: Value,
    pub middle_name: Value,
    pub last_name: Value,
}

/// A series, with the number of its books.
#[derive(Debug, PartialEq)]
pub struct Serie {
    pub id: u32,
    pub name: String,
    pub count: u32,
}

/// A book of an author.
#[derive(Debug, PartialEq)]
pub struct BookDesc {
    pub id: u32,
    pub num: u32,
    pub name: String,
    pub size: u32,
    pub date: String,
}

/// A book of a series, with its author.
#[derive(Debug, PartialEq)]
pub struct BookSerie {
    pub id: u32,
    pub num: u32,
    pub name: String,
    pub size: u32,
    pub date: String,
    pub author: String,
}

/// A text written a number of times over.
pub open spec fn repeated(text: Seq<char>, times: nat) -> Seq<char>
    decreases times,
{
    if times == 0 {
        Seq::empty()
    } else {
        repeated(text, (times - 1) as nat) + text
    }
}

pub const FAVORITE_AUTHORS_HEAD: &'static str = r#"
        SELECT DISTINCT
            first_names.id AS first_id,
            middle_names.id AS middle_id,
            last_names.id AS last_id,
            first_names.value AS first_name,
            middle_names.value AS middle_name,
            last_names.value AS last_name
        FROM authors_map
        LEFT JOIN first_names ON first_names.id = authors_map.first_name_id
        LEFT JOIN middle_names ON middle_names.id = authors_map.middle_name_id
        LEFT JOIN last_names ON last_names.id = authors_map.last_name_id
        WHERE book_id IN ("#;

pub const FAVORITE_AUTHORS_TAIL: &'static str = r#")
        ORDER BY 6,4,5
    "#;

/// The query for the authors of a number of books, with a place for the id
/// of each book.
pub open spec fn favorite_authors(count: nat) -> Seq<char> {
    FAVORITE_AUTHORS_HEAD@ + "?"@ + repeated(", ?"@, (count - 1) as nat) + FAVORITE_AUTHORS_TAIL@
}

/// The query for the authors of `count` books, which takes the ids of the
/// books as its parameters; none where there are no books to ask about.
pub fn favorite_authors_sql(count: usize) -> (sql: Option<String>)
    ensures
        match sql {
            Some(text) => count > 0 && text@ == favorite_authors(count as nat),
            None => count == 0,
        },
{
    if count == 0 {
        return None;
    }
    let mut text = FAVORITE_AUTHORS_HEAD.to_owned();
    text.append("?");
    let ghost start = text@;
    let mut i: usize = 1;
    proof {
        assert(text@ =~= start + repeated(", ?"@, 0));
    }
    while i < count
        invariant
            1 <= i <= count,
            text@ == start + repeated(", ?"@, (i - 1) as nat),
        decreases count - i,
    {
        text.append(", ?");
        proof {
            assert(repeated(", ?"@, i as nat) == repeated(", ?"@, (i - 1) as nat) + ", ?"@);
            assert(text@ =~= start + repeated(", ?"@, i as nat));
        }
        i = i + 1;
    }
    text.append(FAVORITE_AUTHORS_TAIL);
    Some(text)
}

/// The words by which the database counts `days` days back from now.
pub fn days_back(days: u32) -> (words: String)
    ensures
        words@ == "-"@ + decimal(days as nat) + " days"@,
{
    let mut words = "-".to_owned();
    words.append(decimal_string(days).as_str());
    words.append(" days");
    words
}

} // verus!

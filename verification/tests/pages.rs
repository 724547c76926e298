use opds_catalog::database::{Author, Value};
use opds_catalog::opds::Feed;
use opds_catalog::pages::{
    add_found_authors, add_metas, add_prefixes, add_values, add_way_back, author_menu, genre_menu,
    month_mask, page, root_feed, Month,
};

const CATALOG: &str = "application/atom+xml;profile=opds-catalog";

fn strings(items: &[&str]) -> Vec<String> {
    items.iter().map(|s| String::from(*s)).collect()
}

fn titles(feed: &Feed) -> Vec<&str> {
    feed.entries.iter().map(|e| e.title.as_str()).collect()
}

fn links(feed: &Feed) -> Vec<&str> {
    feed.entries.iter().map(|e| e.href.as_str()).collect()
}

#[test]
fn the_root_of_the_catalogue() {
    let feed = root_feed();
    assert_eq!(feed.title, "Каталог");
    assert_eq!(
        titles(&feed),
        vec![
            "Поиск по авторам",
            "Поиск по сериям",
            "Поиск по жанрам",
            "Поиск по наименованиям",
            "Любимые авторы 10 дей",
            "Любимые авторы 30 дей ",
            "Любимые авторы 90 дей ",
        ]
    );
    assert_eq!(
        links(&feed),
        vec![
            "/opds/authors",
            "/opds/series",
            "/opds/genres",
            "/opds/titles",
            "/opds/authors/favorits/days/10",
            "/opds/authors/favorits/days/30",
            "/opds/authors/favorits/days/90",
        ]
    );
    assert!(feed.entries.iter().all(|e| e.htype == CATALOG));
    assert_eq!(feed.entries[0].id, "root:opds:authors");
}

#[test]
fn a_page_begins_with_the_way_home() {
    let feed = page("Поиск книг по авторам");
    assert_eq!(feed.title, "Поиск книг по авторам");
    assert_eq!(titles(&feed), vec!["[Home]"]);
    assert_eq!(links(&feed), vec!["/opds"]);
}

#[test]
fn prefixes_are_escaped_in_their_links() {
    let mut feed = page("Поиск книг по авторам");
    add_prefixes(&mut feed, "/opds/authors/mask", &strings(&["Ив", "Ab1", "a b", "A-Z/~", ""]));
    assert_eq!(titles(&feed), vec!["[Home]", "Ив...", "Ab1...", "a b...", "A-Z/~...", "..."]);
    assert_eq!(
        links(&feed),
        vec![
            "/opds",
            "/opds/authors/mask/%D0%98%D0%B2",
            "/opds/authors/mask/Ab1",
            "/opds/authors/mask/a%20b",
            "/opds/authors/mask/A%2DZ%2F%7E",
            "/opds/authors/mask/",
        ]
    );
    assert_eq!(feed.entries[1].id, "root:opds:authors:mask:%D0%98%D0%B2");
}

#[test]
fn authors_that_were_found_stand_in_brackets() {
    let authors = vec![
        Author {
            first_name: Value::new(99, "Петр".to_string()),
            middle_name: Value::new(54, "Константинович".to_string()),
            last_name: Value::new(18, "Иванов".to_string()),
        },
        Author {
            first_name: Value::new(10, "Сергей".to_string()),
            middle_name: Value::new(4, "Григорьевич".to_string()),
            last_name: Value::new(18, "Иванов".to_string()),
        },
    ];
    let mut feed = page("Поиск книг по авторам");
    add_found_authors(&mut feed, &authors);
    assert_eq!(
        titles(&feed),
        vec!["[Home]", "[Иванов Петр Константинович]", "[Иванов Сергей Григорьевич]"]
    );
    assert_eq!(
        links(&feed),
        vec!["/opds", "/opds/author/id/99/54/18", "/opds/author/id/10/4/18"]
    );
}

#[test]
fn values_lead_to_their_ids() {
    let values = vec![Value::new(109, "Куница".to_string()), Value::new(7, "b".to_string())];
    let mut feed = page("Поиск книг по сериям");
    add_values(&mut feed, "/opds/books/serie/id/", true, &values);
    assert_eq!(titles(&feed), vec!["[Home]", "[Куница]", "[b]"]);
    assert_eq!(links(&feed), vec!["/opds", "/opds/books/serie/id/109", "/opds/books/serie/id/7"]);
    let mut feed = Feed::new("Поджанры");
    add_values(&mut feed, "/opds/genre/id/", false, &values);
    assert_eq!(titles(&feed), vec!["Куница", "b"]);
    assert_eq!(links(&feed), vec!["/opds/genre/id/109", "/opds/genre/id/7"]);
}

#[test]
fn the_menu_of_an_author() {
    let feed = author_menu((29, 1, 38));
    assert_eq!(feed.title, "Книги автора");
    assert_eq!(
        titles(&feed),
        vec!["Cерии", "Книги без серий", "Книги жанрам", "Книги алфавиту", "Книги по дате"]
    );
    assert_eq!(
        links(&feed),
        vec![
            "/opds/series/author/29/1/38",
            "/opds/books/author/nonserie/29/1/38",
            "/opds/books/author/genre/29/1/38",
            "/opds/books/author/alphabet/29/1/38",
            "/opds/books/author/added/29/1/38",
        ]
    );
}

#[test]
fn an_empty_list_leads_back_to_the_author() {
    let mut feed = page("Серии автора");
    add_way_back(&mut feed, (29, 1, 38), 3);
    assert_eq!(titles(&feed), vec!["[Home]"]);
    add_way_back(&mut feed, (29, 1, 38), 0);
    assert_eq!(titles(&feed), vec!["[Home]", "Вернуться к автору"]);
    assert_eq!(links(&feed), vec!["/opds", "/opds/author/id/29/1/38"]);
}

#[test]
fn the_menu_of_a_genre() {
    let months = vec![
        Month { year: 2023, month: 2, name: String::from("February") },
        Month { year: 2022, month: 12, name: String::from("December") },
        Month { year: -1, month: 1, name: String::from("January") },
    ];
    let feed = genre_menu(5, &months);
    assert_eq!(feed.title, "Книги по жанру");
    assert_eq!(
        titles(&feed),
        vec![
            "[Home]",
            "Список авторов",
            "Список серий",
            "Книги за 2023 February ",
            "Книги за 2022 December ",
            "Книги за -1 January ",
        ]
    );
    assert_eq!(
        links(&feed),
        vec![
            "/opds",
            "/opds/authors/genre/5",
            "/opds/series/genre/5",
            "/opds/books/genre/id/5/year/2023/month/2",
            "/opds/books/genre/id/5/year/2022/month/12",
            "/opds/books/genre/id/5/year/-1/month/1",
        ]
    );
    let feed = genre_menu(0, &Vec::new());
    assert_eq!(feed.entries.len(), 3);
}

#[test]
fn the_pattern_of_a_month() {
    assert_eq!(month_mask(2023, 2), "2023-02-%");
    assert_eq!(month_mask(2023, 12), "2023-12-%");
    assert_eq!(month_mask(0, 0), "0-00-%");
    assert_eq!(month_mask(65535, 255), "65535-255-%");
    for (year, month) in [(1999u16, 1u8), (2024, 9), (2024, 10)] {
        assert_eq!(month_mask(year, month), format!("{}-{:02}-%", year, month));
    }
}

#[test]
fn groups_of_genres_are_escaped_in_their_links() {
    let mut feed = page("Жанры");
    add_metas(&mut feed, &strings(&["Фантастика", "Дом и семья"]));
    assert_eq!(titles(&feed), vec!["[Home]", "Фантастика", "Дом и семья"]);
    assert_eq!(
        links(&feed),
        vec![
            "/opds".to_string(),
            format!("/opds/genres/meta/{}", "%D0%A4%D0%B0%D0%BD%D1%82%D0%B0%D1%81%D1%82%D0%B8%D0%BA%D0%B0"),
            format!(
                "/opds/genres/meta/{}",
                "%D0%94%D0%BE%D0%BC%20%D0%B8%20%D1%81%D0%B5%D0%BC%D1%8C%D1%8F"
            ),
        ]
    );
}

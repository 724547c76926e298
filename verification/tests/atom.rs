use opds_catalog::atom::{format_feed, make_feed};
use opds_catalog::opds::Feed;
use quick_xml::events::{BytesDecl, BytesText, Event};
use quick_xml::writer::Writer;
use std::io::Cursor;

/// The document as the writer of quick-xml puts it together.
fn written(feed: &Feed, updated: &str) -> String {
    let mut w = Writer::new(Cursor::new(Vec::new()));
    w.write_event(Event::Decl(BytesDecl::new("1.0", Some("utf-8"), None)))
        .unwrap();
    w.create_element("feed")
        .with_attribute(("xmlns", "http://www.w3.org/2005/Atom"))
        .with_attribute(("xmlns:dc", "http://purl.org/dc/terms/"))
        .with_attribute(("xmlns:os", "http://a9.com/-/spec/opensearch/1.1/"))
        .with_attribute(("xmlns:opds", "http://opds-spec.org/2010/catalog"))
        .write_inner_content(|w| {
            w.create_element("title")
                .write_text_content(BytesText::new(&feed.title))?;
            w.create_element("updated")
                .write_text_content(BytesText::new(updated))?;
            w.create_element("link")
                .with_attribute(("href", "/opds"))
                .with_attribute(("rel", "/start"))
                .with_attribute(("type", "application/atom+xml;profile=opds-catalog"))
                .write_empty()?;
            for entry in &feed.entries {
                w.create_element("entry").write_inner_content(|w| {
                    w.create_element("id")
                        .write_text_content(BytesText::new(&entry.id))?;
                    w.create_element("title")
                        .write_text_content(BytesText::new(&entry.title))?;
                    w.create_element("link")
                        .with_attribute(("href", entry.href.as_str()))
                        .with_attribute(("type", entry.htype.as_str()))
                        .write_empty()?;
                    Ok(())
                })?;
            }
            Ok(())
        })
        .unwrap();
    String::from_utf8_lossy(&w.into_inner().into_inner()).into_owned()
}

#[test]
fn a_feed_without_entries() {
    let feed = Feed::new("Каталог");
    assert_eq!(
        make_feed(&feed, "2023-02-24T10:00:00Z"),
        "<?xml version=\"1.0\" encoding=\"utf-8\"?>\
         <feed xmlns=\"http://www.w3.org/2005/Atom\" xmlns:dc=\"http://purl.org/dc/terms/\" \
         xmlns:os=\"http://a9.com/-/spec/opensearch/1.1/\" \
         xmlns:opds=\"http://opds-spec.org/2010/catalog\">\
         <title>Каталог</title>\
         <updated>2023-02-24T10:00:00Z</updated>\
         <link href=\"/opds\" rel=\"/start\" type=\"application/atom+xml;profile=opds-catalog\"/>\
         </feed>"
    );
}

#[test]
fn a_feed_with_entries() {
    let mut feed = Feed::new("Книги");
    feed.add("Поиск по авторам", "/opds/authors");
    feed.book("Город драконов", "/opds/book/749883");
    assert_eq!(
        make_feed(&feed, "now"),
        "<?xml version=\"1.0\" encoding=\"utf-8\"?>\
         <feed xmlns=\"http://www.w3.org/2005/Atom\" xmlns:dc=\"http://purl.org/dc/terms/\" \
         xmlns:os=\"http://a9.com/-/spec/opensearch/1.1/\" \
         xmlns:opds=\"http://opds-spec.org/2010/catalog\">\
         <title>Книги</title>\
         <updated>now</updated>\
         <link href=\"/opds\" rel=\"/start\" type=\"application/atom+xml;profile=opds-catalog\"/>\
         <entry><id>root:opds:authors</id><title>Поиск по авторам</title>\
         <link href=\"/opds/authors\" type=\"application/atom+xml;profile=opds-catalog\"/></entry>\
         <entry><id>root:opds:book:749883</id><title>Город драконов</title>\
         <link href=\"/opds/book/749883\" type=\"application/fb2+zip\"/></entry>\
         </feed>"
    );
}

#[test]
fn markup_in_texts_is_escaped() {
    let mut feed = Feed::new("Tom & Jerry <\"the\" 'best'>\r\n\tend");
    feed.add("a < b > c & d \" ' \r \n \t", "/x?a=1&b=<2>\"'\r\n\t");
    let xml = make_feed(&feed, "<now>");
    assert!(xml.contains(
        "<title>Tom &amp; Jerry &lt;&quot;the&quot; &apos;best&apos;&gt;&#13;\n\tend</title>"
    ));
    assert!(xml.contains("<updated>&lt;now&gt;</updated>"));
    assert!(xml.contains("<title>a &lt; b &gt; c &amp; d &quot; &apos; &#13; \n \t</title>"));
    assert!(xml.contains("<link href=\"/x?a=1&amp;b=&lt;2&gt;&quot;&apos;&#13;&#10;&#9;\" type="));
    assert!(xml.contains("<id>root:x?a=1&amp;b=&lt;2&gt;&quot;&apos;&#13;\n\t</id>"));
}

#[test]
fn the_document_is_what_the_writer_of_quick_xml_writes() {
    let mut feeds = vec![Feed::new(""), Feed::new("Каталог"), Feed::new("<&>\"'\r\n\t")];
    for feed in feeds.iter_mut() {
        feed.add("Поиск по авторам", "/opds/authors");
        feed.book("a < b > c & d \" ' \r \n \t end", "/opds/book/1?x=<\"'&>\r\n\t");
        feed.add("", "");
        feed.book("中文 Ёж", "/opds/authors/mask/%D0%98%D0%B2");
    }
    feeds.push(Feed::new("empty"));
    for feed in &feeds {
        for updated in ["", "2023-02-24T10:00:00.123456789Z", "<&>\r\n"] {
            assert_eq!(make_feed(feed, updated), written(feed, updated));
        }
    }
}

#[test]
fn a_feed_is_formatted_as_it_is_made() {
    let mut feed = Feed::new("Каталог");
    feed.add("Поиск по сериям", "/opds/series");
    let made = make_feed(&feed, "now");
    assert_eq!(format_feed(feed, "now"), made);
}

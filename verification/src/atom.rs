//! A feed as the Atom document that a reader's program takes.

use crate::opds::{Entry, EntryView, Feed, FeedView};
use vstd::prelude::*;
use vstd::string::StringExecFns;

verus! {

/// A character as it stands in a document: the five characters of markup
/// and the carriage return as references, and in the value of an attribute
/// the line feed and the tab too; any other character as it is.
pub open spec fn escaped_char(c: char, in_attribute: bool) -> Seq<char> {
    if c == '<' {
        seq!['&', 'l', 't', ';']
    } else if c == '>' {
        seq!['&', 'g', 't', ';']
    } else if c == '&' {
        seq!['&', 'a', 'm', 'p', ';']
    } else if c == '\'' {
        seq!['&', 'a', 'p', 'o', 's', ';']
    } else if c == '"' {
        seq!['&', 'q', 'u', 'o', 't', ';']
    } else if c == '\r' {
        seq!['&', '#', '1', '3', ';']
    } else if in_attribute && c == '\n' {
        seq!['&', '#', '1', '0', ';']
    } else if in_attribute && c == '\t' {
        seq!['&', '#', '9', ';']
    } else {
        seq![c]
    }
}

/// A text as it stands in a document, character by character.
pub open spec fn escaped(text: Seq<char>, in_attribute: bool) -> Seq<char>
    decreases text.len(),
{
    if text.len() == 0 {
        Seq::empty()
    } else {
        escaped(text.drop_last(), in_attribute) + escaped_char(text.last(), in_attribute)
    }
}

/// `escape` of quick-xml, which `BytesText::new` applies to the text of an
/// element: replaces `<`, `>`, `&`, `'`, `"` and the carriage return by
/// their references, and leaves the rest of the text as it is.
#[verifier::external_body]
fn escape_text(text: &str) -> (out: String)
    ensures
        out@ == escaped(text@, false),
{
    quick_xml::escape::escape(text).into_owned()
}

/// The conversion of a pair of texts to an `Attribute` of quick-xml, which
/// `with_attribute` applies: the value is escaped as the text of an element
/// is, and the line feed and the tab are replaced by their references too.
#[verifier::external_body]
fn escape_value(text: &str) -> (out: String)
    ensures
        out@ == escaped(text@, true),
{
    quick_xml::events::attributes::Attribute::from(("", text)).value.into_owned()
}

/// An element that holds a text.
pub open spec fn text_element(name: Seq<char>, text: Seq<char>) -> Seq<char> {
    "<"@ + name + ">"@ + escaped(text, false) + "</"@ + name + ">"@
}

/// An entry as an element of the document.
pub open spec fn entry_xml(entry: EntryView) -> Seq<char> {
    "<entry>"@ + text_element("id"@, entry.id) + text_element("title"@, entry.title)
        + "<link href=\""@ + escaped(entry.href, true) + "\" type=\""@ + escaped(
        entry.htype,
        true,
    ) + "\"/>"@ + "</entry>"@
}

/// The entries as elements of the document, one after the other.
pub open spec fn entries_xml(entries: Seq<EntryView>) -> Seq<char>
    decreases entries.len(),
{
    if entries.len() == 0 {
        Seq::empty()
    } else {
        entries_xml(entries.drop_last()) + entry_xml(entries.last())
    }
}

pub const DECLARATION: &'static str = "<?xml version=\"1.0\" encoding=\"utf-8\"?>";

pub const FEED_START: &'static str =
    "<feed xmlns=\"http://www.w3.org/2005/Atom\" xmlns:dc=\"http://purl.org/dc/terms/\" xmlns:os=\"http://a9.com/-/spec/opensearch/1.1/\" xmlns:opds=\"http://opds-spec.org/2010/catalog\">";

pub const START_LINK: &'static str =
    "<link href=\"/opds\" rel=\"/start\" type=\"application/atom+xml;profile=opds-catalog\"/>";

/// A feed as a document: the declaration, and the element `feed` with the
/// title, the time of the last change, the link to the start of the
/// catalogue, and the entries.
pub open spec fn feed_xml(feed: FeedView, updated: Seq<char>) -> Seq<char> {
    DECLARATION@ + FEED_START@ + text_element("title"@, feed.title) + text_element(
        "updated"@,
        updated,
    ) + START_LINK@ + entries_xml(feed.entries) + "</feed>"@
}

/// Appends an element that holds a text.
fn write_text_element(out: &mut String, name: &str, text: &str)
    ensures
        final(out)@ == old(out)@ + text_element(name@, text@),
{
    let ghost start = out@;
    out.append("<");
    out.append(name);
    out.append(">");
    out.append(escape_text(text).as_str());
    out.append("</");
    out.append(name);
    out.append(">");
    proof {
        assert(out@ =~= start + text_element(name@, text@));
    }
}

/// Appends an entry.
fn write_entry(out: &mut String, entry: &Entry)
    ensures
        final(out)@ == old(out)@ + entry_xml(entry@),
{
    let ghost start = out@;
    out.append("<entry>");
    write_text_element(out, "id", entry.id.as_str());
    write_text_element(out, "title", entry.title.as_str());
    out.append("<link href=\"");
    out.append(escape_value(entry.href.as_str()).as_str());
    out.append("\" type=\"");
    out.append(escape_value(entry.htype.as_str()).as_str());
    out.append("\"/>");
    out.append("</entry>");
    proof {
        assert(out@ =~= start + entry_xml(entry@));
    }
}

/// Writes a feed as a document, with `updated` as the time of its last
/// change.
pub fn make_feed(feed: &Feed, updated: &str) -> (xml: String)
    ensures
        xml@ == feed_xml(feed@, updated@),
{
    let mut xml = DECLARATION.to_owned();
    xml.append(FEED_START);
    write_text_element(&mut xml, "title", feed.title.as_str());
    write_text_element(&mut xml, "updated", updated);
    xml.append(START_LINK);
    let ghost head = xml@;
    let ghost entries = feed@.entries;
    let n = feed.entries.len();
    let mut i: usize = 0;
    proof {
        assert(xml@ =~= head + entries_xml(entries.take(0)));
    }
    while i < n
        invariant
            n == feed.entries@.len(),
            i <= n,
            entries == feed@.entries,
            xml@ == head + entries_xml(entries.take(i as int)),
        decreases n - i,
    {
        write_entry(&mut xml, &feed.entries[i]);
        proof {
            assert(entries.take(i + 1).drop_last() =~= entries.take(i as int));
            assert(entries.take(i + 1).last() == feed.entries@[i as int]@);
            assert(xml@ =~= head + entries_xml(entries.take(i + 1)));
        }
        i = i + 1;
    }
    xml.append("</feed>");
    proof {
        assert(entries.take(n as int) =~= entries);
        assert(xml@ =~= feed_xml(feed@, updated@));
    }
    xml
}

/// Writes a feed as a document, with `updated` as the time of its last
/// change.
pub fn format_feed(feed: Feed, updated: &str) -> (xml: String)
    ensures
        xml@ == feed_xml(feed@, updated@),
{
    make_feed(&feed, updated)
}

} // verus!

//! The XML text of documents: read into tokens, and written from events, by
//! the `xml` crate.
use vstd::prelude::*;

use xml::reader::XmlEvent as ReaderEvent;
use xml::writer::XmlEvent as WriterEvent;

verus! {

/// An attribute of a start tag, as the reader gives it.
#[derive(Debug)]
pub struct XmlAttr {
    pub prefix: Option<String>,
    pub local_name: String,
    pub value: String,
}

/// One event of the XML reader.
#[derive(Debug)]
pub enum XmlToken {
    /// A start tag: local name, namespace URI and attributes.
    Start(String, Option<String>, Vec<XmlAttr>),
    /// An end tag, with its local name.
    End(String),
    /// Character data.
    Characters(String),
    /// A CDATA section.
    CData(String),
    /// White space between tags, a comment, a processing instruction, the
    /// XML declaration or a doctype: what no reader of this library uses.
    Ignorable,
    /// The end of the document.
    EndDocument,
    /// A malformed document, with the reader's message.
    Error(String),
}

/// An attribute as plain values.
pub struct XmlAttrV {
    pub prefix: Option<Seq<char>>,
    pub local_name: Seq<char>,
    pub value: Seq<char>,
}

/// A reader event as plain values.
pub enum TokenV {
    Start(Seq<char>, Option<Seq<char>>, Seq<XmlAttrV>),
    End(Seq<char>),
    Characters(Seq<char>),
    CData(Seq<char>),
    Ignorable,
    EndDocument,
    Error,
}

pub open spec fn opt_str(o: Option<String>) -> Option<Seq<char>> {
    match o {
        Some(s) => Some(s@),
        None => None,
    }
}

impl View for XmlAttr {
    type V = XmlAttrV;

    open spec fn view(&self) -> XmlAttrV {
        XmlAttrV { prefix: opt_str(self.prefix), local_name: self.local_name@, value: self.value@ }
    }
}

impl View for XmlToken {
    type V = TokenV;

    open spec fn view(&self) -> TokenV {
        match self {
            XmlToken::Start(n, ns, a) => TokenV::Start(
                n@,
                opt_str(*ns),
                a@.map_values(|x: XmlAttr| x@),
            ),
            XmlToken::End(n) => TokenV::End(n@),
            XmlToken::Characters(s) => TokenV::Characters(s@),
            XmlToken::CData(s) => TokenV::CData(s@),
            XmlToken::Ignorable => TokenV::Ignorable,
            XmlToken::EndDocument => TokenV::EndDocument,
            XmlToken::Error(_) => TokenV::Error,
        }
    }
}

pub open spec fn tokens_view(t: Seq<XmlToken>) -> Seq<TokenV> {
    t.map_values(|x: XmlToken| x@)
}

/// The events that the `xml` crate's `EventReader`, with its default
/// configuration, reads from the text `input`, in order, up to and including
/// the first end of document or error.
pub uninterp spec fn xml_tokens(input: Seq<char>) -> Seq<TokenV>;

/// Reads the XML text `input` with `xml::EventReader` and returns every event
/// its iterator yields (the iterator stops after the end of the document or
/// after the first error). Trusted: the result is what the reader gives, each
/// event moved into the library's own type field by field.
#[verifier::external_body]
pub(crate) fn read_xml(input: &str) -> (r: Vec<XmlToken>)
    ensures
        tokens_view(r@) == xml_tokens(input@),
{
    xml::EventReader::new(input.as_bytes()).into_iter().map(|ev| match ev {
        Ok(ReaderEvent::StartElement { name, attributes, .. }) => XmlToken::Start(name.local_name, name.namespace,
            attributes.into_iter().map(|a| XmlAttr { prefix: a.name.prefix, local_name: a.name.local_name, value: a.value }).collect()),
        Ok(ReaderEvent::EndElement { name }) => XmlToken::End(name.local_name),
        Ok(ReaderEvent::Characters(s)) => XmlToken::Characters(s),
        Ok(ReaderEvent::CData(s)) => XmlToken::CData(s),
        Ok(ReaderEvent::EndDocument) => XmlToken::EndDocument,
        Ok(_) => XmlToken::Ignorable,
        Err(e) => XmlToken::Error(e.to_string()),
    }).collect()
}

/// One event to write.
#[derive(Debug)]
pub enum WriteEvent {
    /// A start tag: its name, the namespaces it declares (the prefix empty
    /// for the default namespace) and its attributes, in order.
    Start(String, Vec<(String, String)>, Vec<(String, String)>),
    /// Character data, escaped when written.
    Characters(String),
    /// The end tag of the innermost open element.
    End,
}

/// A write event as plain values.
pub enum WriteEventV {
    Start(Seq<char>, Seq<(Seq<char>, Seq<char>)>, Seq<(Seq<char>, Seq<char>)>),
    Characters(Seq<char>),
    End,
}

pub open spec fn pairs_view(p: Seq<(String, String)>) -> Seq<(Seq<char>, Seq<char>)> {
    p.map_values(|x: (String, String)| (x.0@, x.1@))
}

impl View for WriteEvent {
    type V = WriteEventV;

    open spec fn view(&self) -> WriteEventV {
        match self {
            WriteEvent::Start(n, ns, a) => WriteEventV::Start(n@, pairs_view(ns@), pairs_view(a@)),
            WriteEvent::Characters(s) => WriteEventV::Characters(s@),
            WriteEvent::End => WriteEventV::End,
        }
    }
}

pub open spec fn events_view(e: Seq<WriteEvent>) -> Seq<WriteEventV> {
    e.map_values(|x: WriteEvent| x@)
}

/// How many elements are open after the events `e`; negative when an end
/// tag closes nothing.
pub open spec fn open_depth(e: Seq<WriteEventV>) -> int
    decreases e.len(),
{
    if e.len() == 0 {
        0
    } else {
        open_depth(e.drop_last()) + match e.last() {
            WriteEventV::Start(..) => 1int,
            WriteEventV::End => -1int,
            WriteEventV::Characters(_) => 0int,
        }
    }
}

/// Every end tag of `e` closes an element that an earlier start tag opened.
pub open spec fn ends_matched(e: Seq<WriteEventV>) -> bool {
    forall|k: int| 0 <= k <= e.len() ==> open_depth(#[trigger] e.take(k)) >= 0
}

pub proof fn lemma_depth_add(a: Seq<WriteEventV>, b: Seq<WriteEventV>)
    ensures
        open_depth(a + b) == open_depth(a) + open_depth(b),
    decreases b.len(),
{
    if b.len() > 0 {
        lemma_depth_add(a, b.drop_last());
        assert((a + b).drop_last() =~= a + b.drop_last());
    } else {
        assert(a + b =~= a);
    }
}

/// `a` followed by `b` keeps every end tag matched, when `a` and `b` each do
/// and `a` leaves no end tag unmatched.
pub proof fn lemma_matched_add(a: Seq<WriteEventV>, b: Seq<WriteEventV>)
    requires
        ends_matched(a),
        ends_matched(b),
    ensures
        ends_matched(a + b),
        open_depth(a + b) == open_depth(a) + open_depth(b),
{
    lemma_depth_add(a, b);
    assert forall|k: int| 0 <= k <= (a + b).len() implies open_depth(#[trigger] (a + b).take(k)) >= 0 by {
        if k <= a.len() {
            assert((a + b).take(k) =~= a.take(k));
        } else {
            assert((a + b).take(k) =~= a + b.take(k - a.len()));
            lemma_depth_add(a, b.take(k - a.len()));
            assert(a.take(a.len() as int) =~= a);
            assert(open_depth(b.take(k - a.len())) >= 0);
        }
    }
}

/// An element's events: its start tag, what lies inside, which leaves no
/// element open, and its end tag.
pub proof fn lemma_matched_wrap(start: WriteEventV, inner: Seq<WriteEventV>)
    requires
        start is Start,
        ends_matched(inner),
        open_depth(inner) == 0,
    ensures
        ends_matched(seq![start] + inner + seq![WriteEventV::End]),
        open_depth(seq![start] + inner + seq![WriteEventV::End]) == 0,
{
    let s1 = seq![start];
    let e1 = seq![WriteEventV::End];
    let empty = Seq::<WriteEventV>::empty();
    assert(open_depth(empty) == 0);
    assert(ends_matched(s1)) by {
        assert forall|k: int| 0 <= k <= s1.len() implies open_depth(#[trigger] s1.take(k)) >= 0 by {
            if k == 1 {
                assert(s1.take(1) =~= s1);
                assert(s1.drop_last() =~= empty);
            } else {
                assert(s1.take(0) =~= empty);
            }
        }
    }
    assert(open_depth(s1) == 1) by {
        assert(s1.drop_last() =~= Seq::<WriteEventV>::empty());
    }
    lemma_matched_add(s1, inner);
    let w = s1 + inner;
    lemma_depth_add(w, e1);
    assert(open_depth(e1) == -1) by {
        assert(e1.drop_last() =~= empty);
    }
    assert forall|k: int| 0 <= k <= (w + e1).len() implies open_depth(#[trigger] (w + e1).take(k)) >= 0 by {
        if k <= w.len() {
            assert((w + e1).take(k) =~= w.take(k));
        } else {
            assert((w + e1).take(k) =~= w + e1);
        }
    }
}

/// The text that the `xml` crate's `EventWriter` writes for the events `e`,
/// configured with indentation by two spaces and an XML declaration.
pub uninterp spec fn xml_text(e: Seq<WriteEventV>) -> Seq<char>;

/// Writes the events with `xml::writer::EventWriter` (indented by two
/// spaces, with the XML declaration) into memory and returns the text.
/// Trusted: the result is the writer's output. The writer fails only on an
/// end tag that closes nothing (or on an I/O error, which writing to memory
/// does not give), which `requires` rules out.
#[verifier::external_body]
pub(crate) fn write_xml(events: &Vec<WriteEvent>) -> (r: String)
    requires
        ends_matched(events_view(events@)),
    ensures
        r@ == xml_text(events_view(events@)),
{
    let mut w = xml::writer::EmitterConfig::new().perform_indent(true).indent_string("  ")
        .write_document_declaration(true).create_writer(Vec::new());
    for ev in events {
        match ev {
            WriteEvent::Start(n, ns, a) => {
                let mut el = WriterEvent::start_element(n.as_str());
                for (p, u) in ns { el = el.ns(p.as_str(), u.as_str()); }
                for (k, v) in a { el = el.attr(k.as_str(), v.as_str()); }
                w.write(el)
            },
            WriteEvent::Characters(t) => w.write(WriterEvent::characters(t)),
            WriteEvent::End => w.write(WriterEvent::end_element()),
        }.expect("every end tag closes an open element");
    }
    String::from_utf8(w.into_inner()).expect("the writer writes UTF-8")
}

} // verus!

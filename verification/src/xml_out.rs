//! XML output through `xml-rs`: markup events, and the writer that turns them into text.
use vstd::prelude::*;

verus! {

/// One piece of XML markup: an opening tag (with its attributes and the namespace bindings
/// that it declares, each a prefix and a URI, the empty prefix being the default namespace;
/// of two bindings of one prefix the first counts),
/// character data, a comment, or the closing tag of the innermost open element.
pub enum Markup {
    Open { name: String, attributes: Vec<(String, String)>, namespaces: Vec<(String, String)> },
    Text(String),
    Comment(String),
    Close,
}

#[verifier::ext_equal]
pub enum MarkupView {
    Open {
        name: Seq<char>,
        attributes: Seq<(Seq<char>, Seq<char>)>,
        namespaces: Map<Seq<char>, Seq<char>>,
    },
    Text(Seq<char>),
    Comment(Seq<char>),
    Close,
}

pub open spec fn pairs_view(v: Seq<(String, String)>) -> Seq<(Seq<char>, Seq<char>)> {
    v.map_values(|p: (String, String)| (p.0@, p.1@))
}

/// `m` with `prefix` bound to `uri`, unless `prefix` is bound already (then `m` unchanged).
pub open spec fn bind_if_absent(m: Map<Seq<char>, Seq<char>>, prefix: Seq<char>, uri: Seq<char>) -> Map<Seq<char>, Seq<char>> {
    if m.dom().contains(prefix) {
        m
    } else {
        m.insert(prefix, uri)
    }
}

/// The namespace bindings that a list of (prefix, URI) pairs makes, bound in turn: the first
/// binding of a prefix counts.
pub open spec fn bindings(pairs: Seq<(Seq<char>, Seq<char>)>) -> Map<Seq<char>, Seq<char>>
    decreases pairs.len(),
{
    if pairs.len() == 0 {
        Map::empty()
    } else {
        bind_if_absent(bindings(pairs.drop_last()), pairs.last().0, pairs.last().1)
    }
}

impl View for Markup {
    type V = MarkupView;

    open spec fn view(&self) -> MarkupView {
        match self {
            Markup::Open { name, attributes, namespaces } => MarkupView::Open {
                name: name@,
                attributes: pairs_view(attributes@),
                namespaces: bindings(pairs_view(namespaces@)),
            },
            Markup::Text(t) => MarkupView::Text(t@),
            Markup::Comment(t) => MarkupView::Comment(t@),
            Markup::Close => MarkupView::Close,
        }
    }
}

/// The number of elements left open after `s`: its opening tags less its closing tags.
pub open spec fn open_depth(s: Seq<MarkupView>) -> int
    decreases s.len(),
{
    if s.len() == 0 {
        0
    } else {
        open_depth(s.drop_last()) + match s.last() {
            MarkupView::Open { .. } => 1int,
            MarkupView::Close => -1int,
            MarkupView::Text(_) => 0int,
            MarkupView::Comment(_) => 0int,
        }
    }
}

/// What an `xml::writer::EventWriter` over a `Vec<u8>` holds: how it was configured
/// (document declaration, padding of comments) and the events written to it so far.
#[verifier::ext_equal]
pub struct XmlWriterView {
    pub document_declaration: bool,
    pub autopad_comments: bool,
    pub events: Seq<MarkupView>,
}

#[verifier::external_type_specification]
#[verifier::external_body]
#[verifier::reject_recursive_types(W)]
pub struct ExEventWriter<W>(xml::writer::EventWriter<W>);

#[verifier::external_type_specification]
#[verifier::external_body]
pub struct ExStartElementBuilder<'a>(xml::writer::events::StartElementBuilder<'a>);

#[verifier::external_type_specification]
#[verifier::external_body]
pub struct ExEmitterError(xml::writer::Error);

/// The configuration of an XML writer and the events written to it.
pub uninterp spec fn xml_writer_state(w: xml::writer::EventWriter<Vec<u8>>) -> XmlWriterView;

/// The bytes that an XML writer so configured holds after writing those events.
pub uninterp spec fn xml_document(state: XmlWriterView) -> Seq<u8>;

/// The opening tag that a start-element builder holds: its name, its attributes in the order
/// given, and its namespace bindings (a map from prefix to URI).
pub uninterp spec fn xml_pending(b: xml::writer::events::StartElementBuilder<'_>) -> (Seq<char>, Seq<(Seq<char>, Seq<char>)>, Map<Seq<char>, Seq<char>>);

/// `xml::writer::EmitterConfig::new()` with the given `write_document_declaration` and
/// `autopad_comments`, made into a writer over an empty `Vec<u8>` by `create_writer`.
/// Trusted: the writer holds that configuration and no events.
#[verifier::external_body]
pub(crate) fn xml_writer_new(declaration: bool, autopad: bool) -> (w: xml::writer::EventWriter<Vec<u8>>)
    ensures
        xml_writer_state(w) == (XmlWriterView {
            document_declaration: declaration,
            autopad_comments: autopad,
            events: Seq::empty(),
        }),
{
    xml::writer::EmitterConfig::new()
        .write_document_declaration(declaration)
        .autopad_comments(autopad)
        .create_writer(Vec::new())
}

/// `xml::writer::XmlEvent::start_element(name)`. Trusted: the builder holds that name and no
/// attributes or namespace bindings (its namespace is `Namespace::empty()`).
#[verifier::external_body]
pub(crate) fn xml_start_element<'a>(name: &'a str) -> (b: xml::writer::events::StartElementBuilder<'a>)
    ensures
        xml_pending(b) == (name@, Seq::<(Seq<char>, Seq<char>)>::empty(), Map::<Seq<char>, Seq<char>>::empty()),
{
    xml::writer::XmlEvent::start_element(name)
}

/// `StartElementBuilder::ns(prefix, uri)`, which calls `Namespace::put`. Trusted: the builder's
/// bindings (a map keyed by prefix) gain `prefix` bound to `uri` where `prefix` was not bound
/// yet, and are left unchanged where it was; name and attributes stay.
#[verifier::external_body]
pub(crate) fn xml_builder_ns<'a>(b: xml::writer::events::StartElementBuilder<'a>, prefix: &str, uri: &str) -> (r: xml::writer::events::StartElementBuilder<'a>)
    ensures
        xml_pending(r) == (xml_pending(b).0, xml_pending(b).1, bind_if_absent(xml_pending(b).2, prefix@, uri@)),
{
    b.ns(prefix, uri)
}

/// `StartElementBuilder::attr(name, value)`. Trusted: the attribute is added after the others.
#[verifier::external_body]
pub(crate) fn xml_builder_attr<'a>(b: xml::writer::events::StartElementBuilder<'a>, name: &'a str, value: &'a str) -> (r: xml::writer::events::StartElementBuilder<'a>)
    ensures
        xml_pending(r) == (xml_pending(b).0, xml_pending(b).1.push((name@, value@)), xml_pending(b).2),
{
    b.attr(name, value)
}

/// `EventWriter::write` of the start element that the builder holds. Trusted: writing into
/// a `Vec<u8>` cannot fail (the writer's only failures for a start element are I/O errors),
/// and the opening tag is recorded after the events written before.
#[verifier::external_body]
pub(crate) fn xml_write_start(w: &mut xml::writer::EventWriter<Vec<u8>>, b: xml::writer::events::StartElementBuilder<'_>) -> (r: Result<(), xml::writer::Error>)
    ensures
        r is Ok,
        xml_writer_state(*final(w)) == (XmlWriterView {
            events: xml_writer_state(*old(w)).events.push(
                MarkupView::Open {
                    name: xml_pending(b).0,
                    attributes: xml_pending(b).1,
                    namespaces: xml_pending(b).2,
                },
            ),
            ..xml_writer_state(*old(w))
        }),
{
    w.write(b)
}

/// `EventWriter::write` of `XmlEvent::characters(text)`. Trusted: writing into a `Vec<u8>`
/// cannot fail, and the text is recorded after the events written before.
#[verifier::external_body]
pub(crate) fn xml_write_characters(w: &mut xml::writer::EventWriter<Vec<u8>>, text: &str) -> (r: Result<(), xml::writer::Error>)
    ensures
        r is Ok,
        xml_writer_state(*final(w)) == (XmlWriterView {
            events: xml_writer_state(*old(w)).events.push(MarkupView::Text(text@)),
            ..xml_writer_state(*old(w))
        }),
{
    w.write(xml::writer::XmlEvent::characters(text))
}

/// `EventWriter::write` of `XmlEvent::comment(text)`. Trusted: writing into a `Vec<u8>`
/// cannot fail (the writer's only failures for a comment are I/O errors), and the comment is
/// recorded after the events written before.
#[verifier::external_body]
pub(crate) fn xml_write_comment(w: &mut xml::writer::EventWriter<Vec<u8>>, text: &str) -> (r: Result<(), xml::writer::Error>)
    ensures
        r is Ok,
        xml_writer_state(*final(w)) == (XmlWriterView {
            events: xml_writer_state(*old(w)).events.push(MarkupView::Comment(text@)),
            ..xml_writer_state(*old(w))
        }),
{
    w.write(xml::writer::XmlEvent::comment(text))
}

/// `EventWriter::write` of `XmlEvent::end_element()`, which closes the innermost open
/// element. Trusted: into a `Vec<u8>` this fails exactly when no element is open (the
/// writer keeps the names of open elements); on success the closing tag is recorded after
/// the events written before.
#[verifier::external_body]
pub(crate) fn xml_write_end(w: &mut xml::writer::EventWriter<Vec<u8>>) -> (r: Result<(), xml::writer::Error>)
    ensures
        r is Ok <==> open_depth(xml_writer_state(*old(w)).events) > 0,
        r is Ok ==> xml_writer_state(*final(w)) == (XmlWriterView {
            events: xml_writer_state(*old(w)).events.push(MarkupView::Close),
            ..xml_writer_state(*old(w))
        }),
{
    w.write(xml::writer::XmlEvent::end_element())
}

/// `EventWriter::into_inner`. Trusted: the bytes are `xml_document` of what was written, and
/// they are UTF-8 (the writer only ever writes `str` data).
#[verifier::external_body]
pub(crate) fn xml_into_bytes(w: xml::writer::EventWriter<Vec<u8>>) -> (bytes: Vec<u8>)
    ensures
        bytes@ == xml_document(xml_writer_state(w)),
        vstd::utf8::valid_utf8(bytes@),
{
    w.into_inner()
}

} // verus!

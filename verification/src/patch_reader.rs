//! Reading MPD Patch documents from the tokens of the XML reader.
use vstd::prelude::*;

use crate::dom::{attr_key, opt_view};
use crate::error::{result_is, Error, ErrorKind};
use crate::text::{chars_of, push_all, push_str, string_of, string_of_range, text_is, trim, trim_range};
use crate::types::{PatchAction, PatchDocument, PatchDocumentV, PatchOperation, PatchOperationV, PatchPosition};
use crate::xml_io::{read_xml, tokens_view, xml_tokens, TokenV, XmlAttr, XmlAttrV, XmlToken};

verus! {

/// The value of the last attribute of `attrs` whose local name is `name`
/// (a later attribute of the same name overrides an earlier one).
pub open spec fn last_attr(attrs: Seq<XmlAttrV>, name: Seq<char>) -> Option<Seq<char>>
    decreases attrs.len(),
{
    if attrs.len() == 0 {
        None
    } else if attrs.last().local_name == name {
        Some(attrs.last().value)
    } else {
        last_attr(attrs.drop_last(), name)
    }
}

/// The operation that an element of a patch names.
pub open spec fn action_of(name: Seq<char>) -> Option<PatchAction> {
    if name == "add"@ {
        Some(PatchAction::Add)
    } else if name == "remove"@ {
        Some(PatchAction::Remove)
    } else if name == "replace"@ {
        Some(PatchAction::Replace)
    } else {
        None
    }
}

/// The position that a `pos` attribute names; an unknown value names none.
pub open spec fn position_of(v: Seq<char>) -> Option<PatchPosition> {
    if v == "before"@ {
        Some(PatchPosition::Before)
    } else if v == "after"@ {
        Some(PatchPosition::After)
    } else if v == "prepend"@ {
        Some(PatchPosition::Prepend)
    } else {
        None
    }
}

/// The position of an operation with the attributes `attrs`.
pub open spec fn position_attr(attrs: Seq<XmlAttrV>) -> Option<PatchPosition> {
    match last_attr(attrs, "pos"@) {
        Some(v) => position_of(v),
        None => None,
    }
}

/// The selector of an operation: its `sel`, and, when its `type` names an
/// attribute (`@name`), that attribute as a last step.
pub open spec fn selector_of(sel: Seq<char>, ty: Option<Seq<char>>) -> Seq<char> {
    match ty {
        Some(t) => if t.len() > 0 && t[0] == '@' {
            sel + seq!['/'] + t
        } else {
            sel
        },
        None => sel,
    }
}

/// How one character is written inside a double-quoted attribute value.
pub open spec fn escape_char(c: char) -> Seq<char> {
    if c == '&' {
        seq!['&', 'a', 'm', 'p', ';']
    } else if c == '"' {
        seq!['&', 'q', 'u', 'o', 't', ';']
    } else if c == '<' {
        seq!['&', 'l', 't', ';']
    } else if c == '>' {
        seq!['&', 'g', 't', ';']
    } else {
        seq![c]
    }
}

/// `s` with `&`, `"`, `<` and `>` written as character references.
pub open spec fn escape_attr(s: Seq<char>) -> Seq<char>
    decreases s.len(),
{
    if s.len() == 0 {
        seq![]
    } else {
        escape_attr(s.drop_last()) + escape_char(s.last())
    }
}

/// The attributes of a start tag as written back: ` name="value"` each.
pub open spec fn attrs_text(a: Seq<XmlAttrV>) -> Seq<char>
    decreases a.len(),
{
    if a.len() == 0 {
        seq![]
    } else {
        attrs_text(a.drop_last()) + seq![' '] + attr_key(a.last()) + seq!['=', '"'] + escape_attr(
            a.last().value,
        ) + seq!['"']
    }
}

pub open spec fn open_tag(n: Seq<char>, a: Seq<XmlAttrV>) -> Seq<char> {
    seq!['<'] + n + attrs_text(a) + seq!['>']
}

pub open spec fn close_tag(n: Seq<char>) -> Seq<char> {
    seq!['<', '/'] + n + seq!['>']
}

/// The value that an element's content gives: trimmed, and none when there
/// was no content or only white space.
pub open spec fn finished(content: Seq<char>, has: bool) -> Option<Seq<char>> {
    if has && trim(content).len() > 0 {
        Some(trim(content))
    } else {
        None
    }
}

pub open spec fn opt_text(o: Option<Seq<char>>) -> Seq<char> {
    match o {
        Some(s) => s,
        None => seq![],
    }
}

/// An element whose content is being read: its name, the content so far,
/// and whether it has had any.
pub type FrameV = (Seq<char>, Seq<char>, bool);

/// `frames` with `s` appended to the content of the innermost one.
pub open spec fn append_top(frames: Seq<FrameV>, s: Seq<char>, has: bool) -> Seq<FrameV> {
    let top = frames.last();
    frames.update(frames.len() - 1, (top.0, top.1 + s, top.2 || has))
}

/// The innermost element of `frames` ends, the next token being `t[j]`: its
/// value, when it is the outermost, or else the reading goes on with it
/// written into its parent.
pub open spec fn value_scan(t: Seq<TokenV>, i: int, frames: Seq<FrameV>) -> Result<(Option<Seq<char>>, int), ErrorKind>
    decreases t.len() - i, frames.len(),
{
    if frames.len() == 0 || i < 0 || i > t.len() {
        Err(ErrorKind::Xml)
    } else {
        let top = frames.last();
        let v = finished(top.1, top.2);
        if i == t.len() || t[i] is EndDocument {
            if frames.len() == 1 {
                Ok((v, i))
            } else {
                value_scan(t, i, append_top(frames.drop_last(), opt_text(v) + close_tag(top.0), false))
            }
        } else {
            match t[i] {
                TokenV::Error => Err(ErrorKind::Xml),
                TokenV::Start(n, _, a) => value_scan(
                    t,
                    i + 1,
                    append_top(frames, open_tag(n, a), true).push((n, seq![], false)),
                ),
                TokenV::Characters(s) => value_scan(t, i + 1, append_top(frames, s, true)),
                TokenV::CData(s) => value_scan(t, i + 1, append_top(frames, s, true)),
                TokenV::End(n) => if n == top.0 {
                    if frames.len() == 1 {
                        Ok((v, i + 1))
                    } else {
                        value_scan(
                            t,
                            i + 1,
                            append_top(frames.drop_last(), opt_text(v) + close_tag(top.0), false),
                        )
                    }
                } else {
                    value_scan(t, i + 1, frames)
                },
                _ => value_scan(t, i + 1, frames),
            }
        }
    }
}

/// Where the reading goes on after skipping the rest of an element, `depth`
/// elements being open: after the end tag that closes them, or at the end
/// of the document.
pub open spec fn skip_scan(t: Seq<TokenV>, i: int, depth: nat) -> Result<int, ErrorKind>
    decreases t.len() - i,
{
    if i < 0 || i > t.len() {
        Err(ErrorKind::Xml)
    } else if i == t.len() {
        Ok(i)
    } else {
        match t[i] {
            TokenV::Error => Err(ErrorKind::Xml),
            TokenV::Start(..) => skip_scan(t, i + 1, depth + 1),
            TokenV::End(_) => if depth <= 1 {
                Ok(i + 1)
            } else {
                skip_scan(t, i + 1, (depth - 1) as nat)
            },
            TokenV::EndDocument => Ok(i),
            _ => skip_scan(t, i + 1, depth),
        }
    }
}

pub proof fn lemma_value_scan_pos(t: Seq<TokenV>, i: int, frames: Seq<FrameV>)
    ensures
        value_scan(t, i, frames) matches Ok((_, j)) ==> i <= j <= t.len(),
    decreases t.len() - i, frames.len(),
{
    if frames.len() == 0 || i < 0 || i > t.len() {
    } else {
        let top = frames.last();
        let v = finished(top.1, top.2);
        if i == t.len() || t[i] is EndDocument {
            if frames.len() > 1 {
                lemma_value_scan_pos(t, i, append_top(frames.drop_last(), opt_text(v) + close_tag(top.0), false));
            }
        } else {
            match t[i] {
                TokenV::Start(n, _, a) => lemma_value_scan_pos(
                    t,
                    i + 1,
                    append_top(frames, open_tag(n, a), true).push((n, seq![], false)),
                ),
                TokenV::Characters(s) => lemma_value_scan_pos(t, i + 1, append_top(frames, s, true)),
                TokenV::CData(s) => lemma_value_scan_pos(t, i + 1, append_top(frames, s, true)),
                TokenV::End(n) => if n == top.0 {
                    if frames.len() > 1 {
                        lemma_value_scan_pos(
                            t,
                            i + 1,
                            append_top(frames.drop_last(), opt_text(v) + close_tag(top.0), false),
                        );
                    }
                } else {
                    lemma_value_scan_pos(t, i + 1, frames);
                },
                TokenV::Error => {},
                _ => lemma_value_scan_pos(t, i + 1, frames),
            }
        }
    }
}

pub proof fn lemma_skip_scan_pos(t: Seq<TokenV>, i: int, depth: nat)
    ensures
        skip_scan(t, i, depth) matches Ok(j) ==> i <= j <= t.len(),
    decreases t.len() - i,
{
    if 0 <= i < t.len() {
        match t[i] {
            TokenV::Start(..) => lemma_skip_scan_pos(t, i + 1, depth + 1),
            TokenV::End(_) => if depth > 1 {
                lemma_skip_scan_pos(t, i + 1, (depth - 1) as nat);
            },
            TokenV::Error => {},
            TokenV::EndDocument => {},
            _ => lemma_skip_scan_pos(t, i + 1, depth),
        }
    }
}

/// The operation that the start tag `add`, `remove` or `replace` with the
/// attributes `a` begins, its value being `v`.
pub open spec fn operation_of(act: PatchAction, sel: Seq<char>, a: Seq<XmlAttrV>, v: Option<Seq<char>>) -> PatchOperationV {
    PatchOperationV {
        action: act,
        selector: selector_of(sel, last_attr(a, "type"@)),
        position: position_attr(a),
        value: v,
    }
}

/// The operations of a patch read from `t[i..]`, after the operations `ops`:
/// up to the end tag of `Patch` or the end of the document. An element
/// that names no operation is skipped whole.
pub open spec fn ops_scan(t: Seq<TokenV>, i: int, ops: Seq<PatchOperationV>) -> Result<Seq<PatchOperationV>, ErrorKind>
    decreases t.len() - i,
{
    if i < 0 || i > t.len() {
        Err(ErrorKind::Xml)
    } else if i == t.len() {
        Ok(ops)
    } else {
        match t[i] {
            TokenV::Error => Err(ErrorKind::Xml),
            TokenV::EndDocument => Ok(ops),
            TokenV::End(n) => if n == "Patch"@ {
                Ok(ops)
            } else {
                ops_scan(t, i + 1, ops)
            },
            TokenV::Start(n, _, a) => match action_of(n) {
                None => {
                    proof {
                        lemma_skip_scan_pos(t, i + 1, 1);
                    }
                    match skip_scan(t, i + 1, 1) {
                        Ok(j) => ops_scan(t, j, ops),
                        Err(k) => Err(k),
                    }
                },
                Some(act) => match last_attr(a, "sel"@) {
                    None => Err(
                        ErrorKind::MissingAttribute { element: "patch operation", attribute: "sel" },
                    ),
                    Some(sel) => {
                        proof {
                            lemma_value_scan_pos(t, i + 1, seq![(n, seq![], false)]);
                        }
                        match value_scan(t, i + 1, seq![(n, seq![], false)]) {
                            Ok((v, j)) => ops_scan(t, j, ops.push(operation_of(act, sel, a, v))),
                            Err(k) => Err(k),
                        }
                    },
                },
            },
            _ => ops_scan(t, i + 1, ops),
        }
    }
}

/// The attributes of the first `Patch` start tag in `t[i..]`, and where the
/// reading goes on after it.
pub open spec fn find_root(t: Seq<TokenV>, i: int) -> Result<(Seq<XmlAttrV>, int), ErrorKind>
    decreases t.len() - i,
{
    if i < 0 || i > t.len() {
        Err(ErrorKind::Xml)
    } else if i == t.len() {
        Err(ErrorKind::PatchFailed)
    } else {
        match t[i] {
            TokenV::Error => Err(ErrorKind::Xml),
            TokenV::EndDocument => Err(ErrorKind::PatchFailed),
            TokenV::Start(n, _, a) => if n == "Patch"@ {
                Ok((a, i + 1))
            } else {
                find_root(t, i + 1)
            },
            _ => find_root(t, i + 1),
        }
    }
}

/// The patch document that the reader tokens `t` hold.
pub open spec fn patch_of_tokens(t: Seq<TokenV>) -> Result<PatchDocumentV, ErrorKind> {
    match find_root(t, 0) {
        Err(k) => Err(k),
        Ok((a, i)) => match (
            last_attr(a, "mpdId"@),
            last_attr(a, "originalPublishTime"@),
            last_attr(a, "publishTime"@),
        ) {
            (None, _, _) => Err(ErrorKind::MissingAttribute { element: "Patch", attribute: "mpdId" }),
            (_, None, _) => Err(
                ErrorKind::MissingAttribute { element: "Patch", attribute: "originalPublishTime" },
            ),
            (_, _, None) => Err(
                ErrorKind::MissingAttribute { element: "Patch", attribute: "publishTime" },
            ),
            (Some(id), Some(opt), Some(pt)) => match ops_scan(t, i, seq![]) {
                Ok(ops) => Ok(
                    PatchDocumentV {
                        mpd_id: id,
                        original_publish_time: opt,
                        publish_time: pt,
                        operations: ops,
                    },
                ),
                Err(k) => Err(k),
            },
        },
    }
}

/// The patch document of the XML text `input`.
pub open spec fn patch_of(input: Seq<char>) -> Result<PatchDocumentV, ErrorKind> {
    patch_of_tokens(xml_tokens(input))
}

pub open spec fn attrs_v(a: Seq<XmlAttr>) -> Seq<XmlAttrV> {
    a.map_values(|x: XmlAttr| x@)
}

/// Appends `s` to `out` with `&`, `"`, `<` and `>` escaped.
fn push_escaped(out: &mut Vec<char>, s: &str)
    ensures
        final(out)@ == old(out)@ + escape_attr(s@),
{
    let v = chars_of(s);
    let mut i: usize = 0;
    while i < v.len()
        invariant
            i <= v@.len(),
            v@ == s@,
            out@ == old(out)@ + escape_attr(v@.take(i as int)),
        decreases v.len() - i,
    {
        let c = v[i];
        if c == '&' {
            push_str(out, "&amp;");
            proof { reveal_strlit("&amp;"); }
        } else if c == '"' {
            push_str(out, "&quot;");
            proof { reveal_strlit("&quot;"); }
        } else if c == '<' {
            push_str(out, "&lt;");
            proof { reveal_strlit("&lt;"); }
        } else if c == '>' {
            push_str(out, "&gt;");
            proof { reveal_strlit("&gt;"); }
        } else {
            out.push(c);
        }
        assert(v@.take(i + 1).drop_last() =~= v@.take(i as int));
        i = i + 1;
        assert(out@ =~= old(out)@ + escape_attr(v@.take(i as int)));
    }
    assert(v@.take(i as int) =~= s@);
}

/// `s` escaped for a double-quoted XML attribute value.
pub fn escape_xml_attr(s: &str) -> (r: String)
    ensures
        r@ == escape_attr(s@),
{
    let mut out: Vec<char> = Vec::new();
    push_escaped(&mut out, s);
    assert(out@ =~= escape_attr(s@));
    string_of(&out)
}

/// The value of the last attribute of `a` whose local name is `name`.
fn last_attribute(a: &Vec<XmlAttr>, name: &str) -> (r: Option<String>)
    ensures
        opt_view(r) == last_attr(attrs_v(a@), name@),
{
    let mut found: Option<String> = None;
    let mut k: usize = 0;
    while k < a.len()
        invariant
            k <= a@.len(),
            opt_view(found) == last_attr(attrs_v(a@).take(k as int), name@),
        decreases a.len() - k,
    {
        let ghost av = attrs_v(a@);
        assert(av.take(k + 1).drop_last() =~= av.take(k as int));
        if text_is(a[k].local_name.as_str(), name) {
            found = Some(a[k].value.clone());
        }
        k = k + 1;
    }
    assert(attrs_v(a@).take(k as int) =~= attrs_v(a@));
    found
}

/// Appends the attributes of a start tag to `out`, as `attrs_text` writes them.
fn push_attrs_text(out: &mut Vec<char>, a: &Vec<XmlAttr>)
    ensures
        final(out)@ == old(out)@ + attrs_text(attrs_v(a@)),
{
    let mut k: usize = 0;
    while k < a.len()
        invariant
            k <= a@.len(),
            out@ == old(out)@ + attrs_text(attrs_v(a@).take(k as int)),
        decreases a.len() - k,
    {
        let ghost av = attrs_v(a@);
        assert(av.take(k + 1).drop_last() =~= av.take(k as int));
        let ghost before = out@;
        out.push(' ');
        match &a[k].prefix {
            Some(p) => {
                push_str(out, p.as_str());
                out.push(':');
            },
            None => {},
        }
        push_str(out, a[k].local_name.as_str());
        out.push('=');
        out.push('"');
        push_escaped(out, a[k].value.as_str());
        out.push('"');
        assert(out@ =~= before + seq![' '] + attr_key(av[k as int]) + seq!['=', '"'] + escape_attr(
            av[k as int].value,
        ) + seq!['"']);
        k = k + 1;
    }
    assert(attrs_v(a@).take(k as int) =~= attrs_v(a@));
}

pub open spec fn skip_is(r: Result<usize, Error>, s: Result<int, ErrorKind>) -> bool {
    match (r, s) {
        (Ok(j), Ok(k)) => j == k,
        (Err(e), Err(k)) => e.spec_kind() == k,
        _ => false,
    }
}

/// The message that the patch reader gives an error of each kind: a missing
/// attribute and a missing root element each have a fixed text. An error of
/// the XML reader keeps the text that the reader gave, which nothing states.
pub open spec fn patch_message_ok(e: Error) -> bool {
    let k = e.spec_kind();
    let m = e.spec_message();
    if k == (ErrorKind::MissingAttribute { element: "patch operation", attribute: "sel" }) {
        m == "sel attribute is required on patch operations"@
    } else if k == (ErrorKind::MissingAttribute { element: "Patch", attribute: "mpdId" }) {
        m == "mpdId attribute is required on <Patch>"@
    } else if k == (ErrorKind::MissingAttribute { element: "Patch", attribute: "originalPublishTime" }) {
        m == "originalPublishTime attribute is required on <Patch>"@
    } else if k == (ErrorKind::MissingAttribute { element: "Patch", attribute: "publishTime" }) {
        m == "publishTime attribute is required on <Patch>"@
    } else if k == ErrorKind::PatchFailed {
        m == "Patch root element not found"@
    } else {
        k == ErrorKind::Xml
    }
}

/// Skips the rest of an element whose start tag was `t[start - 1]`: returns
/// where the reading goes on.
pub fn skip_dom_element(t: &Vec<XmlToken>, start: usize) -> (r: Result<usize, Error>)
    requires
        1 <= start <= t.len(),
    ensures
        skip_is(r, skip_scan(tokens_view(t@), start as int, 1)),
        r matches Err(e) ==> e.spec_kind() == ErrorKind::Xml,
{
    let ghost tv = tokens_view(t@);
    let mut depth: usize = 1;
    let mut i = start;
    while i < t.len()
        invariant
            start <= i <= t@.len(),
            1 <= depth <= i,
            tv == tokens_view(t@),
            skip_scan(tv, i as int, depth as nat) == skip_scan(tv, start as int, 1),
        decreases t.len() - i,
    {
        assert(tv[i as int] == t@[i as int]@);
        match &t[i] {
            XmlToken::Error(m) => {
                return Err(Error::with_text(ErrorKind::Xml, m.as_str()));
            },
            XmlToken::Start(..) => {
                depth = depth + 1;
            },
            XmlToken::End(_) => {
                if depth == 1 {
                    return Ok(i + 1);
                }
                depth = depth - 1;
            },
            XmlToken::EndDocument => {
                return Ok(i);
            },
            _ => {},
        }
        i = i + 1;
    }
    Ok(i)
}

/// An element whose content is being read.
struct Frame {
    name: String,
    content: Vec<char>,
    has: bool,
}

spec fn frames_v(s: Seq<Frame>) -> Seq<FrameV> {
    s.map_values(|f: Frame| (f.name@, f.content@, f.has))
}

/// Appends `s` to the content of the innermost frame.
fn append_to_top(frames: &mut Vec<Frame>, s: &Vec<char>, has: bool)
    requires
        old(frames)@.len() > 0,
    ensures
        frames_v(final(frames)@) == append_top(frames_v(old(frames)@), s@, has),
        final(frames)@.len() == old(frames)@.len(),
{
    let ghost fv = frames_v(frames@);
    let mut top = frames.pop().unwrap();
    push_all(&mut top.content, s);
    top.has = top.has || has;
    frames.push(top);
    assert(frames_v(frames@) =~= append_top(fv, s@, has));
}

/// The value that a frame's content gives.
fn finish_value(f: &Frame) -> (r: Option<String>)
    ensures
        opt_view(r) == finished(f.content@, f.has),
{
    if !f.has {
        return None;
    }
    let (a, b) = trim_range(&f.content, 0, f.content.len());
    assert(f.content@.subrange(0, f.content@.len() as int) =~= f.content@);
    if a == b {
        None
    } else {
        Some(string_of_range(&f.content, a, b))
    }
}

/// Ends the innermost frame: its value when it was the outermost, or else
/// nothing, the value and the end tag being appended to its parent.
fn close_frame(frames: &mut Vec<Frame>) -> (r: Option<Option<String>>)
    requires
        old(frames)@.len() > 0,
    ensures
        ({
            let fv = frames_v(old(frames)@);
            let top = fv.last();
            let v = finished(top.1, top.2);
            &&& fv.len() == 1 ==> (r matches Some(x) && opt_view(x) == v)
            &&& fv.len() > 1 ==> (r is None && frames_v(final(frames)@) == append_top(
                fv.drop_last(),
                opt_text(v) + close_tag(top.0),
                false,
            ) && final(frames)@.len() == fv.len() - 1)
        }),
{
    let ghost fv = frames_v(frames@);
    let top = frames.pop().unwrap();
    assert(frames_v(frames@) =~= fv.drop_last());
    let v = finish_value(&top);
    if frames.len() == 0 {
        return Some(v);
    }
    let mut tail: Vec<char> = Vec::new();
    match &v {
        Some(s) => push_str(&mut tail, s.as_str()),
        None => {},
    }
    tail.push('<');
    tail.push('/');
    push_str(&mut tail, top.name.as_str());
    tail.push('>');
    assert(tail@ =~= opt_text(opt_view(v)) + close_tag(top.name@));
    append_to_top(frames, &tail, false);
    None
}

pub open spec fn value_read_is(
    r: Result<(Option<String>, usize), Error>,
    s: Result<(Option<Seq<char>>, int), ErrorKind>,
) -> bool {
    match (r, s) {
        (Ok((v, j)), Ok((w, k))) => opt_view(v) == w && j == k,
        (Err(e), Err(k)) => e.spec_kind() == k,
        _ => false,
    }
}

/// Reads the value of a patch operation whose start tag, named `end_name`,
/// was `t[start - 1]`: its child elements written back as XML and its text,
/// trimmed; returns it with where the reading goes on.
fn read_operation_value(t: &Vec<XmlToken>, start: usize, end_name: &String) -> (r: Result<(Option<String>, usize), Error>)
    requires
        start <= t.len(),
    ensures
        r matches Err(e) ==> patch_message_ok(e),
        value_read_is(r, value_scan(tokens_view(t@), start as int, seq![(end_name@, seq![], false)])),
{
    let ghost tv = tokens_view(t@);
    let ghost init: Seq<FrameV> = seq![(end_name@, seq![], false)];
    let mut frames: Vec<Frame> = Vec::new();
    frames.push(Frame { name: end_name.clone(), content: Vec::new(), has: false });
    assert(frames_v(frames@) =~= init);
    let mut i = start;
    loop
        invariant
            i <= t@.len(),
            frames@.len() >= 1,
            tv == tokens_view(t@),
            init == seq![(end_name@, Seq::<char>::empty(), false)],
            value_scan(tv, i as int, frames_v(frames@)) == value_scan(tv, start as int, init),
        decreases t@.len() - i, frames@.len(),
    {
        let ghost fv = frames_v(frames@);
        let at_end = i == t.len() || matches!(t[i], XmlToken::EndDocument);
        if i < t.len() {
            assert(tv[i as int] == t@[i as int]@);
        }
        let closes = if at_end {
            true
        } else {
            match &t[i] {
                XmlToken::End(n) => n.eq(&frames[frames.len() - 1].name),
                _ => false,
            }
        };
        if closes {
            let next = if at_end { i } else { i + 1 };
            proof {
                if !at_end {
                    assert(tv[i as int] matches TokenV::End(n) && n == fv.last().0);
                }
            }
            match close_frame(&mut frames) {
                Some(v) => {
                    return Ok((v, next));
                },
                None => {},
            }
            i = next;
        } else {
            match &t[i] {
                XmlToken::Error(m) => {
                    return Err(Error::with_text(ErrorKind::Xml, m.as_str()));
                },
                XmlToken::Start(n, _, a) => {
                    let mut open: Vec<char> = Vec::new();
                    open.push('<');
                    push_str(&mut open, n.as_str());
                    push_attrs_text(&mut open, a);
                    open.push('>');
                    assert(open@ =~= open_tag(n@, attrs_v(a@)));
                    append_to_top(&mut frames, &open, true);
                    let ghost fv2 = frames_v(frames@);
                    frames.push(Frame { name: n.clone(), content: Vec::new(), has: false });
                    assert(frames_v(frames@) =~= fv2.push((n@, seq![], false)));
                },
                XmlToken::Characters(s) | XmlToken::CData(s) => {
                    let c = chars_of(s.as_str());
                    append_to_top(&mut frames, &c, true);
                },
                _ => {},
            }
            i = i + 1;
        }
    }
}

/// The operation named by an element of a patch.
fn action_named(n: &str) -> (r: Option<PatchAction>)
    ensures
        r == action_of(n@),
{
    if text_is(n, "add") {
        Some(PatchAction::Add)
    } else if text_is(n, "remove") {
        Some(PatchAction::Remove)
    } else if text_is(n, "replace") {
        Some(PatchAction::Replace)
    } else {
        None
    }
}

/// The position given by the `pos` attribute among `a`.
fn position_attribute(a: &Vec<XmlAttr>) -> (r: Option<PatchPosition>)
    ensures
        r == position_attr(attrs_v(a@)),
{
    match last_attribute(a, "pos") {
        Some(v) => if text_is(v.as_str(), "before") {
            Some(PatchPosition::Before)
        } else if text_is(v.as_str(), "after") {
            Some(PatchPosition::After)
        } else if text_is(v.as_str(), "prepend") {
            Some(PatchPosition::Prepend)
        } else {
            None
        },
        None => None,
    }
}

/// The selector of an operation from its `sel` and `type` attributes.
fn selector_text(sel: String, ty: &Option<String>) -> (r: String)
    ensures
        r@ == selector_of(sel@, opt_view(*ty)),
{
    match ty {
        Some(t) => {
            let tc = chars_of(t.as_str());
            if tc.len() > 0 && tc[0] == '@' {
                let mut v = chars_of(sel.as_str());
                v.push('/');
                push_all(&mut v, &tc);
                string_of(&v)
            } else {
                sel
            }
        },
        None => sel,
    }
}

pub open spec fn ops_v(ops: Seq<PatchOperation>) -> Seq<PatchOperationV> {
    ops.map_values(|o: PatchOperation| o@)
}

pub open spec fn ops_read_is(r: Result<Vec<PatchOperation>, Error>, s: Result<Seq<PatchOperationV>, ErrorKind>) -> bool {
    match (r, s) {
        (Ok(ops), Ok(w)) => ops_v(ops@) == w,
        (Err(e), Err(k)) => e.spec_kind() == k,
        _ => false,
    }
}

/// Reads the operations of a patch from `t[start..]`.
fn read_operations(t: &Vec<XmlToken>, start: usize) -> (r: Result<Vec<PatchOperation>, Error>)
    requires
        start <= t.len(),
    ensures
        r matches Err(e) ==> patch_message_ok(e),
        ops_read_is(r, ops_scan(tokens_view(t@), start as int, seq![])),
{
    let ghost tv = tokens_view(t@);
    let mut ops: Vec<PatchOperation> = Vec::new();
    let mut i = start;
    assert(ops_v(ops@) =~= Seq::<PatchOperationV>::empty());
    while i < t.len()
        invariant
            i <= t@.len(),
            tv == tokens_view(t@),
            ops_scan(tv, i as int, ops_v(ops@)) == ops_scan(tv, start as int, seq![]),
        decreases t@.len() - i,
    {
        assert(tv[i as int] == t@[i as int]@);
        match &t[i] {
            XmlToken::Error(m) => {
                return Err(Error::with_text(ErrorKind::Xml, m.as_str()));
            },
            XmlToken::EndDocument => {
                return Ok(ops);
            },
            XmlToken::End(n) => {
                if text_is(n.as_str(), "Patch") {
                    return Ok(ops);
                }
                i = i + 1;
            },
            XmlToken::Start(n, _, a) => {
                match action_named(n.as_str()) {
                    None => {
                        proof {
                            lemma_skip_scan_pos(tv, i + 1, 1);
                        }
                        match skip_dom_element(t, i + 1) {
                            Ok(k) => {
                                i = k;
                            },
                            Err(e) => {
                                return Err(e);
                            },
                        }
                    },
                    Some(act) => {
                        let sel = match last_attribute(a, "sel") {
                            Some(s) => s,
                            None => {
                                return Err(
                                    Error::with_text(
                                        ErrorKind::MissingAttribute {
                                            element: "patch operation",
                                            attribute: "sel",
                                        },
                                        "sel attribute is required on patch operations",
                                    ),
                                );
                            },
                        };
                        let ty = last_attribute(a, "type");
                        let position = position_attribute(a);
                        let selector = selector_text(sel, &ty);
                        proof {
                            lemma_value_scan_pos(tv, i + 1, seq![(n@, seq![], false)]);
                        }
                        match read_operation_value(t, i + 1, n) {
                            Ok((value, k)) => {
                                let op = PatchOperation { action: act, selector, position, value };
                                let ghost before = ops_v(ops@);
                                ops.push(op);
                                assert(ops_v(ops@) =~= before.push(op@));
                                i = k;
                            },
                            Err(e) => {
                                return Err(e);
                            },
                        }
                    },
                }
            },
            _ => {
                i = i + 1;
            },
        }
    }
    Ok(ops)
}

/// The index of the first `Patch` start tag among the reader tokens `t`.
fn find_patch_root(t: &Vec<XmlToken>) -> (r: Result<usize, Error>)
    ensures
        r matches Err(e) ==> patch_message_ok(e),
        match r {
            Ok(j) => j < t@.len() && j + 1 <= usize::MAX && (t@[j as int]@ matches TokenV::Start(_, _, a) && find_root(
                tokens_view(t@),
                0,
            ) == Ok::<(Seq<XmlAttrV>, int), ErrorKind>((a, j + 1))),
            Err(e) => find_root(tokens_view(t@), 0) == Err::<(Seq<XmlAttrV>, int), ErrorKind>(
                e.spec_kind(),
            ),
        },
{
    let ghost tv = tokens_view(t@);
    let mut i: usize = 0;
    while i < t.len()
        invariant
            i <= t@.len(),
            tv == tokens_view(t@),
            find_root(tv, i as int) == find_root(tv, 0),
        decreases t@.len() - i,
    {
        assert(tv[i as int] == t@[i as int]@);
        match &t[i] {
            XmlToken::Error(m) => {
                return Err(Error::with_text(ErrorKind::Xml, m.as_str()));
            },
            XmlToken::EndDocument => {
                return Err(Error::with_text(ErrorKind::PatchFailed, "Patch root element not found"));
            },
            XmlToken::Start(n, _, _) => {
                if text_is(n.as_str(), "Patch") {
                    return Ok(i);
                }
            },
            _ => {},
        }
        i = i + 1;
    }
    Err(Error::with_text(ErrorKind::PatchFailed, "Patch root element not found"))
}

/// Reads a patch document from the tokens of the XML reader.
pub fn parse_patch_tokens(t: &Vec<XmlToken>) -> (r: Result<PatchDocument, Error>)
    ensures
        r matches Err(e) ==> patch_message_ok(e),
        result_is(r, patch_of_tokens(tokens_view(t@))),
{
    let j = match find_patch_root(t) {
        Ok(j) => j,
        Err(e) => {
            return Err(e);
        },
    };
    let attrs = match &t[j] {
        XmlToken::Start(_, _, a) => a,
        _ => {
            proof {
                assert(false);
            }
            return Err(Error::with_text(ErrorKind::PatchFailed, "Patch root element not found"));
        },
    };
    let mpd_id = match last_attribute(attrs, "mpdId") {
        Some(v) => v,
        None => {
            return Err(
                Error::with_text(
                    ErrorKind::MissingAttribute { element: "Patch", attribute: "mpdId" },
                    "mpdId attribute is required on <Patch>",
                ),
            );
        },
    };
    let original_publish_time = match last_attribute(attrs, "originalPublishTime") {
        Some(v) => v,
        None => {
            return Err(
                Error::with_text(
                    ErrorKind::MissingAttribute { element: "Patch", attribute: "originalPublishTime" },
                    "originalPublishTime attribute is required on <Patch>",
                ),
            );
        },
    };
    let publish_time = match last_attribute(attrs, "publishTime") {
        Some(v) => v,
        None => {
            return Err(
                Error::with_text(
                    ErrorKind::MissingAttribute { element: "Patch", attribute: "publishTime" },
                    "publishTime attribute is required on <Patch>",
                ),
            );
        },
    };
    match read_operations(t, j + 1) {
        Ok(operations) => Ok(PatchDocument { mpd_id, original_publish_time, publish_time, operations }),
        Err(e) => Err(e),
    }
}

/// Reads a patch document (XML text).
pub fn parse_patch(input: &str) -> (r: Result<PatchDocument, Error>)
    ensures
        r matches Err(e) ==> patch_message_ok(e),
        result_is(r, patch_of(input@)),
{
    let t = read_xml(input);
    parse_patch_tokens(&t)
}

} // verus!

//! Applying an MPD Patch to an MPD: the MPD is written as XML, read into an
//! element tree, edited by each operation in turn, written back and read
//! again.
use vstd::prelude::*;

use crate::dom::{
    apply_operation, apply_result, dismantle, element_events, element_view, op_value, parse_xml_to_dom,
    serialize_dom, tree_of, ElementV, XmlElement,
};
use crate::error::{result_is, Error, ErrorKind};
use crate::text::push_str;
use crate::model::MpdV;
use crate::reader::{mpd_of, parse, reader_message_ok};
use crate::types::{Mpd, PatchDocument, PatchOperation};
use crate::writer::mpd_text;
use crate::xml_io::xml_text;
use crate::xpath::{parse_xpath, xpath_of};

verus! {

/// What one operation makes of the tree `d`: its selector is read, then the
/// operation is applied.
pub open spec fn apply_op(d: ElementV, op: PatchOperation) -> Result<ElementV, ErrorKind> {
    match xpath_of(op.selector@) {
        Err(k) => Err(k),
        Ok(c) => apply_result(d, c, op.action, op_value(op), op.position),
    }
}

/// The tree after the operations `ops` are applied to `d` in order; the
/// first that fails gives the error.
pub open spec fn apply_ops(d: ElementV, ops: Seq<PatchOperation>) -> Result<ElementV, ErrorKind>
    decreases ops.len(),
{
    if ops.len() == 0 {
        Ok(d)
    } else {
        match apply_op(d, ops[0]) {
            Err(k) => Err(k),
            Ok(e) => apply_ops(e, ops.drop_first()),
        }
    }
}

/// The patch `p` is meant for another MPD than `m`: the ids differ, or the
/// publish time of `m` is not the one that the patch was made against.
pub open spec fn patch_mismatch(m: Mpd, p: PatchDocument) -> bool {
    ||| (m.id matches Some(id) && id@ != p.mpd_id@)
    ||| (m.publish_time matches Some(pt) && pt@ != p.original_publish_time@)
}

/// What applying the patch `p` to the MPD `m` gives.
pub open spec fn patch_result(m: Mpd, p: PatchDocument) -> Result<MpdV, ErrorKind> {
    if patch_mismatch(m, p) {
        Err(ErrorKind::PatchFailed)
    } else {
        match tree_of(mpd_text(m)) {
            Err(k) => Err(k),
            Ok(d) => match apply_ops(d, p.operations@) {
                Err(k) => Err(k),
                Ok(e) => mpd_of(xml_text(element_events(e, true))),
            },
        }
    }
}

/// Applies the operations of `patch` to the tree, in order.
fn apply_operations(dom: &mut XmlElement, ops: &Vec<PatchOperation>) -> (r: Result<(), Error>)
    ensures
        match apply_ops(element_view(*old(dom)), ops@) {
            Ok(e) => r is Ok && element_view(*final(dom)) == e,
            Err(k) => r matches Err(e) && e.spec_kind() == k,
        },
{
    let ghost target = apply_ops(element_view(*dom), ops@);
    let mut k: usize = 0;
    assert(ops@.skip(0) =~= ops@);
    while k < ops.len()
        invariant
            k <= ops@.len(),
            target == apply_ops(element_view(*old(dom)), ops@),
            apply_ops(element_view(*dom), ops@.skip(k as int)) == target,
        decreases ops.len() - k,
    {
        let op = &ops[k];
        assert(ops@.skip(k as int)[0] == ops@[k as int]);
        assert(ops@.skip(k as int).drop_first() =~= ops@.skip(k + 1));
        let xpath = match parse_xpath(op.selector.as_str()) {
            Ok(x) => x,
            Err(e) => {
                return Err(e);
            },
        };
        match apply_operation(dom, &xpath, op) {
            Ok(()) => {},
            Err(e) => {
                return Err(e);
            },
        }
        k = k + 1;
    }
    assert(ops@.skip(k as int) =~= Seq::<PatchOperation>::empty());
    Ok(())
}

/// The message with which a patch meant for another MPD is refused, naming
/// the values that differ; empty when the patch is meant for `mpd`.
pub open spec fn mismatch_message(mpd: Mpd, patch: PatchDocument) -> Seq<char> {
    if mpd.id is Some && mpd.id->0@ != patch.mpd_id@ {
        "MPD id '"@ + mpd.id->0@ + "' does not match patch mpdId '"@ + patch.mpd_id@ + "'"@
    } else if mpd.publish_time is Some && mpd.publish_time->0@ != patch.original_publish_time@ {
        "MPD publishTime '"@ + mpd.publish_time->0@ + "' does not match patch originalPublishTime '"@
            + patch.original_publish_time@ + "'"@
    } else {
        seq![]
    }
}

/// Applies an MPD Patch to an MPD. The patch is refused (`PatchFailed`)
/// when it is meant for another MPD: the MPD has an id other than the
/// patch's `mpdId`, or a publish time other than its `originalPublishTime`.
pub fn apply_patch(mpd: &Mpd, patch: &PatchDocument) -> (r: Result<Mpd, Error>)
    ensures
        result_is(r, patch_result(*mpd, *patch)),
        mismatch_message(*mpd, *patch).len() > 0 ==> (r matches Err(e) && e.spec_message() == mismatch_message(
            *mpd,
            *patch,
        )),
        (!patch_mismatch(*mpd, *patch) && (tree_of(mpd_text(*mpd)) matches Ok(d) && apply_ops(
            d,
            patch.operations@,
        ) is Ok)) ==> (r matches Err(e) ==> reader_message_ok(e)),
{
    match &mpd.id {
        Some(id) => {
            if !id.eq(&patch.mpd_id) {
                let mut m: Vec<char> = Vec::new();
                push_str(&mut m, "MPD id '");
                push_str(&mut m, id.as_str());
                push_str(&mut m, "' does not match patch mpdId '");
                push_str(&mut m, patch.mpd_id.as_str());
                push_str(&mut m, "'");
                return Err(Error::from_chars(ErrorKind::PatchFailed, &m));
            }
        },
        None => {},
    }
    match &mpd.publish_time {
        Some(pt) => {
            if !pt.eq(&patch.original_publish_time) {
                let mut m: Vec<char> = Vec::new();
                push_str(&mut m, "MPD publishTime '");
                push_str(&mut m, pt.as_str());
                push_str(&mut m, "' does not match patch originalPublishTime '");
                push_str(&mut m, patch.original_publish_time.as_str());
                push_str(&mut m, "'");
                return Err(Error::from_chars(ErrorKind::PatchFailed, &m));
            }
        },
        None => {},
    }
    let xml = crate::writer::write(mpd);
    let mut dom = match parse_xml_to_dom(xml.as_str()) {
        Ok(d) => d,
        Err(e) => {
            return Err(e);
        },
    };
    match apply_operations(&mut dom, &patch.operations) {
        Ok(()) => {},
        Err(e) => {
            dismantle(dom);
            return Err(e);
        },
    }
    let patched = serialize_dom(&dom);
    dismantle(dom);
    parse(patched.as_str())
}

} // verus!

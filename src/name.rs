//! Domain names: length-prefixed labels, with compression pointers on decode.
//!
//! A compression pointer must point strictly before the start of the name
//! that holds it. Every pointer therefore moves decoding to an earlier
//! offset, so a crafted packet cannot make the decoder loop.

use vstd::prelude::*;
use vstd::utf8::{decode_utf8, encode_utf8, valid_utf8};

use crate::wire::{push_all, DnsError};

verus! {

broadcast use {vstd::utf8::encode_utf8_valid_utf8, vstd::utf8::encode_utf8_decode_utf8};

/// An ordered sequence of labels, such as `["www", "example", "com"]`.
#[derive(Debug)]
pub struct DomainName {
    pub content: Vec<String>,
}

impl View for DomainName {
    type V = Seq<Seq<char>>;

    open spec fn view(&self) -> Seq<Seq<char>> {
        labels_view(self.content@)
    }
}

/// The characters of each label.
pub open spec fn labels_view(v: Seq<String>) -> Seq<Seq<char>> {
    v.map_values(|s: String| s@)
}

/// What `String::from_utf8_lossy` makes of bytes that are not valid UTF-8.
pub uninterp spec fn lossy_text(b: Seq<u8>) -> Seq<char>;

/// The text of a label whose payload is `b`.
pub open spec fn label_text(b: Seq<u8>) -> Seq<char> {
    if valid_utf8(b) {
        decode_utf8(b)
    } else {
        lossy_text(b)
    }
}

/// Relies on `String::from_utf8_lossy`: valid UTF-8 is decoded as it
/// stands, and what it makes of other bytes depends on the bytes alone.
#[verifier::external_body]
fn text_from_utf8_lossy(b: &[u8]) -> (r: String)
    ensures
        valid_utf8(b@) ==> r@ == decode_utf8(b@),
        !valid_utf8(b@) ==> r@ == lossy_text(b@),
{
    String::from_utf8_lossy(b).into_owned()
}

/// The offset that the two-byte compression pointer at `msg[pos]` names:
/// its low fourteen bits.
pub open spec fn pointer_target(msg: Seq<u8>, pos: int) -> int {
    (msg[pos] as int - 0xC0) * 256 + msg[pos + 1] as int
}

/// Decodes the rest of a name that began at `start`, from the cursor `pos`
/// on. The result is the labels and the offset of the last byte that the
/// name occupies at this place in the message; `None` where the name runs
/// past the end of `msg` or a pointer does not point before `start`.
pub open spec fn name_at(msg: Seq<u8>, start: int, pos: int) -> Option<(Seq<Seq<char>>, int)>
    decreases start, msg.len() - pos,
{
    if !(0 <= start <= pos < msg.len()) {
        None
    } else if msg[pos] == 0 {
        Some((Seq::empty(), pos))
    } else if msg[pos] >= 0xC0 {
        if pos + 1 < msg.len() && pointer_target(msg, pos) < start {
            match name_at(msg, pointer_target(msg, pos), pointer_target(msg, pos)) {
                Some((labels, _)) => Some((labels, pos + 1)),
                None => None,
            }
        } else {
            None
        }
    } else {
        let next = pos + 1 + msg[pos] as int;
        if next < msg.len() {
            match name_at(msg, start, next) {
                Some((rest, end)) => Some(
                    (seq![label_text(msg.subrange(pos + 1, next))] + rest, end),
                ),
                None => None,
            }
        } else {
            None
        }
    }
}

/// A label has a wire form when its UTF-8 encoding is 1 to 63 bytes long.
pub open spec fn label_fits(l: Seq<char>) -> bool {
    1 <= encode_utf8(l).len() <= 63
}

/// Every label of the name has a wire form.
pub open spec fn encodable(labels: Seq<Seq<char>>) -> bool {
    forall|i: int| 0 <= i < labels.len() ==> #[trigger] label_fits(labels[i])
}

/// The length byte of a label followed by its UTF-8 bytes.
pub open spec fn label_wire(l: Seq<char>) -> Seq<u8> {
    seq![encode_utf8(l).len() as u8] + encode_utf8(l)
}

/// The wire form of the labels, without the terminating zero byte.
pub open spec fn labels_wire(labels: Seq<Seq<char>>) -> Seq<u8>
    decreases labels.len(),
{
    if labels.len() == 0 {
        Seq::empty()
    } else {
        labels_wire(labels.drop_last()) + label_wire(labels.last())
    }
}

/// The wire form of a name: its labels, then a zero byte.
pub open spec fn name_wire(labels: Seq<Seq<char>>) -> Seq<u8> {
    labels_wire(labels) + seq![0u8]
}

/// The wire form of a name seen from its first label.
proof fn lemma_labels_wire_cons(labels: Seq<Seq<char>>)
    requires
        labels.len() > 0,
    ensures
        labels_wire(labels) == label_wire(labels[0]) + labels_wire(labels.drop_first()),
    decreases labels.len(),
{
    if labels.len() > 1 {
        lemma_labels_wire_cons(labels.drop_last());
        assert(labels.drop_last().drop_first() =~= labels.drop_first().drop_last());
        assert(labels.drop_last()[0] == labels[0]);
        assert(labels.drop_first().last() == labels.last());
    } else {
        assert(labels.drop_last() =~= Seq::<Seq<char>>::empty());
        assert(labels.drop_first() =~= Seq::<Seq<char>>::empty());
    }
}

/// A name written out in full at offset `prefix.len()` of a message decodes
/// to its labels, whatever bytes stand around it.
proof fn lemma_name_decodes_in_place(
    prefix: Seq<u8>,
    labels: Seq<Seq<char>>,
    suffix: Seq<u8>,
    start: int,
)
    requires
        encodable(labels),
        0 <= start <= prefix.len(),
    ensures
        name_at(prefix + name_wire(labels) + suffix, start, prefix.len() as int) == Some(
            (labels, prefix.len() + name_wire(labels).len() - 1),
        ),
    decreases labels.len(),
{
    let msg = prefix + name_wire(labels) + suffix;
    let p = prefix.len() as int;
    if labels.len() == 0 {
        assert(msg[p] == 0);
    } else {
        let l = labels[0];
        let rest = labels.drop_first();
        let n = encode_utf8(l).len() as int;
        assert(label_fits(labels[0]));
        lemma_labels_wire_cons(labels);
        assert(encodable(rest)) by {
            assert forall|i: int| 0 <= i < rest.len() implies #[trigger] label_fits(rest[i]) by {
                assert(rest[i] == labels[i + 1]);
                assert(label_fits(labels[i + 1]));
            }
        }
        let prefix2 = prefix + label_wire(l);
        assert(msg =~= prefix2 + name_wire(rest) + suffix);
        assert(msg[p] == n as u8);
        assert(msg.subrange(p + 1, p + 1 + n) =~= encode_utf8(l));
        lemma_name_decodes_in_place(prefix2, rest, suffix, start);
        assert(seq![l] + rest =~= labels);
    }
}

/// Encoding a name whose labels all have a wire form, then decoding it,
/// gives back the same labels; the decoder stops at the last byte.
pub proof fn lemma_name_round_trip(labels: Seq<Seq<char>>)
    requires
        encodable(labels),
    ensures
        name_at(name_wire(labels), 0, 0) == Some((labels, name_wire(labels).len() - 1)),
{
    let e = Seq::<u8>::empty();
    assert(e + name_wire(labels) + e =~= name_wire(labels));
    lemma_name_decodes_in_place(e, labels, e, 0);
}

/// A compression pointer to offset 12, placed after a name written out in
/// full at offset 12, decodes to the same labels as that name.
pub proof fn lemma_pointer_resolution(msg: Seq<u8>, labels: Seq<Seq<char>>, p: int)
    requires
        encodable(labels),
        12 + name_wire(labels).len() <= p,
        p + 1 < msg.len(),
        msg.subrange(12, 12 + name_wire(labels).len() as int) == name_wire(labels),
        msg[p] == 0xC0,
        msg[p + 1] == 12,
    ensures
        name_at(msg, 12, 12) == Some((labels, 12 + name_wire(labels).len() - 1)),
        name_at(msg, p, p) == Some((labels, p + 1)),
{
    let end = 12 + name_wire(labels).len() as int;
    assert(msg =~= msg.subrange(0, 12) + name_wire(labels) + msg.subrange(end, msg.len() as int));
    lemma_name_decodes_in_place(msg.subrange(0, 12), labels, msg.subrange(end, msg.len() as int), 12);
    assert(pointer_target(msg, p) == 12);
}

impl Clone for DomainName {
    fn clone(&self) -> (r: DomainName)
        ensures
            r@ == self@,
    {
        let mut content: Vec<String> = Vec::new();
        let mut i: usize = 0;
        while i < self.content.len()
            invariant
                i <= self.content@.len(),
                content@.len() == i,
                forall|k: int| 0 <= k < i ==> #[trigger] content@[k]@ == self.content@[k]@,
            decreases self.content@.len() - i,
        {
            let label = self.content[i].clone();
            content.push(label);
            i = i + 1;
        }
        let r = DomainName { content };
        assert(r@ =~= self@);
        r
    }
}

impl DomainName {
    /// The name with no labels.
    pub fn new() -> (r: DomainName)
        ensures
            r@ == Seq::<Seq<char>>::empty(),
    {
        let content = Vec::<String>::new();
        let r = DomainName { content };
        assert(r@ =~= Seq::<Seq<char>>::empty());
        r
    }

    /// Decodes the name that starts at `offset` in the whole message
    /// `input`, following compression pointers. Returns the name and the
    /// offset of the last byte it occupies there: its zero byte, or the
    /// second byte of the pointer that ends it.
    pub fn deserialize(input: &[u8], offset: usize) -> (r: Result<(DomainName, usize), DnsError>)
        ensures
            match name_at(input@, offset as int, offset as int) {
                Some((labels, end)) => r matches Ok((n, e)) && n@ == labels && e == end,
                None => r == Err::<(DomainName, usize), DnsError>(DnsError::UnresolvableName),
            },
    {
        match decode_from(input, offset, offset) {
            Some((content, end)) => Ok((DomainName { content }, end)),
            None => Err(DnsError::UnresolvableName),
        }
    }

    /// Encodes the name as length-prefixed labels and a zero byte. A label
    /// that is empty or longer than 63 bytes has no wire form.
    pub fn serialize(&self) -> (r: Result<Vec<u8>, DnsError>)
        ensures
            encodable(self@) ==> (r matches Ok(b) && b@ == name_wire(self@)),
            !encodable(self@) ==> r == Err::<Vec<u8>, DnsError>(DnsError::InvalidLabel),
    {
        let mut out: Vec<u8> = Vec::new();
        let mut i: usize = 0;
        while i < self.content.len()
            invariant
                i <= self.content@.len(),
                encodable(self@.subrange(0, i as int)),
                out@ == labels_wire(self@.subrange(0, i as int)),
            decreases self.content@.len() - i,
        {
            let text = self.content[i].as_str();
            let bytes = text.as_bytes();
            assert(self@[i as int] == text@);
            if bytes.len() == 0 || bytes.len() > 63 {
                assert(!label_fits(self@[i as int]));
                return Err(DnsError::InvalidLabel);
            }
            out.push(bytes.len() as u8);
            push_all(&mut out, bytes);
            proof {
                let done = self@.subrange(0, i as int + 1);
                assert(done.drop_last() =~= self@.subrange(0, i as int));
                assert(done.last() == text@);
                assert(out@ =~= labels_wire(done));
                assert forall|k: int| 0 <= k < done.len() implies #[trigger] label_fits(done[k]) by {
                    if k < i {
                        assert(done[k] == self@.subrange(0, i as int)[k]);
                    }
                }
            }
            i = i + 1;
        }
        assert(self@.subrange(0, i as int) =~= self@);
        out.push(0);
        Ok(out)
    }
}

/// Decodes the rest of a name that began at `start`, from `pos` on.
fn decode_from(msg: &[u8], start: usize, pos: usize) -> (r: Option<(Vec<String>, usize)>)
    ensures
        match name_at(msg@, start as int, pos as int) {
            Some((labels, end)) => r matches Some((v, e)) && labels_view(v@) == labels && e == end,
            None => r is None,
        },
    decreases start,
{
    if start > pos {
        return None;
    }
    let mut labels: Vec<String> = Vec::new();
    let mut i: usize = pos;
    loop
        invariant
            start <= i,
            match name_at(msg@, start as int, i as int) {
                Some((rest, end)) => name_at(msg@, start as int, pos as int) == Some(
                    (labels_view(labels@) + rest, end),
                ),
                None => name_at(msg@, start as int, pos as int) is None,
            },
        decreases msg@.len() - i,
    {
        if i >= msg.len() {
            return None;
        }
        let b = msg[i];
        if b == 0 {
            assert(labels_view(labels@) + Seq::<Seq<char>>::empty() =~= labels_view(labels@));
            return Some((labels, i));
        }
        if b >= 0xC0 {
            if i + 1 >= msg.len() {
                return None;
            }
            let target = ((b - 0xC0) as usize) * 256 + msg[i + 1] as usize;
            if target >= start {
                return None;
            }
            match decode_from(msg, target, target) {
                Some((mut tail, _)) => {
                    let ghost before = labels@;
                    let ghost added = tail@;
                    labels.append(&mut tail);
                    assert(labels_view(labels@) =~= labels_view(before) + labels_view(added));
                    return Some((labels, i + 1));
                },
                None => {
                    return None;
                },
            }
        }
        let n = b as usize;
        if msg.len() - i - 1 <= n {
            return None;
        }
        let text = text_from_utf8_lossy(&msg[i + 1..i + 1 + n]);
        let ghost before = labels@;
        labels.push(text);
        proof {
            assert(labels_view(labels@) =~= labels_view(before) + seq![text@]);
            assert(text@ == label_text(msg@.subrange(i + 1, i + 1 + n)));
            let next = i + 1 + n;
            match name_at(msg@, start as int, next as int) {
                Some((rest, end)) => {
                    assert(labels_view(before) + (seq![text@] + rest) =~= labels_view(labels@)
                        + rest);
                },
                None => {},
            }
        }
        i = i + 1 + n;
    }
}

} // verus!

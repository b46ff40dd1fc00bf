//! The FIX tag=value framing: fields delimited by SOH, a message headed
//! by `8=FIX.4.4` and `9=<body length>` and closed by the `10=<checksum>`
//! field. Reading splits fields and looks tags up; writing lays fields
//! out and computes the length and checksum.
use vstd::prelude::*;

use crate::split::{split_bytes, split_on, views_of};
use crate::text::{bytes_eq, pad3, spec_dec, u32_pad3, u64_to_dec, SOH};

verus! {

/// ASCII equals sign, the tag/value separator of a FIX field.
pub const EQ: u8 = 61;

/// The index of the first occurrence of `d` in `s`, or `s.len()` if none.
pub open spec fn first_ix(s: Seq<u8>, d: u8) -> nat
    decreases s.len(),
{
    if s.len() == 0 {
        0
    } else if s[0] == d {
        0
    } else {
        1 + first_ix(s.subrange(1, s.len() as int), d)
    }
}

pub proof fn lemma_first_ix(s: Seq<u8>, d: u8)
    ensures
        first_ix(s, d) <= s.len(),
        forall|i: int| 0 <= i < first_ix(s, d) ==> s[i] != d,
        first_ix(s, d) < s.len() ==> s[first_ix(s, d) as int] == d,
    decreases s.len(),
{
    if s.len() > 0 && s[0] != d {
        let tail = s.subrange(1, s.len() as int);
        lemma_first_ix(tail, d);
        assert(forall|i: int| 0 <= i < tail.len() ==> tail[i] == s[i + 1]);
        assert(first_ix(s, d) == 1 + first_ix(tail, d));
        assert forall|i: int| 0 <= i < first_ix(s, d) implies s[i] != d by {
            if i > 0 {
                assert(tail[i - 1] != d);
            }
        }
    }
}

/// `first_ix` is pinned by "no hit before `i`, a hit (or the end) at `i`".
pub proof fn lemma_first_ix_is(s: Seq<u8>, d: u8, i: int)
    requires
        0 <= i <= s.len(),
        forall|j: int| 0 <= j < i ==> s[j] != d,
        i < s.len() ==> s[i] == d,
    ensures
        first_ix(s, d) == i,
    decreases s.len(),
{
    if s.len() > 0 && s[0] != d {
        let tail = s.subrange(1, s.len() as int);
        assert(forall|j: int| 0 <= j < tail.len() ==> tail[j] == s[j + 1]);
        lemma_first_ix_is(tail, d, i - 1);
    }
}

/// Finds the first occurrence of `d`, or the length if there is none.
pub fn find_byte(s: &[u8], d: u8) -> (ix: usize)
    ensures
        ix == first_ix(s@, d),
{
    let mut i: usize = 0;
    while i < s.len()
        invariant
            0 <= i <= s@.len(),
            forall|j: int| 0 <= j < i ==> s@[j] != d,
        decreases s.len() - i,
    {
        if s[i] == d {
            proof {
                lemma_first_ix_is(s@, d, i as int);
            }
            return i;
        }
        i = i + 1;
    }
    proof {
        lemma_first_ix_is(s@, d, s@.len() as int);
    }
    i
}

/// The tag part of a field: the bytes before the first `=`.
pub open spec fn field_tag(f: Seq<u8>) -> Seq<u8> {
    f.take(first_ix(f, EQ) as int)
}

/// Whether a field has an `=` and so carries a value.
pub open spec fn field_has_value(f: Seq<u8>) -> bool {
    first_ix(f, EQ) < f.len()
}

/// The value part of a field: the bytes after the first `=`.
pub open spec fn field_value(f: Seq<u8>) -> Seq<u8> {
    f.skip(first_ix(f, EQ) as int + 1)
}

/// The first value carried by a field whose tag is `tag`, searching from
/// the front.
pub open spec fn spec_get_value(fs: Seq<Seq<u8>>, tag: Seq<u8>) -> Option<Seq<u8>>
    decreases fs.len(),
{
    if fs.len() == 0 {
        None
    } else if field_has_value(fs[0]) && field_tag(fs[0]) == tag {
        Some(field_value(fs[0]))
    } else {
        spec_get_value(fs.subrange(1, fs.len() as int), tag)
    }
}

/// Every value carried by fields whose tag is `tag`, in message order.
pub open spec fn spec_get_values(fs: Seq<Seq<u8>>, tag: Seq<u8>) -> Seq<Seq<u8>>
    decreases fs.len(),
{
    if fs.len() == 0 {
        Seq::empty()
    } else if field_has_value(fs[0]) && field_tag(fs[0]) == tag {
        seq![field_value(fs[0])] + spec_get_values(fs.subrange(1, fs.len() as int), tag)
    } else {
        spec_get_values(fs.subrange(1, fs.len() as int), tag)
    }
}

/// A received FIX payload, split into its SOH-delimited fields.
pub struct FixMessageReader {
    pub fields: Vec<Vec<u8>>,
}

impl View for FixMessageReader {
    type V = Seq<Seq<u8>>;

    open spec fn view(&self) -> Seq<Seq<u8>> {
        views_of(self.fields@)
    }
}

impl FixMessageReader {
    /// Splits a raw payload on SOH.
    pub fn from_bytes(payload: &[u8]) -> (r: Self)
        ensures
            r@ == split_on(payload@, SOH),
    {
        FixMessageReader { fields: split_bytes(payload, SOH) }
    }

    /// Looks up the first value for a tag.
    pub fn get_value(&self, tag: &[u8]) -> (r: Option<Vec<u8>>)
        ensures
            match r {
                Some(v) => spec_get_value(self@, tag@) == Some(v@),
                None => spec_get_value(self@, tag@) is None,
            },
    {
        let ghost fs = self@;
        let mut i: usize = 0;
        proof {
            assert(fs.subrange(0, fs.len() as int) =~= fs);
        }
        while i < self.fields.len()
            invariant
                0 <= i <= fs.len(),
                fs == self@,
                self.fields@.len() == fs.len(),
                spec_get_value(fs, tag@) == spec_get_value(fs.subrange(i as int, fs.len() as int), tag@),
            decreases self.fields.len() - i,
        {
            let ghost rest = fs.subrange(i as int, fs.len() as int);
            proof {
                assert(rest[0] == fs[i as int]);
                assert(rest.subrange(1, rest.len() as int) =~= fs.subrange(
                    i + 1,
                    fs.len() as int,
                ));
            }
            let f = self.fields[i].as_slice();
            let ix = find_byte(f, EQ);
            if ix < f.len() {
                let tag_part = vstd::slice::slice_subrange(f, 0, ix);
                proof {
                    assert(f@.subrange(0, ix as int) =~= field_tag(fs[i as int]));
                }
                if bytes_eq(tag_part, tag) {
                    let value = vstd::slice::slice_to_vec(
                        vstd::slice::slice_subrange(f, ix + 1, f.len()),
                    );
                    proof {
                        assert(f@.subrange(ix + 1, f@.len() as int) =~= field_value(
                            fs[i as int],
                        ));
                    }
                    return Some(value);
                }
            }
            i = i + 1;
        }
        proof {
            assert(fs.subrange(fs.len() as int, fs.len() as int) =~= Seq::<Seq<u8>>::empty());
        }
        None
    }

    /// Looks up every value for a tag, in message order.
    pub fn get_values(&self, tag: &[u8]) -> (r: Vec<Vec<u8>>)
        ensures
            views_of(r@) == spec_get_values(self@, tag@),
    {
        let ghost fs = self@;
        let mut out: Vec<Vec<u8>> = Vec::new();
        let mut i: usize = 0;
        proof {
            assert(views_of(out@) =~~= Seq::<Seq<u8>>::empty());
            assert(fs.subrange(0, fs.len() as int) =~= fs);
        }
        while i < self.fields.len()
            invariant
                0 <= i <= fs.len(),
                fs == self@,
                self.fields@.len() == fs.len(),
                spec_get_values(fs, tag@) =~~= views_of(out@) + spec_get_values(
                    fs.subrange(i as int, fs.len() as int),
                    tag@,
                ),
            decreases self.fields.len() - i,
        {
            let ghost rest = fs.subrange(i as int, fs.len() as int);
            proof {
                assert(rest[0] == fs[i as int]);
                assert(rest.subrange(1, rest.len() as int) =~= fs.subrange(
                    i + 1,
                    fs.len() as int,
                ));
            }
            let f = self.fields[i].as_slice();
            let ix = find_byte(f, EQ);
            if ix < f.len() {
                let tag_part = vstd::slice::slice_subrange(f, 0, ix);
                proof {
                    assert(f@.subrange(0, ix as int) =~= field_tag(fs[i as int]));
                }
                if bytes_eq(tag_part, tag) {
                    let value = vstd::slice::slice_to_vec(
                        vstd::slice::slice_subrange(f, ix + 1, f.len()),
                    );
                    proof {
                        assert(f@.subrange(ix + 1, f@.len() as int) =~= field_value(
                            fs[i as int],
                        ));
                        assert(views_of(out@.push(value)) =~~= views_of(out@) + seq![value@]);
                    }
                    out.push(value);
                }
            }
            i = i + 1;
        }
        proof {
            assert(fs.subrange(fs.len() as int, fs.len() as int) =~= Seq::<Seq<u8>>::empty());
        }
        out
    }

    /// The MsgType field, FIX tag 35.
    pub fn get_message_type(&self) -> (r: Option<Vec<u8>>)
        ensures
            match r {
                Some(v) => spec_get_value(self@, seq![51u8, 53u8]) == Some(v@),
                None => spec_get_value(self@, seq![51u8, 53u8]) is None,
            },
    {
        let mut tag: Vec<u8> = Vec::new();
        tag.push(51);
        tag.push(53);
        proof {
            assert(tag@ =~= seq![51u8, 53u8]);
        }
        self.get_value(tag.as_slice())
    }
}

/// Whether one SOH-delimited field opens with `10=`: the checksum field
/// that closes a FIX message. The framed-read loop stops on it.
pub fn is_checksum_field(chunk: &[u8]) -> (r: bool)
    ensures
        r <==> (field_has_value(chunk@) && field_tag(chunk@) == seq![49u8, 48u8]),
{
    let ix = find_byte(chunk, EQ);
    if ix >= chunk.len() {
        return false;
    }
    let tag_part = vstd::slice::slice_subrange(chunk, 0, ix);
    proof {
        assert(chunk@.subrange(0, ix as int) =~= field_tag(chunk@));
    }
    let mut tag: Vec<u8> = Vec::new();
    tag.push(49);
    tag.push(48);
    proof {
        assert(tag@ =~= seq![49u8, 48u8]);
    }
    bytes_eq(tag_part, tag.as_slice())
}

/// The sum of all bytes, for the FIX checksum.
pub open spec fn sum_bytes(s: Seq<u8>) -> nat
    decreases s.len(),
{
    if s.len() == 0 {
        0
    } else {
        sum_bytes(s.drop_last()) + s.last() as nat
    }
}

/// `tag=value` followed by SOH.
pub open spec fn spec_field_bytes(tag: Seq<u8>, value: Seq<u8>) -> Seq<u8> {
    tag + seq![EQ] + value + seq![SOH]
}

/// The laid-out body fields, in insertion order.
pub open spec fn spec_fields_bytes(fs: Seq<(Seq<u8>, Seq<u8>)>) -> Seq<u8>
    decreases fs.len(),
{
    if fs.len() == 0 {
        Seq::empty()
    } else {
        spec_fields_bytes(fs.drop_last()) + spec_field_bytes(fs.last().0, fs.last().1)
    }
}

/// The literal `8=FIX.4.4` followed by SOH and `9=`.
pub open spec fn spec_head_bytes() -> Seq<u8> {
    seq![56u8, 61u8, 70u8, 73u8, 88u8, 46u8, 52u8, 46u8, 52u8, SOH, 57u8, 61u8]
}

/// The whole compiled message for a MsgType and a field list: version
/// field, body-length field, MsgType field, the fields in order, then the
/// checksum field over everything before it.
pub open spec fn spec_compile(msg_type: Seq<u8>, fs: Seq<(Seq<u8>, Seq<u8>)>) -> Seq<u8> {
    let body = spec_field_bytes(seq![51u8, 53u8], msg_type) + spec_fields_bytes(fs);
    let with_head = spec_head_bytes() + spec_dec(body.len()) + seq![SOH] + body;
    with_head + seq![49u8, 48u8, 61u8] + pad3(sum_bytes(with_head) % 256) + seq![SOH]
}

/// An outgoing FIX message under construction: the MsgType and the body
/// fields in insertion order.
pub struct FixMessageWriter {
    pub msg_type: Vec<u8>,
    pub tags: Vec<Vec<u8>>,
    pub values: Vec<Vec<u8>>,
}

impl FixMessageWriter {
    pub open spec fn wf(self) -> bool {
        self.tags@.len() == self.values@.len()
    }

    /// The field list as tag/value pairs.
    pub open spec fn spec_fields(self) -> Seq<(Seq<u8>, Seq<u8>)> {
        Seq::new(self.tags@.len() as nat, |i: int| (self.tags@[i]@, self.values@[i]@))
    }

    /// Opens a message of the given MsgType.
    pub fn new(msg_type: Vec<u8>) -> (r: Self)
        ensures
            r.wf(),
            r.msg_type@ == msg_type@,
            r.spec_fields() =~~= Seq::<(Seq<u8>, Seq<u8>)>::empty(),
    {
        FixMessageWriter { msg_type, tags: Vec::new(), values: Vec::new() }
    }

    /// Appends one tag=value field.
    pub fn with_value(&mut self, tag: Vec<u8>, value: Vec<u8>)
        requires
            old(self).wf(),
        ensures
            final (self).wf(),
            final (self).msg_type@ == old(self).msg_type@,
            final (self).spec_fields() =~~= old(self).spec_fields().push((tag@, value@)),
    {
        self.tags.push(tag);
        self.values.push(value);
    }

    /// Lays the message out: head, body length, MsgType, fields, checksum.
    pub fn compile_message(&self) -> (r: Vec<u8>)
        requires
            self.wf(),
        ensures
            r@ == spec_compile(self.msg_type@, self.spec_fields()),
    {
        let ghost fields = self.spec_fields();
        let mut body: Vec<u8> = Vec::new();
        body.push(51);
        body.push(53);
        body.push(EQ);
        body.extend_from_slice(self.msg_type.as_slice());
        body.push(SOH);
        proof {
            assert(body@ =~= spec_field_bytes(seq![51u8, 53u8], self.msg_type@));
            assert(fields.subrange(0, 0) =~= Seq::<(Seq<u8>, Seq<u8>)>::empty());
            assert(spec_fields_bytes(fields.subrange(0, 0)) =~= Seq::<u8>::empty());
            assert(body@ =~= spec_field_bytes(seq![51u8, 53u8], self.msg_type@)
                + spec_fields_bytes(fields.subrange(0, 0)));
        }
        let mut i: usize = 0;
        while i < self.tags.len()
            invariant
                self.wf(),
                fields == self.spec_fields(),
                0 <= i <= fields.len(),
                self.tags@.len() == fields.len(),
                body@ == spec_field_bytes(seq![51u8, 53u8], self.msg_type@) + spec_fields_bytes(
                    fields.subrange(0, i as int),
                ),
            decreases self.tags.len() - i,
        {
            body.extend_from_slice(self.tags[i].as_slice());
            body.push(EQ);
            body.extend_from_slice(self.values[i].as_slice());
            body.push(SOH);
            proof {
                let pre = fields.subrange(0, i as int);
                let cur = fields.subrange(0, i + 1);
                assert(cur.drop_last() =~= pre);
                assert(cur.last() == fields[i as int]);
                assert(spec_fields_bytes(cur) =~= spec_fields_bytes(pre) + spec_field_bytes(
                    fields[i as int].0,
                    fields[i as int].1,
                ));
                assert(body@ =~= spec_field_bytes(seq![51u8, 53u8], self.msg_type@)
                    + spec_fields_bytes(cur));
            }
            i = i + 1;
        }
        proof {
            assert(fields.subrange(0, fields.len() as int) =~= fields);
        }
        let mut out: Vec<u8> = Vec::new();
        out.push(56);
        out.push(EQ);
        out.push(70);
        out.push(73);
        out.push(88);
        out.push(46);
        out.push(52);
        out.push(46);
        out.push(52);
        out.push(SOH);
        out.push(57);
        out.push(EQ);
        proof {
            assert(out@ =~= spec_head_bytes());
        }
        let mut len_text = u64_to_dec(body.len() as u64);
        out.append(&mut len_text);
        out.push(SOH);
        out.append(&mut body);
        let ghost with_head = out@;
        proof {
            assert(with_head =~= spec_head_bytes() + spec_dec(
                (spec_field_bytes(seq![51u8, 53u8], self.msg_type@) + spec_fields_bytes(
                    fields,
                )).len(),
            ) + seq![SOH] + (spec_field_bytes(seq![51u8, 53u8], self.msg_type@)
                + spec_fields_bytes(fields)));
        }
        let cks = checksum(out.as_slice());
        out.push(49);
        out.push(48);
        out.push(EQ);
        let mut cks_text = u32_pad3(cks);
        out.append(&mut cks_text);
        out.push(SOH);
        proof {
            assert(out@ =~= with_head + seq![49u8, 48u8, 61u8] + pad3(
                sum_bytes(with_head) % 256,
            ) + seq![SOH]);
        }
        out
    }
}

/// The FIX checksum: the byte sum modulo 256.
pub fn checksum(s: &[u8]) -> (r: u32)
    ensures
        r == sum_bytes(s@) % 256,
{
    let mut acc: u32 = 0;
    let mut i: usize = 0;
    while i < s.len()
        invariant
            0 <= i <= s@.len(),
            acc == sum_bytes(s@.subrange(0, i as int)) % 256,
        decreases s.len() - i,
    {
        let b = s[i];
        proof {
            let pre = s@.subrange(0, i as int);
            let cur = s@.subrange(0, i + 1);
            assert(cur.drop_last() =~= pre);
            assert(cur.last() == s@[i as int]);
            vstd::arithmetic::div_mod::lemma_add_mod_noop(
                sum_bytes(pre) as int,
                b as int,
                256,
            );
            assert(b as int % 256 == b as int);
        }
        acc = (acc + (b as u32)) % 256;
        i = i + 1;
    }
    proof {
        assert(s@.subrange(0, s@.len() as int) =~= s@);
    }
    acc
}

} // verus!

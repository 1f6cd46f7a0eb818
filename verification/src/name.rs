//! The name codec: domain names on the wire are sequences of
//! length-prefixed labels ending in a zero byte, where a length byte with
//! its top two bits set is instead a compression pointer to an absolute
//! offset in the enclosing message.  Decoding is depth-bounded so that
//! pointer cycles fail instead of hanging; encoding always produces the
//! plain uncompressed form.

use vstd::prelude::*;

use vstd::string::StringSliceAdditionalSpecFns;
use vstd::utf8::decode_utf8;
use vstd::utf8::decode_utf8_split;
use vstd::utf8::is_char_boundary;
use vstd::utf8::is_char_boundary_iff_not_is_continuation_byte;
use vstd::utf8::is_char_boundary_start_end_of_seq;
use vstd::utf8::valid_utf8;
use vstd::utf8::valid_utf8_split;

use crate::errors::DecodeError;
use crate::text::ascii_chars_of;
use crate::text::lemma_ascii_decode;
use crate::text::utf8_lossy;
use crate::text::utf8_lossy_of;

verus! {

/// The maximum number of label and pointer steps a single name decode may
/// take before it fails with [`DecodeError::DepthExceeded`].
pub const MAX_PTR_TRAVERSALS: u8 = 126;

/// Whether a length byte announces a compression pointer (top two bits
/// set).
pub open spec fn spec_is_pointer_byte(head: u8) -> bool {
    head & 0xc0 == 0xc0
}

/// The absolute offset a compression pointer at `pos` refers to: the low
/// six bits of the first byte followed by all eight of the second.
pub open spec fn spec_pointer_target(buf: Seq<u8>, pos: int) -> int {
    (buf[pos] & 0x3f) * 256 + buf[pos + 1]
}

/// The wire-format meaning of the name starting at `pos`: the sequence of
/// its label byte strings, and how many bytes the name occupies at `pos`.
///
/// Reads of labels and of the terminator are bounded by `limit` (the end
/// of the enclosing field); once a pointer has been followed, reads are
/// bounded by the whole buffer, because pointer targets are absolute
/// offsets into the message.  A pointer contributes exactly 2 consumed
/// bytes, however long the name at its target is.  Each step increases
/// `depth`; past [`MAX_PTR_TRAVERSALS`] the decode fails, which bounds
/// pointer chases and cycles.
pub open spec fn spec_decode_name_at(buf: Seq<u8>, pos: int, limit: int, depth: int) -> Result<
    (Seq<Seq<u8>>, int),
    DecodeError,
>
    decreases 127 - depth,
{
    if depth > MAX_PTR_TRAVERSALS as int {
        Err(DecodeError::DepthExceeded)
    } else if pos < 0 || pos >= limit {
        Err(DecodeError::Truncated)
    } else {
        let head = buf[pos];
        if spec_is_pointer_byte(head) {
            if pos + 2 > limit {
                Err(DecodeError::Truncated)
            } else if spec_pointer_target(buf, pos) > buf.len() {
                Err(DecodeError::PointerOutOfBounds)
            } else {
                match spec_decode_name_at(
                    buf,
                    spec_pointer_target(buf, pos),
                    buf.len() as int,
                    depth + 1,
                ) {
                    Ok(p) => Ok((p.0, 2)),
                    Err(e) => Err(e),
                }
            }
        } else if head == 0 {
            Ok((Seq::empty(), 1))
        } else if pos + 1 + head > limit {
            Err(DecodeError::Truncated)
        } else {
            match spec_decode_name_at(buf, pos + 1 + head, limit, depth + 1) {
                Ok(p) => Ok(
                    (seq![buf.subrange(pos + 1, pos + 1 + head)] + p.0, 1 + head + p.1),
                ),
                Err(e) => Err(e),
            }
        }
    }
}

/// A successful name decode consumes at least one byte and never reads
/// past `limit`.
pub proof fn lemma_decode_consumed(buf: Seq<u8>, pos: int, limit: int, depth: int)
    ensures
        spec_decode_name_at(buf, pos, limit, depth) matches Ok(p) ==> 1 <= p.1 && pos + p.1
            <= limit,
    decreases 127 - depth,
{
    if depth > MAX_PTR_TRAVERSALS as int || pos < 0 || pos >= limit {
    } else {
        let head = buf[pos];
        if spec_is_pointer_byte(head) {
        } else if head == 0 {
        } else if pos + 1 + head > limit {
        } else {
            lemma_decode_consumed(buf, pos + 1 + head, limit, depth + 1);
        }
    }
}

/// The dot-joined character string a decoded label sequence stands for:
/// each label seen through lossy UTF-8 decoding, separated by dots.
pub open spec fn spec_name_chars(labels: Seq<Seq<u8>>) -> Seq<char>
    decreases labels.len(),
{
    if labels.len() == 0 {
        Seq::empty()
    } else if labels.len() == 1 {
        utf8_lossy_of(labels[0])
    } else {
        utf8_lossy_of(labels[0]) + seq!['.'] + spec_name_chars(labels.drop_first())
    }
}

/// Whether every label is valid UTF-8 on its own.
pub open spec fn spec_labels_utf8(labels: Seq<Seq<u8>>) -> bool {
    forall|i: int| 0 <= i < labels.len() ==> valid_utf8(#[trigger] labels[i])
}

/// The dot-joined character string of a label sequence whose labels are
/// valid UTF-8: each label's decoded characters, separated by dots.  For
/// such labels this is what [`spec_name_chars`] comes to, and the
/// decoder's contract says so outright.
pub open spec fn spec_utf8_name_chars(labels: Seq<Seq<u8>>) -> Seq<char>
    decreases labels.len(),
{
    if labels.len() == 0 {
        Seq::empty()
    } else if labels.len() == 1 {
        decode_utf8(labels[0])
    } else {
        decode_utf8(labels[0]) + seq!['.'] + spec_utf8_name_chars(labels.drop_first())
    }
}

/// Whether every byte of every label is ASCII.
pub open spec fn spec_labels_ascii(labels: Seq<Seq<u8>>) -> bool {
    forall|i: int, j: int|
        0 <= i < labels.len() && 0 <= j < labels[i].len() ==> #[trigger] labels[i][j] < 128
}

/// The dot-joined character string of an ASCII label sequence, one
/// character per byte.  For such labels this is what [`spec_name_chars`]
/// comes to, and the decoder's contract says so outright.
pub open spec fn spec_ascii_name_chars(labels: Seq<Seq<u8>>) -> Seq<char>
    decreases labels.len(),
{
    if labels.len() == 0 {
        Seq::empty()
    } else if labels.len() == 1 {
        ascii_chars_of(labels[0])
    } else {
        ascii_chars_of(labels[0]) + seq!['.'] + spec_ascii_name_chars(labels.drop_first())
    }
}

/// Copies `buf[start..end]` into a fresh vector.
pub(crate) fn copy_range(buf: &[u8], start: usize, end: usize) -> (v: Vec<u8>)
    requires
        start <= end <= buf@.len(),
    ensures
        v@ == buf@.subrange(start as int, end as int),
{
    let mut v: Vec<u8> = Vec::new();
    let mut i: usize = start;
    while i < end
        invariant
            start <= i <= end <= buf@.len(),
            v@ == buf@.subrange(start as int, i as int),
        decreases end - i,
    {
        v.push(*vstd::slice::slice_index_get(buf, i));
        proof {
            assert(buf@.subrange(start as int, i + 1) =~= buf@.subrange(start as int, i as int)
                .push(buf@[i as int]));
        }
        i = i + 1;
    }
    v
}

/// Decodes the name starting at `pos`, reading labels only below `limit`
/// (pointer targets may reach the whole buffer).  Returns the dot-joined
/// name and the number of bytes the name occupies at `pos`, exactly as
/// [`spec_decode_name_at`] describes.
pub(crate) fn decode_name_at(buf: &[u8], pos: usize, limit: usize, depth: u8) -> (r: Result<
    (String, usize),
    DecodeError,
>)
    requires
        limit <= buf@.len(),
    ensures
        ({
            let sr = spec_decode_name_at(buf@, pos as int, limit as int, depth as int);
            match r {
                Ok(p) => sr matches Ok(sp) && p.0@ == spec_name_chars(sp.0) && p.1 == sp.1 && (
                sp.0.len() > 0 ==> p.0@.len() > 0) && (spec_labels_utf8(sp.0) ==> p.0@
                    == spec_utf8_name_chars(sp.0)) && (spec_labels_ascii(sp.0) ==> p.0@
                    == spec_ascii_name_chars(sp.0)),
                Err(e) => sr matches Err(e2) && e == e2,
            }
        }),
    decreases 127 - depth as int,
{
    if depth > MAX_PTR_TRAVERSALS {
        return Err(DecodeError::DepthExceeded);
    }
    if pos >= limit {
        return Err(DecodeError::Truncated);
    }
    let head = *vstd::slice::slice_index_get(buf, pos);
    if head & 0xc0 == 0xc0 {
        if limit - pos < 2 {
            return Err(DecodeError::Truncated);
        }
        let next = *vstd::slice::slice_index_get(buf, pos + 1);
        let target = ((head & 0x3f) as usize) * 256 + (next as usize);
        if target > buf.len() {
            return Err(DecodeError::PointerOutOfBounds);
        }
        match decode_name_at(buf, target, buf.len(), depth + 1) {
            Ok(p) => Ok((p.0, 2)),
            Err(e) => Err(e),
        }
    } else if head == 0 {
        Ok((String::new(), 1))
    } else {
        let len = head as usize;
        if limit - pos - 1 < len {
            return Err(DecodeError::Truncated);
        }
        let label_bytes = copy_range(buf, pos + 1, pos + 1 + len);
        let label = utf8_lossy(&label_bytes);
        match decode_name_at(buf, pos + 1 + len, limit, depth + 1) {
            Err(e) => Err(e),
            Ok(rest) => {
                proof {
                    lemma_decode_consumed(
                        buf@,
                        pos + 1 + len,
                        limit as int,
                        depth + 1,
                    );
                }
                let ghost sr = spec_decode_name_at(
                    buf@,
                    pos as int,
                    limit as int,
                    depth as int,
                );
                let ghost sub = spec_decode_name_at(
                    buf@,
                    pos + 1 + len,
                    limit as int,
                    depth + 1,
                );
                let ghost labels = sr->Ok_0.0;
                proof {
                    assert(labels =~= seq![buf@.subrange(pos + 1, pos + 1 + len)]
                        + sub->Ok_0.0);
                    assert(labels.drop_first() =~= sub->Ok_0.0);
                }
                if rest.0.as_str().is_empty() {
                    proof {
                        assert(sub->Ok_0.0.len() == 0);
                        assert(labels.len() == 1);
                        if spec_labels_utf8(labels) {
                            assert(valid_utf8(label_bytes@));
                            assert(label@ =~= spec_utf8_name_chars(labels));
                        }
                        if spec_labels_ascii(labels) {
                            assert forall|j: int|
                                0 <= j < label_bytes@.len() implies label_bytes@[j] < 128 by {
                                assert(labels[0][j] == label_bytes@[j]);
                            }
                            lemma_ascii_decode(label_bytes@);
                            assert(label@ =~= spec_ascii_name_chars(labels));
                        }
                    }
                    Ok((label, 1 + len + rest.1))
                } else {
                    let mut s = label;
                    s.append(".");
                    s.append(rest.0.as_str());
                    proof {
                        reveal_strlit(".");
                        assert(labels.len() >= 2);
                        assert(s@ =~= spec_name_chars(labels));
                        if spec_labels_utf8(labels) {
                            assert(valid_utf8(label_bytes@));
                            assert forall|i2: int|
                                0 <= i2 < labels.drop_first().len() implies valid_utf8(
                                #[trigger] labels.drop_first()[i2],
                            ) by {
                                assert(labels[i2 + 1] == labels.drop_first()[i2]);
                            }
                            assert(s@ =~= spec_utf8_name_chars(labels));
                        }
                        if spec_labels_ascii(labels) {
                            assert forall|j: int|
                                0 <= j < label_bytes@.len() implies label_bytes@[j] < 128 by {
                                assert(labels[0][j] == label_bytes@[j]);
                            }
                            lemma_ascii_decode(label_bytes@);
                            assert forall|i2: int, j: int|
                                0 <= i2 < labels.drop_first().len() && 0 <= j
                                    < labels.drop_first()[i2].len() implies #[trigger] labels.drop_first()[i2][j]
                                < 128 by {
                                assert(labels[i2 + 1][j] == labels.drop_first()[i2][j]);
                            }
                            assert(s@ =~= spec_ascii_name_chars(labels));
                        }
                    }
                    Ok((s, 1 + len + rest.1))
                }
            },
        }
    }
}

/// The index of the first dot in `b`, or `b.len()` if there is none.
pub open spec fn spec_first_dot(b: Seq<u8>) -> int
    decreases b.len(),
{
    if b.len() == 0 {
        0
    } else if b[0] == 46 {
        0
    } else {
        1 + spec_first_dot(b.drop_first())
    }
}

/// The first dot's index is within bounds, points at a dot when it is not
/// the length, and nothing before it is a dot.
pub proof fn lemma_first_dot(b: Seq<u8>)
    ensures
        0 <= spec_first_dot(b) <= b.len(),
        spec_first_dot(b) < b.len() ==> b[spec_first_dot(b)] == 46,
        forall|j: int| 0 <= j < spec_first_dot(b) ==> b[j] != 46,
    decreases b.len(),
{
    if b.len() == 0 {
    } else if b[0] == 46 {
    } else {
        lemma_first_dot(b.drop_first());
        assert forall|j: int| 0 <= j < spec_first_dot(b) implies b[j] != 46 by {
            if j > 0 {
                assert(b.drop_first()[j - 1] == b[j]);
            }
        }
    }
}

/// An index with no dot before it, and a dot (or the end) at it, is the
/// first dot's index.
pub proof fn lemma_first_dot_unique(b: Seq<u8>, i: int)
    requires
        0 <= i <= b.len(),
        i == b.len() || b[i] == 46,
        forall|j: int| 0 <= j < i ==> b[j] != 46,
    ensures
        spec_first_dot(b) == i,
    decreases b.len(),
{
    if b.len() == 0 {
    } else if b[0] == 46 {
        assert(i == 0);
    } else {
        assert(i > 0);
        assert forall|j: int| 0 <= j < i - 1 implies b.drop_first()[j] != 46 by {
            assert(b.drop_first()[j] == b[j + 1]);
        }
        lemma_first_dot_unique(b.drop_first(), i - 1);
    }
}

/// The labels of a dotted name: the byte string split at every dot.  A
/// name with no dot is a single label; dots at the ends or next to each
/// other give empty labels, exactly as string splitting does.
pub open spec fn spec_split_labels(b: Seq<u8>) -> Seq<Seq<u8>>
    decreases b.len(),
    via spec_split_labels_decreases
{
    let i = spec_first_dot(b);
    if i >= b.len() {
        seq![b]
    } else {
        seq![b.subrange(0, i)] + spec_split_labels(b.subrange(i + 1, b.len() as int))
    }
}

#[via_fn]
proof fn spec_split_labels_decreases(b: Seq<u8>) {
    lemma_first_dot(b);
}

/// The uncompressed wire form of a label sequence: each label as a length
/// byte followed by its bytes, then a single zero terminator.
pub open spec fn spec_encode_labels(ls: Seq<Seq<u8>>) -> Seq<u8>
    decreases ls.len(),
{
    if ls.len() == 0 {
        seq![0u8]
    } else {
        seq![ls[0].len() as u8] + ls[0] + spec_encode_labels(ls.drop_first())
    }
}

/// The uncompressed wire form of a dotted name.
pub open spec fn spec_encode_name(b: Seq<u8>) -> Seq<u8> {
    spec_encode_labels(spec_split_labels(b))
}

/// Whether a dotted name can be encoded at all: every label must fit its
/// one-byte length prefix.
pub open spec fn spec_name_encodable(b: Seq<u8>) -> bool {
    forall|i: int|
        0 <= i < spec_split_labels(b).len() ==> #[trigger] spec_split_labels(b)[i].len() <= 255
}

/// Finds the end of the label starting at `start`: the next dot, or the
/// end of the bytes.
fn scan_label(bytes: &[u8], start: usize) -> (j: usize)
    requires
        start <= bytes@.len(),
    ensures
        start <= j <= bytes@.len(),
        j < bytes@.len() ==> bytes@[j as int] == 46,
        forall|k: int| start <= k < j ==> bytes@[k] != 46,
        spec_first_dot(bytes@.subrange(start as int, bytes@.len() as int)) == j - start,
{
    let mut j: usize = start;
    while j < bytes.len() && *vstd::slice::slice_index_get(bytes, j) != 46
        invariant
            start <= j <= bytes@.len(),
            forall|k: int| start <= k < j ==> bytes@[k] != 46,
        decreases bytes@.len() - j,
    {
        j = j + 1;
    }
    proof {
        let suffix = bytes@.subrange(start as int, bytes@.len() as int);
        assert forall|k: int| 0 <= k < j - start implies suffix[k] != 46 by {
            assert(suffix[k] == bytes@[k + start]);
        }
        lemma_first_dot_unique(suffix, j - start);
    }
    j
}

/// Appends the wire form of the labels of `bytes[start..]` to `out`.
fn encode_labels_into(bytes: &[u8], start: usize, out: &mut Vec<u8>)
    requires
        start <= bytes@.len(),
        spec_name_encodable(bytes@.subrange(start as int, bytes@.len() as int)),
    ensures
        final(out)@ == old(out)@ + spec_encode_labels(
            spec_split_labels(bytes@.subrange(start as int, bytes@.len() as int)),
        ),
    decreases bytes@.len() - start,
{
    let ghost suffix = bytes@.subrange(start as int, bytes@.len() as int);
    let ghost ls = spec_split_labels(suffix);
    let j = scan_label(bytes, start);
    let ghost label = suffix.subrange(0, j - start);
    proof {
        assert(label =~= bytes@.subrange(start as int, j as int));
        assert(ls[0] == label);
        assert(label.len() <= 255);
    }
    out.push((j - start) as u8);
    let mut k: usize = start;
    while k < j
        invariant
            start <= k <= j <= bytes@.len(),
            out@ == old(out)@ + seq![(j - start) as u8] + bytes@.subrange(
                start as int,
                k as int,
            ),
        decreases j - k,
    {
        out.push(*vstd::slice::slice_index_get(bytes, k));
        proof {
            assert(bytes@.subrange(start as int, k + 1) =~= bytes@.subrange(
                start as int,
                k as int,
            ).push(bytes@[k as int]));
            assert(out@.drop_last() + seq![bytes@[k as int]] =~= out@);
        }
        k = k + 1;
    }
    if j == bytes.len() {
        out.push(0u8);
        proof {
            reveal_with_fuel(spec_encode_labels, 2);
            assert(ls =~= seq![label]);
            assert(ls.drop_first() =~= Seq::<Seq<u8>>::empty());
            assert(spec_encode_labels(ls.drop_first()) =~= seq![0u8]);
            assert(ls[0].len() as u8 == (j - start) as u8);
            assert(out@ =~= old(out)@ + spec_encode_labels(ls));
        }
    } else {
        let ghost rest = bytes@.subrange(j + 1, bytes@.len() as int);
        proof {
            assert(rest =~= suffix.subrange(j - start + 1, suffix.len() as int));
            assert(ls =~= seq![label] + spec_split_labels(rest));
            assert forall|i: int|
                0 <= i < spec_split_labels(rest).len() implies #[trigger] spec_split_labels(
                rest,
            )[i].len() <= 255 by {
                assert(spec_split_labels(rest)[i] == ls[i + 1]);
            }
        }
        encode_labels_into(bytes, j + 1, out);
        proof {
            assert(ls.drop_first() =~= spec_split_labels(rest));
            assert(out@ =~= old(out)@ + spec_encode_labels(ls));
        }
    }
}

/// Encodes a dotted domain name into its uncompressed wire form: each
/// label as a length byte followed by its bytes, then a zero terminator.
/// Every label must fit in 255 bytes.
pub fn encode_dns_name(name: &str) -> (out: Vec<u8>)
    requires
        spec_name_encodable(name.spec_bytes()),
    ensures
        out@ == spec_encode_name(name.spec_bytes()),
{
    let bytes = name.as_bytes();
    let mut out: Vec<u8> = Vec::new();
    proof {
        assert(bytes@.subrange(0, bytes@.len() as int) =~= bytes@);
    }
    encode_labels_into(bytes, 0, &mut out);
    out
}

/// Decides [`spec_name_encodable`] for the labels of `bytes[start..]`.
fn labels_fit_from(bytes: &[u8], start: usize) -> (b: bool)
    requires
        start <= bytes@.len(),
    ensures
        b == spec_name_encodable(bytes@.subrange(start as int, bytes@.len() as int)),
    decreases bytes@.len() - start,
{
    let ghost suffix = bytes@.subrange(start as int, bytes@.len() as int);
    let ghost ls = spec_split_labels(suffix);
    let j = scan_label(bytes, start);
    proof {
        assert(ls[0] == suffix.subrange(0, j - start));
    }
    if j - start > 255 {
        proof {
            assert(ls[0].len() > 255);
        }
        false
    } else if j == bytes.len() {
        proof {
            assert(ls =~= seq![suffix]);
        }
        true
    } else {
        let ghost rest = bytes@.subrange(j + 1, bytes@.len() as int);
        proof {
            assert(rest =~= suffix.subrange(j - start + 1, suffix.len() as int));
            assert(ls =~= seq![ls[0]] + spec_split_labels(rest));
        }
        let r = labels_fit_from(bytes, j + 1);
        proof {
            if r {
                assert forall|i: int| 0 <= i < ls.len() implies #[trigger] ls[i].len()
                    <= 255 by {
                    if i > 0 {
                        assert(ls[i] == spec_split_labels(rest)[i - 1]);
                    }
                }
            } else {
                let i = choose|i: int|
                    0 <= i < spec_split_labels(rest).len() && #[trigger] spec_split_labels(
                        rest,
                    )[i].len() > 255;
                assert(ls[i + 1].len() > 255);
            }
        }
        r
    }
}

/// Whether every label of the dotted name fits its one-byte length
/// prefix, i.e. whether [`encode_dns_name`] accepts the name.
pub fn name_is_encodable(name: &str) -> (b: bool)
    ensures
        b == spec_name_encodable(name.spec_bytes()),
{
    let bytes = name.as_bytes();
    proof {
        assert(bytes@.subrange(0, bytes@.len() as int) =~= bytes@);
    }
    labels_fit_from(bytes, 0)
}

/// Decoding an encoded label sequence that sits at offset `p` of a buffer
/// recovers exactly those labels and consumes exactly the encoding's
/// length, for labels that are non-empty, short enough not to look like
/// pointers, and few enough to stay within the traversal bound.
pub proof fn lemma_decode_encoded_labels(buf: Seq<u8>, p: int, ls: Seq<Seq<u8>>, depth: int)
    requires
        0 <= depth,
        depth + ls.len() <= MAX_PTR_TRAVERSALS as int,
        forall|i: int| 0 <= i < ls.len() ==> 1 <= (#[trigger] ls[i]).len() <= 191,
        0 <= p,
        p + spec_encode_labels(ls).len() <= buf.len(),
        buf.subrange(p, p + spec_encode_labels(ls).len() as int) == spec_encode_labels(ls),
    ensures
        spec_decode_name_at(buf, p, buf.len() as int, depth) == Ok::<
            (Seq<Seq<u8>>, int),
            DecodeError,
        >((ls, spec_encode_labels(ls).len() as int)),
    decreases ls.len(),
{
    let enc = spec_encode_labels(ls);
    assert(forall|h: u8| (h & 0xc0 == 0xc0) <==> h >= 192) by (bit_vector);
    if ls.len() == 0 {
        assert(buf[p] == enc[0]);
        assert(buf[p] == 0);
        assert(ls =~= Seq::<Seq<u8>>::empty());
        assert(p < buf.len());
    } else {
        let l0 = ls[0];
        let n0 = l0.len() as int;
        let rest = ls.drop_first();
        let enc_rest = spec_encode_labels(rest);
        assert(enc =~= seq![l0.len() as u8] + l0 + enc_rest);
        assert(buf[p] == enc[0]);
        assert(buf[p] == l0.len() as u8);
        assert(1 <= buf[p] <= 191);
        assert(enc_rest.len() >= 1) by {
            if rest.len() == 0 {
            } else {
                assert(1 <= rest[0].len());
            }
        }
        assert(buf.subrange(p + 1, p + 1 + n0) =~= l0) by {
            assert forall|k: int| 0 <= k < n0 implies buf.subrange(p + 1, p + 1 + n0)[k]
                == l0[k] by {
                assert(buf.subrange(p, p + enc.len() as int)[k + 1] == enc[k + 1]);
            }
        }
        assert(buf.subrange(p + 1 + n0, p + 1 + n0 + enc_rest.len() as int) =~= enc_rest) by {
            assert forall|k: int| 0 <= k < enc_rest.len() implies buf.subrange(
                p + 1 + n0,
                p + 1 + n0 + enc_rest.len() as int,
            )[k] == enc_rest[k] by {
                assert(buf.subrange(p, p + enc.len() as int)[1 + n0 + k] == enc[1 + n0 + k]);
            }
        }
        assert forall|i: int| 0 <= i < rest.len() implies 1 <= (#[trigger] rest[i]).len()
            <= 191 by {
            assert(rest[i] == ls[i + 1]);
        }
        lemma_decode_encoded_labels(buf, p + 1 + n0, rest, depth + 1);
        let sub = spec_decode_name_at(buf, p + 1 + n0, buf.len() as int, depth + 1);
        assert(sub == Ok::<(Seq<Seq<u8>>, int), DecodeError>((rest, enc_rest.len() as int)));
        assert(!spec_is_pointer_byte(buf[p]));
        assert(buf[p] != 0);
        assert(p < buf.len());
        assert(buf[p] as int == n0);
        assert(p + 1 + buf[p] <= buf.len());
        assert(seq![buf.subrange(p + 1, p + 1 + buf[p] as int)] + rest =~= ls);
        assert(1 + buf[p] + enc_rest.len() == enc.len());
    }
}

/// Encoding a dotted name and decoding the result round-trips: the
/// decoder recovers exactly the name's labels, consuming the whole
/// encoding.  This holds for names whose labels are non-empty and at most
/// 191 bytes long (longer length bytes would read back as compression
/// pointers, and an empty label's length byte is the terminator), with at
/// most [`MAX_PTR_TRAVERSALS`] labels.
pub proof fn lemma_name_round_trip(b: Seq<u8>)
    requires
        spec_split_labels(b).len() <= MAX_PTR_TRAVERSALS as int,
        forall|i: int|
            0 <= i < spec_split_labels(b).len() ==> 1 <= (#[trigger] spec_split_labels(
                b,
            )[i]).len() <= 191,
    ensures
        spec_decode_name_at(spec_encode_name(b), 0, spec_encode_name(b).len() as int, 0) == Ok::<
            (Seq<Seq<u8>>, int),
            DecodeError,
        >((spec_split_labels(b), spec_encode_name(b).len() as int)),
{
    let enc = spec_encode_name(b);
    assert(enc.subrange(0, enc.len() as int) =~= enc);
    lemma_decode_encoded_labels(enc, 0, spec_split_labels(b), 0);
}

/// Joining a name's labels back with dots gives the name: rendering the
/// split labels one character per byte is exactly the original bytes'
/// characters.  Together with [`lemma_name_round_trip`] this closes the
/// round trip at the level of the decoded string.
pub proof fn lemma_join_split(b: Seq<u8>)
    ensures
        spec_ascii_name_chars(spec_split_labels(b)) == ascii_chars_of(b),
    decreases b.len(),
{
    lemma_first_dot(b);
    let i = spec_first_dot(b);
    let ls = spec_split_labels(b);
    if i >= b.len() {
        assert(ls =~= seq![b]);
    } else {
        let rest = b.subrange(i + 1, b.len() as int);
        lemma_join_split(rest);
        assert(spec_split_labels(rest).len() >= 1);
        assert(ls.drop_first() =~= spec_split_labels(rest));
        assert(ls.len() >= 2);
        assert(ls[0] == b.subrange(0, i));
        let left = ascii_chars_of(b.subrange(0, i)) + seq!['.'] + ascii_chars_of(rest);
        assert(left.len() == b.len());
        assert forall|k: int| 0 <= k < b.len() implies left[k] == ascii_chars_of(b)[k] by {
            if k < i {
                assert(b.subrange(0, i)[k] == b[k]);
            } else if k == i {
                assert(b[i] == 46);
                assert(46u8 as char == '.');
            } else {
                assert(rest[k - i - 1] == b[k]);
            }
        }
        assert(left =~= ascii_chars_of(b));
        assert(spec_ascii_name_chars(ls) == left);
    }
}

/// Splitting any valid UTF-8 name at its dots gives labels that are
/// valid UTF-8 on their own, and joining their decoded characters back
/// with dots decodes the whole name.  Together with
/// [`lemma_name_round_trip`] this closes the round trip at the level of
/// the decoded string for every well-formed name, not only ASCII ones.
pub proof fn lemma_join_split_utf8(b: Seq<u8>)
    requires
        valid_utf8(b),
    ensures
        spec_labels_utf8(spec_split_labels(b)),
        spec_utf8_name_chars(spec_split_labels(b)) == decode_utf8(b),
    decreases b.len(),
{
    lemma_first_dot(b);
    let i = spec_first_dot(b);
    let ls = spec_split_labels(b);
    if i >= b.len() {
        assert(ls =~= seq![b]);
    } else {
        assert(b[i] == 46);
        is_char_boundary_iff_not_is_continuation_byte(b, i);
        assert(is_char_boundary(b, i));
        valid_utf8_split(b, i);
        decode_utf8_split(b, i);
        let l0 = b.subrange(0, i);
        let right = b.subrange(i, b.len() as int);
        assert(right[0] == 46);
        assert(is_char_boundary(right, 1)) by {
            reveal_with_fuel(is_char_boundary, 2);
            assert(vstd::utf8::length_of_first_scalar(right) == 1);
        }
        valid_utf8_split(right, 1);
        decode_utf8_split(right, 1);
        let dot = right.subrange(0, 1);
        let rest = right.subrange(1, right.len() as int);
        assert(rest =~= b.subrange(i + 1, b.len() as int));
        assert(decode_utf8(dot) =~= seq!['.']) by {
            reveal_with_fuel(decode_utf8, 2);
            assert(dot[0] == 46);
            assert(46u8 & 0x7f == 46) by (bit_vector);
            assert(vstd::utf8::decode_first_scalar(dot) == 46);
            assert(vstd::utf8::pop_first_scalar(dot) =~= Seq::<u8>::empty());
        }
        lemma_join_split_utf8(rest);
        assert(ls.drop_first() =~= spec_split_labels(rest));
        assert(ls[0] == l0);
        assert(spec_split_labels(rest).len() >= 1);
        assert(ls.len() >= 2);
        assert forall|i2: int| 0 <= i2 < ls.len() implies valid_utf8(#[trigger] ls[i2]) by {
            if i2 > 0 {
                assert(ls[i2] == spec_split_labels(rest)[i2 - 1]);
            }
        }
        assert(decode_utf8(b) =~= decode_utf8(l0) + seq!['.'] + decode_utf8(rest));
        assert(spec_utf8_name_chars(ls) =~= decode_utf8(b));
    }
}

/// A pointer cycle cannot make name decoding hang: when the length byte
/// at `x` is a pointer to `y` and the one at `y` points back at `x`,
/// decoding at `x` fails with the bounded-traversal error.
pub proof fn lemma_pointer_cycle(buf: Seq<u8>, x: int, y: int, depth: int)
    requires
        0 <= depth,
        0 <= x,
        x + 2 <= buf.len(),
        0 <= y,
        y + 2 <= buf.len(),
        spec_is_pointer_byte(buf[x]),
        spec_pointer_target(buf, x) == y,
        spec_is_pointer_byte(buf[y]),
        spec_pointer_target(buf, y) == x,
    ensures
        spec_decode_name_at(buf, x, buf.len() as int, depth) == Err::<
            (Seq<Seq<u8>>, int),
            DecodeError,
        >(DecodeError::DepthExceeded),
    decreases 127 - depth,
{
    if depth > MAX_PTR_TRAVERSALS as int {
    } else {
        lemma_pointer_cycle(buf, y, x, depth + 1);
    }
}

/// Decodes the domain name starting at offset `pos` of `buffer`,
/// expanding compression pointers against the whole buffer.  On success
/// the result is the dot-joined name and the number of bytes the name
/// occupies at `pos` (a name ending in a pointer occupies only up to and
/// including the 2-byte pointer, however long the target is).
pub fn decode_dns_name(buffer: &[u8], pos: usize) -> (r: Result<(String, usize), DecodeError>)
    ensures
        ({
            let sr = spec_decode_name_at(buffer@, pos as int, buffer@.len() as int, 0);
            match r {
                Ok(p) => sr matches Ok(sp) && p.0@ == spec_name_chars(sp.0) && p.1 == sp.1 && (
                spec_labels_utf8(sp.0) ==> p.0@ == spec_utf8_name_chars(sp.0)) && (
                spec_labels_ascii(sp.0) ==> p.0@ == spec_ascii_name_chars(sp.0)),
                Err(e) => sr matches Err(e2) && e == e2,
            }
        }),
{
    decode_name_at(buffer, pos, buffer.len(), 0)
}

} // verus!

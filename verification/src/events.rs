use vstd::prelude::*;

use crate::bytes::{bytes_eq, Address, Bytes32};
use crate::encode::{read_word, word_to_u64, wtn};
use crate::errors::{MalformedEventError, TransactionRejectedError};
use crate::keccak::{keccak256, keccak_of};
use crate::schema::{Field, FieldKind, FieldView};
use vstd::utf8::encode_utf8;

verus! {

/// A registered event shape: its name, the exact signature string whose
/// hash identifies it, and its indexed and non-indexed fields, each list in
/// declared order.
pub struct EventDescriptor {
    pub name: String,
    pub signature: String,
    pub sig_hash: Bytes32,
    pub indexed: Vec<Field>,
    pub data_fields: Vec<Field>,
}

/// The mathematical model of an event descriptor.
pub struct EventDescriptorView {
    pub name: Seq<char>,
    pub signature: Seq<char>,
    pub indexed: Seq<FieldView>,
    pub data_fields: Seq<FieldView>,
}

impl View for EventDescriptor {
    type V = EventDescriptorView;

    open spec fn view(&self) -> EventDescriptorView {
        EventDescriptorView {
            name: self.name@,
            signature: self.signature@,
            indexed: self.indexed@.map_values(|f: Field| f@),
            data_fields: self.data_fields@.map_values(|f: Field| f@),
        }
    }
}

impl EventDescriptor {
    /// The stored signature hash is the hash of the signature string, and
    /// no non-indexed field is a string array, which the data decoder does
    /// not take.
    pub open spec fn wf(&self) -> bool {
        &&& self.sig_hash.wf()
        &&& self.sig_hash@ == keccak_of(encode_utf8(self.signature@))
        &&& forall|i: int|
            0 <= i < self@.data_fields.len() ==> (#[trigger] self@.data_fields[i]).kind
                != FieldKind::TextArray
    }

    /// Builds a descriptor, computing the signature hash of the given
    /// signature string.
    pub fn new(name: String, signature: String, indexed: Vec<Field>, data_fields: Vec<Field>) -> (r:
        EventDescriptor)
        requires
            forall|i: int|
                0 <= i < data_fields@.len() ==> (#[trigger] data_fields@[i]).kind
                    != FieldKind::TextArray,
        ensures
            r.wf(),
            r@.name == name@,
            r@.signature == signature@,
            r@.indexed == indexed@.map_values(|f: Field| f@),
            r@.data_fields == data_fields@.map_values(|f: Field| f@),
    {
        let sig_bytes = signature.as_str().as_bytes();
        let h = keccak256(sig_bytes);
        let r = EventDescriptor {
            name,
            signature,
            sig_hash: Bytes32::new(h),
            indexed,
            data_fields,
        };
        proof {
            assert(forall|i: int|
                0 <= i < r@.data_fields.len() ==> (#[trigger] r@.data_fields[i]).kind
                    != FieldKind::TextArray);
        }
        r
    }
}

/// A decoded field value: a string's raw UTF-8 bytes, a full 32-byte word
/// (fixed words and numbers), or an address from a slot's low 20 bytes.
pub enum DecodedValue {
    Text(Vec<u8>),
    Word(Bytes32),
    Addr(Address),
}

/// The mathematical model of a decoded value.
pub enum DecodedView {
    Text(Seq<u8>),
    Word(Seq<u8>),
    Addr(Seq<u8>),
}

impl View for DecodedValue {
    type V = DecodedView;

    open spec fn view(&self) -> DecodedView {
        match self {
            DecodedValue::Text(b) => DecodedView::Text(b@),
            DecodedValue::Word(w) => DecodedView::Word(w@),
            DecodedValue::Addr(a) => DecodedView::Addr(a@),
        }
    }
}

/// One decoded field: its declared name and its value.
pub struct DecodedField {
    pub name: String,
    pub value: DecodedValue,
}

impl View for DecodedField {
    type V = (Seq<char>, DecodedView);

    open spec fn view(&self) -> (Seq<char>, DecodedView) {
        (self.name@, self.value@)
    }
}

/// A decoded event: the descriptor's name and the decoded fields, indexed
/// fields first in declared order, then the non-indexed fields in declared
/// order.
pub struct DecodedEvent {
    pub name: String,
    pub fields: Vec<DecodedField>,
}

/// The mathematical model of a decoded event.
pub struct DecodedEventView {
    pub name: Seq<char>,
    pub fields: Seq<(Seq<char>, DecodedView)>,
}

impl View for DecodedEvent {
    type V = DecodedEventView;

    open spec fn view(&self) -> DecodedEventView {
        DecodedEventView {
            name: self.name@,
            fields: self.fields@.map_values(|f: DecodedField| f@),
        }
    }
}

/// The value an indexed field takes directly from its topic slot: address
/// fields take the low 20 bytes, every other kind the whole word (a
/// dynamic field's topic holds its hash).
pub open spec fn topic_value(k: FieldKind, w: Seq<u8>) -> DecodedView {
    match k {
        FieldKind::Account => DecodedView::Addr(w.skip(12)),
        _ => DecodedView::Word(w),
    }
}

/// The value the `i`-th non-indexed field takes from the data buffer, or
/// `None` when the buffer is too short: static kinds read the `i`-th head
/// word; a string field's head word is an offset into the buffer, where a
/// length word and the string's bytes follow.
pub open spec fn data_value(k: FieldKind, data: Seq<u8>, i: int) -> Option<DecodedView> {
    if 32 * i + 32 > data.len() {
        None
    } else {
        let w = data.subrange(32 * i, 32 * i + 32);
        match k {
            FieldKind::Text => {
                let off = wtn(w) as int;
                if off + 32 > data.len() {
                    None
                } else {
                    let l = wtn(data.subrange(off, off + 32)) as int;
                    if off + 32 + l > data.len() {
                        None
                    } else {
                        Some(DecodedView::Text(data.subrange(off + 32, off + 32 + l)))
                    }
                }
            },
            FieldKind::TextArray => None,
            FieldKind::Account => Some(DecodedView::Addr(w.skip(12))),
            _ => Some(DecodedView::Word(w)),
        }
    }
}

/// Every non-indexed field can be read from the data buffer.
pub open spec fn decode_data_ok(fields: Seq<FieldView>, data: Seq<u8>) -> bool {
    forall|i: int|
        0 <= i < fields.len() ==> data_value((#[trigger] fields[i]).kind, data, i) is Some
}

/// The byte sequences of a topic list.
pub open spec fn topic_views(ts: Seq<Bytes32>) -> Seq<Seq<u8>> {
    ts.map_values(|t: Bytes32| t@)
}

/// A log matches a descriptor when its first topic equals the hash of the
/// descriptor's signature string.
pub open spec fn log_matches(d: EventDescriptorView, topics: Seq<Seq<u8>>) -> bool {
    topics.len() > 0 && topics[0] == keccak_of(encode_utf8(d.signature))
}

/// The log's topic list holds exactly one slot per indexed field, after
/// the signature slot.
pub open spec fn topic_count_ok(d: EventDescriptorView, topics: Seq<Seq<u8>>) -> bool {
    topics.len() == 1 + d.indexed.len()
}

/// The decoded fields of a matching, well-shaped log: indexed fields from
/// `topics[1..]` in declared order, then non-indexed fields from the data
/// buffer in declared order.
pub open spec fn decoded_fields(
    d: EventDescriptorView,
    topics: Seq<Seq<u8>>,
    data: Seq<u8>,
) -> Seq<(Seq<char>, DecodedView)> {
    Seq::new(d.indexed.len(), |i: int| (d.indexed[i].name, topic_value(d.indexed[i].kind, topics[1 + i])))
        + Seq::new(
        d.data_fields.len(),
        |i: int| (d.data_fields[i].name, data_value(d.data_fields[i].kind, data, i).unwrap()),
    )
}

/// The decoded event of a matching, well-shaped log.
pub open spec fn decoded_event(
    d: EventDescriptorView,
    topics: Seq<Seq<u8>>,
    data: Seq<u8>,
) -> DecodedEventView {
    DecodedEventView { name: d.name, fields: decoded_fields(d, topics, data) }
}

/// All topics of a log hold 32 bytes.
pub open spec fn topics_wf(ts: Seq<Bytes32>) -> bool {
    forall|i: int| 0 <= i < ts.len() ==> (#[trigger] ts[i]).wf()
}

/// Reads an indexed field's value out of its topic slot.
fn decode_topic(k: FieldKind, w: &Bytes32) -> (r: DecodedValue)
    requires
        w.wf(),
    ensures
        r@ == topic_value(k, w@),
{
    match k {
        FieldKind::Account => {
            let mut bytes: Vec<u8> = Vec::new();
            let mut j: usize = 0;
            while j < 20
                invariant
                    j <= 20,
                    w@.len() == 32,
                    bytes@ == w@.subrange(12, 12 + j as int),
                decreases 20 - j,
            {
                bytes.push(w.bytes[12 + j]);
                proof {
                    assert(w@.subrange(12, 12 + j as int + 1) =~= w@.subrange(
                        12,
                        12 + j as int,
                    ).push(w@[12 + j as int]));
                }
                j = j + 1;
            }
            proof {
                assert(bytes@ =~= w@.skip(12));
            }
            DecodedValue::Addr(Address { bytes })
        },
        _ => DecodedValue::Word(Bytes32 { bytes: crate::bytes::clone_bytes(&w.bytes) }),
    }
}

/// Reads the `i`-th non-indexed field's value out of the data buffer, or
/// `None` when the buffer is too short for it.
fn decode_data_field(k: FieldKind, data: &Vec<u8>, i: usize) -> (r: Option<DecodedValue>)
    requires
        k != FieldKind::TextArray,
    ensures
        match r {
            Some(v) => data_value(k, data@, i as int) == Some(v@),
            None => data_value(k, data@, i as int) is None,
        },
{
    let n = data.len();
    if n / 32 < 1 || i > n / 32 - 1 {
        proof {
            assert(32 * (i as int) + 32 > data@.len());
        }
        return None;
    }
    proof {
        assert(32 * (i as int) + 32 <= data@.len());
    }
    let head = read_word(data.as_slice(), 32 * i);
    match k {
        FieldKind::Text => {
            let off64 = match word_to_u64(head.as_slice()) {
                Some(x) => x,
                None => {
                    proof {
                        assert(wtn(head@) > u64::MAX >= data@.len());
                    }
                    return None;
                },
            };
            if off64 > n as u64 || (n as u64) - off64 < 32 {
                return None;
            }
            let off = off64 as usize;
            let len_word = read_word(data.as_slice(), off);
            let ghost spec_l = wtn(data@.subrange(off as int, off as int + 32));
            let l64 = match word_to_u64(len_word.as_slice()) {
                Some(x) => x,
                None => {
                    proof {
                        assert(spec_l > u64::MAX >= data@.len());
                    }
                    return None;
                },
            };
            if (n as u64) - off64 - 32 < l64 {
                return None;
            }
            let l = l64 as usize;
            let mut bytes: Vec<u8> = Vec::new();
            let mut j: usize = 0;
            while j < l
                invariant
                    j <= l,
                    n == data@.len(),
                    off + 32 + l <= n,
                    bytes@ == data@.subrange(off as int + 32, off as int + 32 + j as int),
                decreases l - j,
            {
                bytes.push(data[off + 32 + j]);
                proof {
                    assert(data@.subrange(off as int + 32, off as int + 32 + j as int + 1)
                        =~= data@.subrange(off as int + 32, off as int + 32 + j as int).push(
                        data@[off as int + 32 + j as int],
                    ));
                }
                j = j + 1;
            }
            Some(DecodedValue::Text(bytes))
        },
        FieldKind::Account => {
            let mut bytes: Vec<u8> = Vec::new();
            let mut j: usize = 0;
            while j < 20
                invariant
                    j <= 20,
                    head@.len() == 32,
                    bytes@ == head@.subrange(12, 12 + j as int),
                decreases 20 - j,
            {
                bytes.push(head[12 + j]);
                proof {
                    assert(head@.subrange(12, 12 + j as int + 1) =~= head@.subrange(
                        12,
                        12 + j as int,
                    ).push(head@[12 + j as int]));
                }
                j = j + 1;
            }
            proof {
                assert(bytes@ =~= head@.skip(12));
            }
            Some(DecodedValue::Addr(Address { bytes }))
        },
        _ => Some(DecodedValue::Word(Bytes32 { bytes: head })),
    }
}

/// Decodes one raw log against a descriptor.  A log whose first topic does
/// not equal the descriptor's signature hash yields `Ok(None)`: skipping is
/// not an error.  A matching log decodes to its typed fields, or fails with
/// `MalformedEventError` when the topic count disagrees with the declared
/// indexed fields or the data buffer is too short.
pub fn decode_log(desc: &EventDescriptor, topics: &Vec<Bytes32>, data: &Vec<u8>) -> (r: Result<
    Option<DecodedEvent>,
    MalformedEventError,
>)
    requires
        desc.wf(),
        topics_wf(topics@),
    ensures
        !log_matches(desc@, topic_views(topics@)) ==> (r matches Ok(o) && o is None),
        log_matches(desc@, topic_views(topics@)) ==> match r {
            Ok(o) => o matches Some(ev) && topic_count_ok(desc@, topic_views(topics@))
                && decode_data_ok(desc@.data_fields, data@) && ev@ == decoded_event(
                desc@,
                topic_views(topics@),
                data@,
            ),
            Err(e) => if e == MalformedEventError::TopicCountMismatch {
                !topic_count_ok(desc@, topic_views(topics@))
            } else {
                topic_count_ok(desc@, topic_views(topics@)) && !decode_data_ok(
                    desc@.data_fields,
                    data@,
                )
            },
        },
{
    let ghost tvs: Seq<Seq<u8>> = topic_views(topics@);
    if topics.len() == 0 {
        return Ok(None);
    }
    if !bytes_eq(&topics[0].bytes, &desc.sig_hash.bytes) {
        proof {
            assert(tvs[0] == topics@[0]@);
        }
        return Ok(None);
    }
    proof {
        assert(tvs[0] == topics@[0]@);
        assert(log_matches(desc@, tvs));
    }
    if topics.len() - 1 != desc.indexed.len() {
        return Err(MalformedEventError::TopicCountMismatch);
    }
    let mut fields: Vec<DecodedField> = Vec::new();
    let mut i: usize = 0;
    while i < desc.indexed.len()
        invariant
            i <= desc.indexed@.len(),
            desc@.indexed.len() == desc.indexed@.len(),
            topics@.len() == 1 + desc.indexed@.len(),
            topics_wf(topics@),
            tvs == topic_views(topics@),
            log_matches(desc@, tvs),
            desc.wf(),
            fields@.len() == i,
            forall|j: int|
                0 <= j < i ==> (#[trigger] fields@[j])@ == (
                    desc@.indexed[j].name,
                    topic_value(desc@.indexed[j].kind, tvs[1 + j]),
                ),
        decreases desc.indexed@.len() - i,
    {
        let f = &desc.indexed[i];
        let v = decode_topic(f.kind, &topics[1 + i]);
        fields.push(DecodedField { name: f.name.clone(), value: v });
        proof {
            assert(tvs[1 + i as int] == topics@[1 + i as int]@);
            assert(desc@.indexed[i as int] == f@);
        }
        i = i + 1;
    }
    let ghost n_idx: int = desc.indexed@.len() as int;
    let mut d: usize = 0;
    while d < desc.data_fields.len()
        invariant
            d <= desc.data_fields@.len(),
            desc@.data_fields.len() == desc.data_fields@.len(),
            desc@.indexed.len() == n_idx,
            topics@.len() == 1 + n_idx,
            tvs == topic_views(topics@),
            log_matches(desc@, tvs),
            desc.wf(),
            fields@.len() == n_idx + d,
            forall|j: int|
                0 <= j < n_idx ==> (#[trigger] fields@[j])@ == (
                    desc@.indexed[j].name,
                    topic_value(desc@.indexed[j].kind, tvs[1 + j]),
                ),
            forall|j: int|
                0 <= j < d ==> data_value((#[trigger] desc@.data_fields[j]).kind, data@, j)
                    is Some,
            forall|j: int|
                0 <= j < d ==> (#[trigger] fields@[n_idx + j])@ == (
                    desc@.data_fields[j].name,
                    data_value(desc@.data_fields[j].kind, data@, j).unwrap(),
                ),
        decreases desc.data_fields@.len() - d,
    {
        let f = &desc.data_fields[d];
        proof {
            assert(desc@.data_fields[d as int] == f@);
        }
        match decode_data_field(f.kind, data, d) {
            Some(v) => {
                fields.push(DecodedField { name: f.name.clone(), value: v });
            },
            None => {
                return Err(MalformedEventError::DataTooShort);
            },
        }
        d = d + 1;
    }
    let ev = DecodedEvent { name: desc.name.clone(), fields };
    proof {
        let m = fields@.map_values(|f: DecodedField| f@);
        let want = decoded_fields(desc@, tvs, data@);
        assert forall|idx: int| 0 <= idx < m.len() implies m[idx] == want[idx] by {
            assert(m[idx] == fields@[idx]@);
            if idx < n_idx {
                assert(fields@[idx]@ == (
                    desc@.indexed[idx].name,
                    topic_value(desc@.indexed[idx].kind, tvs[1 + idx]),
                ));
            } else {
                assert(fields@[n_idx + (idx - n_idx)]@ == (
                    desc@.data_fields[idx - n_idx].name,
                    data_value(desc@.data_fields[idx - n_idx].kind, data@, idx - n_idx).unwrap(),
                ));
            }
        }
        assert(m =~= want);
        assert(ev@ == decoded_event(desc@, tvs, data@));
    }
    Ok(Some(ev))
}

/// A raw ledger log: an ordered topic list and an opaque data buffer.
pub struct RawLog {
    pub topics: Vec<Bytes32>,
    pub data: Vec<u8>,
}

/// The mathematical model of a raw log.
pub struct RawLogView {
    pub topics: Seq<Seq<u8>>,
    pub data: Seq<u8>,
}

impl View for RawLog {
    type V = RawLogView;

    open spec fn view(&self) -> RawLogView {
        RawLogView { topics: topic_views(self.topics@), data: self.data@ }
    }
}

impl RawLog {
    /// A well-formed log holds 32-byte topics.
    pub open spec fn wf(&self) -> bool {
        topics_wf(self.topics@)
    }
}

/// What scanning an ordered log sequence yields: the decoded events of the
/// matching logs, in order, or the first matching log's decode failure.
pub open spec fn scan_spec(d: EventDescriptorView, logs: Seq<RawLogView>) -> Result<
    Seq<DecodedEventView>,
    MalformedEventError,
>
    decreases logs.len(),
{
    if logs.len() == 0 {
        Ok(Seq::empty())
    } else {
        match scan_spec(d, logs.drop_last()) {
            Ok(pre) => {
                let lg = logs.last();
                if !log_matches(d, lg.topics) {
                    Ok(pre)
                } else if !topic_count_ok(d, lg.topics) {
                    Err(MalformedEventError::TopicCountMismatch)
                } else if !decode_data_ok(d.data_fields, lg.data) {
                    Err(MalformedEventError::DataTooShort)
                } else {
                    Ok(pre.push(decoded_event(d, lg.topics, lg.data)))
                }
            },
            Err(e) => Err(e),
        }
    }
}

/// Scans an ordered sequence of raw logs and keeps the decoded events of
/// the logs that match the descriptor, in order.  Unmatched logs are
/// skipped; a matching log that cannot be decoded is an error.  An empty
/// result is a valid outcome: the event was not emitted.
pub fn scan_logs(desc: &EventDescriptor, logs: &Vec<RawLog>) -> (r: Result<
    Vec<DecodedEvent>,
    MalformedEventError,
>)
    requires
        desc.wf(),
        forall|i: int| 0 <= i < logs@.len() ==> (#[trigger] logs@[i]).wf(),
    ensures
        match r {
            Ok(evs) => scan_spec(desc@, logs@.map_values(|lg: RawLog| lg@)) == Ok::<
                Seq<DecodedEventView>,
                MalformedEventError,
            >(evs@.map_values(|e: DecodedEvent| e@)),
            Err(e) => scan_spec(desc@, logs@.map_values(|lg: RawLog| lg@)) == Err::<
                Seq<DecodedEventView>,
                MalformedEventError,
            >(e),
        },
{
    let ghost lvs: Seq<RawLogView> = logs@.map_values(|lg: RawLog| lg@);
    let mut out: Vec<DecodedEvent> = Vec::new();
    proof {
        assert(lvs.subrange(0, 0) =~= Seq::<RawLogView>::empty());
        assert(out@.map_values(|e: DecodedEvent| e@) =~= Seq::<DecodedEventView>::empty());
    }
    let mut i: usize = 0;
    while i < logs.len()
        invariant
            i <= logs@.len(),
            desc.wf(),
            forall|j: int| 0 <= j < logs@.len() ==> (#[trigger] logs@[j]).wf(),
            lvs == logs@.map_values(|lg: RawLog| lg@),
            lvs.len() == logs@.len(),
            scan_spec(desc@, lvs.subrange(0, i as int)) == Ok::<
                Seq<DecodedEventView>,
                MalformedEventError,
            >(out@.map_values(|e: DecodedEvent| e@)),
        decreases logs@.len() - i,
    {
        let lg = &logs[i];
        let ghost pre = lvs.subrange(0, i as int);
        let ghost post = lvs.subrange(0, i as int + 1);
        proof {
            assert(post.drop_last() =~= pre);
            assert(post.last() == lvs[i as int]);
            assert(lvs[i as int] == logs@[i as int]@);
        }
        match decode_log(desc, &lg.topics, &lg.data) {
            Ok(Some(ev)) => {
                let ghost old_out = out@;
                out.push(ev);
                proof {
                    assert(out@.map_values(|e: DecodedEvent| e@) =~= old_out.map_values(
                        |e: DecodedEvent| e@,
                    ).push(ev@));
                }
            },
            Ok(None) => {},
            Err(e) => {
                proof {
                    assert(lvs.subrange(0, lvs.len() as int) =~= lvs);
                    lemma_scan_err_extends(desc@, lvs, i as int, e);
                }
                return Err(e);
            },
        }
        i = i + 1;
    }
    proof {
        assert(lvs.subrange(0, lvs.len() as int) =~= lvs);
    }
    Ok(out)
}

/// Once a prefix scan fails, scanning any extension fails the same way.
proof fn lemma_scan_err_extends(
    d: EventDescriptorView,
    logs: Seq<RawLogView>,
    i: int,
    e: MalformedEventError,
)
    requires
        0 <= i < logs.len(),
        scan_spec(d, logs.subrange(0, i + 1)) == Err::<Seq<DecodedEventView>, MalformedEventError>(
            e,
        ),
    ensures
        scan_spec(d, logs) == Err::<Seq<DecodedEventView>, MalformedEventError>(e),
    decreases logs.len() - i,
{
    if i + 1 == logs.len() {
        assert(logs.subrange(0, i + 1) =~= logs);
    } else {
        assert(logs.subrange(0, i + 2).drop_last() =~= logs.subrange(0, i + 1));
        lemma_scan_err_extends(d, logs, i + 1, e);
    }
}

/// How a receipt-level failure is reported: the ledger rejected the
/// transaction, or a matching log could not be decoded.
#[derive(PartialEq, Eq, Structural, Clone, Copy, Debug)]
pub enum ReceiptError {
    Rejected(TransactionRejectedError),
    Malformed(MalformedEventError),
}

/// Handles a submission receipt: a status flag other than 1 is an on-chain
/// rejection; otherwise the receipt's logs are scanned for the descriptor's
/// events.
pub fn process_receipt(desc: &EventDescriptor, status: u64, logs: &Vec<RawLog>) -> (r: Result<
    Vec<DecodedEvent>,
    ReceiptError,
>)
    requires
        desc.wf(),
        forall|i: int| 0 <= i < logs@.len() ==> (#[trigger] logs@[i]).wf(),
    ensures
        status != 1 ==> r == Err::<Vec<DecodedEvent>, ReceiptError>(
            ReceiptError::Rejected(TransactionRejectedError),
        ),
        status == 1 ==> match r {
            Ok(evs) => scan_spec(desc@, logs@.map_values(|lg: RawLog| lg@)) == Ok::<
                Seq<DecodedEventView>,
                MalformedEventError,
            >(evs@.map_values(|e: DecodedEvent| e@)),
            Err(re) => re matches ReceiptError::Malformed(e) && scan_spec(
                desc@,
                logs@.map_values(|lg: RawLog| lg@),
            ) == Err::<Seq<DecodedEventView>, MalformedEventError>(e),
        },
{
    if status != 1 {
        return Err(ReceiptError::Rejected(TransactionRejectedError));
    }
    match scan_logs(desc, logs) {
        Ok(evs) => Ok(evs),
        Err(e) => Err(ReceiptError::Malformed(e)),
    }
}

/// Relies on String::from_utf8: succeeds exactly when the bytes are valid
/// UTF-8, and then the string's characters encode back to those bytes.
#[verifier::external_body]
fn utf8_to_string(bytes: Vec<u8>) -> (r: Option<String>)
    ensures
        match r {
            Some(s) => encode_utf8(s@) == bytes@,
            None => !vstd::utf8::valid_utf8(bytes@),
        },
{
    match String::from_utf8(bytes) {
        Ok(s) => Some(s),
        Err(_) => None,
    }
}

/// The item-creation event as typed values: the item's name, its 32-byte
/// identifier, and its owner's address.
pub struct ItemCreatedEvent {
    pub name: String,
    pub unique_id: Bytes32,
    pub owner: Address,
}

/// A decoded field list has the item-creation shape: a 32-byte word, an
/// address, and a valid UTF-8 string, in that order.
pub open spec fn item_created_ok(f: Seq<(Seq<char>, DecodedView)>) -> bool {
    &&& f.len() == 3
    &&& f[0].1 matches DecodedView::Word(w) && w.len() == 32
    &&& f[1].1 matches DecodedView::Addr(a) && a.len() == 20
    &&& f[2].1 matches DecodedView::Text(t) && vstd::utf8::valid_utf8(t)
}

/// The newest decoded event, from the end, whose fields have the
/// item-creation shape.
pub open spec fn last_item_created_spec(evs: Seq<DecodedEventView>) -> Option<DecodedEventView>
    decreases evs.len(),
{
    if evs.len() == 0 {
        None
    } else if item_created_ok(evs.last().fields) {
        Some(evs.last())
    } else {
        last_item_created_spec(evs.drop_last())
    }
}

impl ItemCreatedEvent {
    /// A well-formed event holds a 32-byte identifier and a 20-byte owner.
    pub open spec fn wf(&self) -> bool {
        self.unique_id.wf() && self.owner.wf()
    }

    /// The empty event: no name, zero identifier, zero owner.
    pub fn init() -> (r: ItemCreatedEvent)
        ensures
            r.wf(),
            r.name@.len() == 0,
            r.unique_id@ == Seq::new(32, |i: int| 0u8),
            r.owner@ == Seq::new(20, |i: int| 0u8),
    {
        ItemCreatedEvent {
            name: String::new(),
            unique_id: Bytes32::zero(),
            owner: Address::zero(),
        }
    }

    pub fn new(name: String, unique_id: Bytes32, owner: Address) -> (r: ItemCreatedEvent)
        ensures
            r.name == name,
            r.unique_id == unique_id,
            r.owner == owner,
    {
        ItemCreatedEvent { name, unique_id, owner }
    }

    /// The descriptor of `ItemCreated(string,bytes32,address)`: the
    /// identifier and owner are indexed, the name sits in the data buffer.
    pub open spec fn descriptor_view() -> EventDescriptorView {
        EventDescriptorView {
            name: "ItemCreated"@,
            signature: "ItemCreated(string,bytes32,address)"@,
            indexed: seq![
                FieldView { name: "uniqueId"@, kind: FieldKind::Word },
                FieldView { name: "owner"@, kind: FieldKind::Account },
            ],
            data_fields: seq![FieldView { name: "name"@, kind: FieldKind::Text }],
        }
    }

    /// Builds the item-creation event descriptor.
    pub fn descriptor() -> (r: EventDescriptor)
        ensures
            r.wf(),
            r@ == Self::descriptor_view(),
    {
        let mut indexed: Vec<Field> = Vec::new();
        indexed.push(Field { name: String::from_str("uniqueId"), kind: FieldKind::Word });
        indexed.push(Field { name: String::from_str("owner"), kind: FieldKind::Account });
        let mut data_fields: Vec<Field> = Vec::new();
        data_fields.push(Field { name: String::from_str("name"), kind: FieldKind::Text });
        let r = EventDescriptor::new(
            String::from_str("ItemCreated"),
            String::from_str("ItemCreated(string,bytes32,address)"),
            indexed,
            data_fields,
        );
        proof {
            assert(r@.indexed =~= Self::descriptor_view().indexed);
            assert(r@.data_fields =~= Self::descriptor_view().data_fields);
            assert(r@ == Self::descriptor_view());
        }
        r
    }

    /// Converts a decoded event of the item-creation shape into its typed
    /// values; `None` exactly when the fields do not have that shape.
    pub fn from_decoded(ev: &DecodedEvent) -> (r: Option<ItemCreatedEvent>)
        ensures
            r is Some <==> item_created_ok(ev@.fields),
            r matches Some(it) ==> it.wf() && ev@.fields[0].1 == DecodedView::Word(it.unique_id@)
                && ev@.fields[1].1 == DecodedView::Addr(it.owner@) && ev@.fields[2].1
                == DecodedView::Text(encode_utf8(it.name@)),
    {
        if ev.fields.len() != 3 {
            return None;
        }
        let w = match &ev.fields[0].value {
            DecodedValue::Word(w) => {
                if w.bytes.len() != 32 {
                    return None;
                }
                Bytes32 { bytes: crate::bytes::clone_bytes(&w.bytes) }
            },
            _ => {
                return None;
            },
        };
        let a = match &ev.fields[1].value {
            DecodedValue::Addr(a) => {
                if a.bytes.len() != 20 {
                    return None;
                }
                Address { bytes: crate::bytes::clone_bytes(&a.bytes) }
            },
            _ => {
                return None;
            },
        };
        let name = match &ev.fields[2].value {
            DecodedValue::Text(t) => {
                match utf8_to_string(crate::bytes::clone_bytes(t)) {
                    Some(s) => s,
                    None => {
                        return None;
                    },
                }
            },
            _ => {
                return None;
            },
        };
        proof {
            assert(ev@.fields.len() == 3);
            assert(ev@.fields[0] == ev.fields@[0]@);
            assert(ev@.fields[1] == ev.fields@[1]@);
            assert(ev@.fields[2] == ev.fields@[2]@);
            vstd::utf8::encode_utf8_valid_utf8(name@);
        }
        Some(ItemCreatedEvent { name, unique_id: w, owner: a })
    }

    /// Picks the newest event of the item-creation shape out of a scan's
    /// results, as the caller that submits a creation does, and hands it
    /// back typed; `None` when no event has that shape.
    pub fn last_in(events: &Vec<DecodedEvent>) -> (r: Option<ItemCreatedEvent>)
        ensures
            match r {
                Some(it) => last_item_created_spec(events@.map_values(|e: DecodedEvent| e@))
                    matches Some(ev) && it.wf() && ev.fields[0].1 == DecodedView::Word(
                    it.unique_id@,
                ) && ev.fields[1].1 == DecodedView::Addr(it.owner@) && ev.fields[2].1
                    == DecodedView::Text(encode_utf8(it.name@)),
                None => last_item_created_spec(events@.map_values(|e: DecodedEvent| e@)) is None,
            },
    {
        let ghost evs: Seq<DecodedEventView> = events@.map_values(|e: DecodedEvent| e@);
        let mut i: usize = events.len();
        proof {
            assert(evs.subrange(0, evs.len() as int) =~= evs);
        }
        while i > 0
            invariant
                i <= events@.len(),
                evs == events@.map_values(|e: DecodedEvent| e@),
                evs.len() == events@.len(),
                last_item_created_spec(evs) == last_item_created_spec(
                    evs.subrange(0, i as int),
                ),
            decreases i,
        {
            let ghost pre = evs.subrange(0, i as int);
            proof {
                assert(pre.drop_last() =~= evs.subrange(0, i as int - 1));
                assert(pre.last() == evs[i as int - 1]);
                assert(evs[i as int - 1] == events@[i as int - 1]@);
            }
            match Self::from_decoded(&events[i - 1]) {
                Some(it) => {
                    return Some(it);
                },
                None => {},
            }
            i = i - 1;
        }
        proof {
            assert(evs.subrange(0, 0) =~= Seq::<DecodedEventView>::empty());
        }
        None
    }
}

/// A typed item event, as handed back to callers.
pub struct ItemEvent {
    pub name: String,
    pub unique_id: Bytes32,
    pub owner: Address,
}

} // verus!

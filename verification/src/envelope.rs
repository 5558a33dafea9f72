//! The wire unit of the protocol: an envelope `{type, id?, payload?}`,
//! together with its text encoding and a strict decoder. The encoding is a
//! small JSON-shaped grammar over bytes: the envelope is an object whose
//! `type` field names one of the five message types, whose optional `id`
//! field carries the client-chosen operation id as an escaped string, and
//! whose optional `payload` field carries the payload text as an escaped
//! string. The decoder accepts exactly the canonical encoding; anything else
//! is malformed.

use vstd::prelude::*;

verus! {

/// The double-quote byte, which delimits strings on the wire.
pub const QUOTE: u8 = 34;

/// The backslash byte, which escapes a quote or a backslash inside a string.
pub const BACKSLASH: u8 = 92;

/// The closing brace byte that ends an envelope.
pub const RBRACE: u8 = 125;

/// The message types of the sub-protocol.
#[derive(Clone, Copy, Debug, PartialEq, Eq, Structural)]
pub enum MsgType {
    ConnectionInit,
    Start,
    Stop,
    Data,
    Error,
}

/// One wire envelope: a message type, an optional operation id and an
/// optional payload, both byte strings.
#[derive(Debug)]
pub struct Envelope {
    pub msg_type: MsgType,
    pub operation_id: Option<Vec<u8>>,
    pub payload: Option<Vec<u8>>,
}

/// The mathematical value of an envelope.
pub struct EnvelopeV {
    pub msg_type: MsgType,
    pub operation_id: Option<Seq<u8>>,
    pub payload: Option<Seq<u8>>,
}

impl View for Envelope {
    type V = EnvelopeV;

    open spec fn view(&self) -> EnvelopeV {
        EnvelopeV {
            msg_type: self.msg_type,
            operation_id: match self.operation_id {
                Option::Some(v) => Option::Some(v@),
                Option::None => Option::None,
            },
            payload: match self.payload {
                Option::Some(v) => Option::Some(v@),
                Option::None => Option::None,
            },
        }
    }
}

/// Which fields each message type carries: `connection_init` has no id,
/// `start` and `data` carry id and payload, `stop` carries only an id, and
/// `error` always has a payload and may have no id (parse failures).
pub open spec fn wf_envelope(e: EnvelopeV) -> bool {
    match e.msg_type {
        MsgType::ConnectionInit => e.operation_id is None && e.payload is None,
        MsgType::Start => e.operation_id is Some && e.payload is Some,
        MsgType::Stop => e.operation_id is Some && e.payload is None,
        MsgType::Data => e.operation_id is Some && e.payload is Some,
        MsgType::Error => e.payload is Some,
    }
}

/// The escaping of one byte: a quote or a backslash is preceded by a
/// backslash; every other byte stands for itself.
pub open spec fn esc1(b: u8) -> Seq<u8> {
    if b == QUOTE || b == BACKSLASH {
        seq![BACKSLASH, b]
    } else {
        seq![b]
    }
}

/// The escaped form of a byte string.
pub open spec fn esc(s: Seq<u8>) -> Seq<u8>
    decreases s.len(),
{
    if s.len() == 0 {
        Seq::empty()
    } else {
        esc1(s[0]) + esc(s.skip(1))
    }
}

/// Reads an escaped string up to its closing quote; yields the unescaped
/// content and what follows the quote, or nothing if no closing quote comes.
pub open spec fn scan_str(s: Seq<u8>) -> Option<(Seq<u8>, Seq<u8>)>
    decreases s.len(),
{
    if s.len() == 0 {
        Option::None
    } else if s[0] == QUOTE {
        Option::Some((Seq::empty(), s.skip(1)))
    } else if s[0] == BACKSLASH {
        if s.len() < 2 {
            Option::None
        } else {
            match scan_str(s.skip(2)) {
                Option::Some(p) => Option::Some((seq![s[1]] + p.0, p.1)),
                Option::None => Option::None,
            }
        }
    } else {
        match scan_str(s.skip(1)) {
            Option::Some(p) => Option::Some((seq![s[0]] + p.0, p.1)),
            Option::None => Option::None,
        }
    }
}

/// Scanning the escaped form of a string followed by a closing quote yields
/// the string back and leaves the rest untouched.
pub proof fn lemma_scan_esc(p: Seq<u8>, rest: Seq<u8>)
    ensures
        scan_str(esc(p) + seq![QUOTE] + rest) == Option::Some((p, rest)),
    decreases p.len(),
{
    if p.len() == 0 {
        let s = esc(p) + seq![QUOTE] + rest;
        assert(s =~= seq![QUOTE] + rest);
        assert(s[0] == QUOTE);
        assert(s.skip(1) =~= rest);
    } else {
        let s = esc(p) + seq![QUOTE] + rest;
        let tail = esc(p.skip(1)) + seq![QUOTE] + rest;
        lemma_scan_esc(p.skip(1), rest);
        if p[0] == QUOTE || p[0] == BACKSLASH {
            assert(s =~= seq![BACKSLASH, p[0]] + tail);
            assert(s[0] == BACKSLASH);
            assert(s[1] == p[0]);
            assert(s.len() >= 2);
            assert(s.skip(2) =~= tail);
            assert(seq![s[1]] + p.skip(1) =~= p);
        } else {
            assert(s =~= seq![p[0]] + tail);
            assert(s[0] == p[0]);
            assert(s.skip(1) =~= tail);
            assert(seq![s[0]] + p.skip(1) =~= p);
        }
    }
}

/// If a string holds no quote and no backslash, escaping leaves it as it is.
pub proof fn lemma_esc_clean(s: Seq<u8>)
    requires
        forall|i: int| 0 <= i < s.len() ==> s[i] != QUOTE && s[i] != BACKSLASH,
    ensures
        esc(s) == s,
    decreases s.len(),
{
    if s.len() == 0 {
        assert(esc(s) =~= s);
    } else {
        lemma_esc_clean(s.skip(1));
        assert(esc(s) =~= seq![s[0]] + s.skip(1));
        assert(seq![s[0]] + s.skip(1) =~= s);
    }
}

/// Appending one byte appends its escaped form.
pub proof fn lemma_esc_push(s: Seq<u8>, b: u8)
    ensures
        esc(s.push(b)) == esc(s) + esc1(b),
    decreases s.len(),
{
    if s.len() == 0 {
        let sb = s.push(b);
        assert(sb[0] == b);
        assert(sb.skip(1) =~= Seq::<u8>::empty());
        assert(esc(sb.skip(1)) == Seq::<u8>::empty());
        assert(esc(sb) == esc1(b) + Seq::<u8>::empty());
        assert(esc(s) == Seq::<u8>::empty());
        assert(esc1(b) + Seq::<u8>::empty() =~= Seq::<u8>::empty() + esc1(b));
        assert(esc(s.push(b)) =~= esc(s) + esc1(b));
    } else {
        assert(s.push(b)[0] == s[0]);
        assert(s.push(b).skip(1) =~= s.skip(1).push(b));
        lemma_esc_push(s.skip(1), b);
        assert(esc(s.push(b)) =~= esc(s) + esc1(b));
    }
}

/// The bytes `{"type":"` that open every envelope.
pub open spec fn header() -> Seq<u8> {
    seq![123u8, 34, 116, 121, 112, 101, 34, 58, 34]
}

/// The bytes `,"id":"` that open the id field.
pub open spec fn id_prefix() -> Seq<u8> {
    seq![44u8, 34, 105, 100, 34, 58, 34]
}

/// The bytes `,"payload":"` that open the payload field.
pub open spec fn payload_prefix() -> Seq<u8> {
    seq![44u8, 34, 112, 97, 121, 108, 111, 97, 100, 34, 58, 34]
}

/// The wire word for each message type.
pub open spec fn type_word(t: MsgType) -> Seq<u8> {
    match t {
        MsgType::ConnectionInit => seq![
            99u8, 111, 110, 110, 101, 99, 116, 105, 111, 110, 95, 105, 110, 105, 116,
        ],
        MsgType::Start => seq![115u8, 116, 97, 114, 116],
        MsgType::Stop => seq![115u8, 116, 111, 112],
        MsgType::Data => seq![100u8, 97, 116, 97],
        MsgType::Error => seq![101u8, 114, 114, 111, 114],
    }
}

/// An optional field on the wire: nothing when absent, else its opening
/// bytes, the escaped value and a closing quote.
pub open spec fn enc_opt_field(pre: Seq<u8>, v: Option<Seq<u8>>) -> Seq<u8> {
    match v {
        Option::None => Seq::empty(),
        Option::Some(s) => pre + esc(s) + seq![QUOTE],
    }
}

/// The canonical encoding of an envelope.
pub open spec fn enc_envelope(e: EnvelopeV) -> Seq<u8> {
    header() + type_word(e.msg_type) + seq![QUOTE] + enc_opt_field(id_prefix(), e.operation_id)
        + enc_opt_field(payload_prefix(), e.payload) + seq![RBRACE]
}

/// Whether `p` opens `s`.
pub open spec fn starts_with(s: Seq<u8>, p: Seq<u8>) -> bool {
    s.len() >= p.len() && s.take(p.len() as int) == p
}

/// The message type a wire word names, if any.
pub open spec fn word_type(w: Seq<u8>) -> Option<MsgType> {
    if w == type_word(MsgType::ConnectionInit) {
        Option::Some(MsgType::ConnectionInit)
    } else if w == type_word(MsgType::Start) {
        Option::Some(MsgType::Start)
    } else if w == type_word(MsgType::Stop) {
        Option::Some(MsgType::Stop)
    } else if w == type_word(MsgType::Data) {
        Option::Some(MsgType::Data)
    } else if w == type_word(MsgType::Error) {
        Option::Some(MsgType::Error)
    } else {
        Option::None
    }
}

/// Reads one optional field: when its opening bytes are present the escaped
/// string after them is required, otherwise the input is left whole.
pub open spec fn dec_field(s: Seq<u8>, pre: Seq<u8>) -> Option<(Option<Seq<u8>>, Seq<u8>)> {
    if starts_with(s, pre) {
        match scan_str(s.skip(pre.len() as int)) {
            Option::Some(p) => Option::Some((Option::Some(p.0), p.1)),
            Option::None => Option::None,
        }
    } else {
        Option::Some((Option::None, s))
    }
}

/// The strict decoder: accepts exactly the canonical encoding of a
/// well-formed envelope.
pub open spec fn dec_envelope(s: Seq<u8>) -> Option<EnvelopeV> {
    if !starts_with(s, header()) {
        Option::None
    } else {
        match scan_str(s.skip(header().len() as int)) {
            Option::None => Option::None,
            Option::Some(wr) => match word_type(wr.0) {
                Option::None => Option::None,
                Option::Some(t) => match dec_field(wr.1, id_prefix()) {
                    Option::None => Option::None,
                    Option::Some(ir) => match dec_field(ir.1, payload_prefix()) {
                        Option::None => Option::None,
                        Option::Some(pr) => if pr.1 == seq![RBRACE] {
                            let e = EnvelopeV {
                                msg_type: t,
                                operation_id: ir.0,
                                payload: pr.0,
                            };
                            if wf_envelope(e) {
                                Option::Some(e)
                            } else {
                                Option::None
                            }
                        } else {
                            Option::None
                        },
                    },
                },
            },
        }
    }
}

/// A wire word holds neither quote nor backslash.
pub proof fn lemma_word_clean(t: MsgType)
    ensures
        forall|i: int| 0 <= i < type_word(t).len() ==> type_word(t)[i] != QUOTE && type_word(t)[i]
            != BACKSLASH,
        esc(type_word(t)) == type_word(t),
{
    lemma_esc_clean(type_word(t));
}

/// The five wire words name their own message types.
pub proof fn lemma_word_type(t: MsgType)
    ensures
        word_type(type_word(t)) == Option::Some(t),
{
    assert(type_word(MsgType::ConnectionInit).len() == 15);
    assert(type_word(MsgType::Start).len() == 5);
    assert(type_word(MsgType::Stop).len() == 4);
    assert(type_word(MsgType::Data).len() == 4);
    assert(type_word(MsgType::Error).len() == 5);
    assert(type_word(MsgType::Stop)[2] != type_word(MsgType::Data)[2]);
    assert(type_word(MsgType::Start)[0] != type_word(MsgType::Error)[0]);
}

/// Law: decoding the encoding of a well-formed envelope gives the envelope
/// back, for every message type.
pub proof fn lemma_envelope_round_trip(e: EnvelopeV)
    requires
        wf_envelope(e),
    ensures
        dec_envelope(enc_envelope(e)) == Option::Some(e),
{
    let s = enc_envelope(e);
    let idpart = enc_opt_field(id_prefix(), e.operation_id);
    let paypart = enc_opt_field(payload_prefix(), e.payload);
    let word = type_word(e.msg_type);
    let after_header = word + seq![QUOTE] + (idpart + paypart + seq![RBRACE]);

    // The header opens the encoding.
    assert(s.take(header().len() as int) =~= header());
    assert(s.skip(header().len() as int) =~= after_header);

    // The type word is scanned back unchanged.
    lemma_word_clean(e.msg_type);
    lemma_scan_esc(word, idpart + paypart + seq![RBRACE]);
    assert(esc(word) + seq![QUOTE] + (idpart + paypart + seq![RBRACE]) =~= after_header);
    assert(scan_str(after_header) == Option::Some((word, idpart + paypart + seq![RBRACE])));
    lemma_word_type(e.msg_type);

    // The id field.
    let rest1 = idpart + paypart + seq![RBRACE];
    let rest2 = paypart + seq![RBRACE];
    match e.operation_id {
        Option::Some(oid) => {
            assert(rest1 =~= id_prefix() + (esc(oid) + seq![QUOTE] + rest2));
            assert(rest1.take(id_prefix().len() as int) =~= id_prefix());
            assert(rest1.skip(id_prefix().len() as int) =~= esc(oid) + seq![QUOTE] + rest2);
            lemma_scan_esc(oid, rest2);
            assert(dec_field(rest1, id_prefix()) == Option::Some(
                (Option::Some(oid), rest2),
            ));
        },
        Option::None => {
            assert(rest1 =~= rest2);
            // `rest2` never opens with the id field's bytes: it is either the
            // single closing brace or it opens the payload field, whose third
            // byte differs.
            if starts_with(rest2, id_prefix()) {
                match e.payload {
                    Option::Some(p) => {
                        assert(rest2[2] == payload_prefix()[2]);
                        assert(rest2.take(id_prefix().len() as int)[2] == id_prefix()[2]);
                        assert(false);
                    },
                    Option::None => {
                        assert(rest2.len() == 1);
                        assert(false);
                    },
                }
            }
            assert(dec_field(rest1, id_prefix()) == Option::Some(
                (Option::None::<Seq<u8>>, rest2),
            ));
        },
    }

    // The payload field.
    match e.payload {
        Option::Some(p) => {
            assert(rest2 =~= payload_prefix() + (esc(p) + seq![QUOTE] + seq![RBRACE]));
            assert(rest2.take(payload_prefix().len() as int) =~= payload_prefix());
            assert(rest2.skip(payload_prefix().len() as int) =~= esc(p) + seq![QUOTE] + seq![
                RBRACE,
            ]);
            lemma_scan_esc(p, seq![RBRACE]);
            assert(dec_field(rest2, payload_prefix()) == Option::Some(
                (Option::Some(p), seq![RBRACE]),
            ));
        },
        Option::None => {
            assert(rest2 =~= seq![RBRACE]);
            assert(rest2.len() == 1);
            assert(!starts_with(rest2, payload_prefix()));
            assert(dec_field(rest2, payload_prefix()) == Option::Some(
                (Option::None::<Seq<u8>>, seq![RBRACE]),
            ));
        },
    }
    assert(dec_envelope(s) == Option::Some(e));
}

fn push_header(out: &mut Vec<u8>)
    ensures
        final(out)@ == old(out)@ + header(),
{
    out.push(123);
    out.push(34);
    out.push(116);
    out.push(121);
    out.push(112);
    out.push(101);
    out.push(34);
    out.push(58);
    out.push(34);
    assert(out@ =~= old(out)@ + header());
}

fn push_id_prefix(out: &mut Vec<u8>)
    ensures
        final(out)@ == old(out)@ + id_prefix(),
{
    out.push(44);
    out.push(34);
    out.push(105);
    out.push(100);
    out.push(34);
    out.push(58);
    out.push(34);
    assert(out@ =~= old(out)@ + id_prefix());
}

fn push_payload_prefix(out: &mut Vec<u8>)
    ensures
        final(out)@ == old(out)@ + payload_prefix(),
{
    out.push(44);
    out.push(34);
    out.push(112);
    out.push(97);
    out.push(121);
    out.push(108);
    out.push(111);
    out.push(97);
    out.push(100);
    out.push(34);
    out.push(58);
    out.push(34);
    assert(out@ =~= old(out)@ + payload_prefix());
}

fn push_type_word(out: &mut Vec<u8>, t: MsgType)
    ensures
        final(out)@ == old(out)@ + type_word(t),
{
    match t {
        MsgType::ConnectionInit => {
            out.push(99);
            out.push(111);
            out.push(110);
            out.push(110);
            out.push(101);
            out.push(99);
            out.push(116);
            out.push(105);
            out.push(111);
            out.push(110);
            out.push(95);
            out.push(105);
            out.push(110);
            out.push(105);
            out.push(116);
        },
        MsgType::Start => {
            out.push(115);
            out.push(116);
            out.push(97);
            out.push(114);
            out.push(116);
        },
        MsgType::Stop => {
            out.push(115);
            out.push(116);
            out.push(111);
            out.push(112);
        },
        MsgType::Data => {
            out.push(100);
            out.push(97);
            out.push(116);
            out.push(97);
        },
        MsgType::Error => {
            out.push(101);
            out.push(114);
            out.push(114);
            out.push(111);
            out.push(114);
        },
    }
    assert(out@ =~= old(out)@ + type_word(t));
}

pub(crate) fn push_escaped(out: &mut Vec<u8>, s: &Vec<u8>)
    ensures
        final(out)@ == old(out)@ + esc(s@),
{
    let base: Ghost<Seq<u8>> = Ghost(out@);
    let mut i: usize = 0;
    assert(s@.take(0) =~= Seq::<u8>::empty());
    while i < s.len()
        invariant
            i <= s.len(),
            out@ == base@ + esc(s@.take(i as int)),
        decreases s.len() - i,
    {
        let b = s[i];
        if b == QUOTE || b == BACKSLASH {
            out.push(BACKSLASH);
            out.push(b);
        } else {
            out.push(b);
        }
        proof {
            lemma_esc_push(s@.take(i as int), b);
            assert(s@.take(i as int).push(b) =~= s@.take(i as int + 1));
            assert(out@ =~= base@ + esc(s@.take(i as int + 1)));
        }
        i = i + 1;
    }
    assert(s@.take(s@.len() as int) =~= s@);
}

/// Writes the canonical wire form of an envelope.
pub fn encode(e: &Envelope) -> (r: Vec<u8>)
    ensures
        r@ == enc_envelope(e@),
{
    let mut out: Vec<u8> = Vec::new();
    push_header(&mut out);
    push_type_word(&mut out, e.msg_type);
    out.push(QUOTE);
    match &e.operation_id {
        Option::Some(oid) => {
            push_id_prefix(&mut out);
            push_escaped(&mut out, oid);
            out.push(QUOTE);
        },
        Option::None => {},
    }
    match &e.payload {
        Option::Some(p) => {
            push_payload_prefix(&mut out);
            push_escaped(&mut out, p);
            out.push(QUOTE);
        },
        Option::None => {},
    }
    out.push(RBRACE);
    assert(out@ =~= enc_envelope(e@));
    out
}

/// Whether the bytes of `p` stand at position `i` of `s`.
pub(crate) fn starts_with_at(s: &Vec<u8>, i: usize, p: &Vec<u8>) -> (b: bool)
    requires
        i <= s@.len(),
    ensures
        b == starts_with(s@.skip(i as int), p@),
{
    let n = s.len();
    let m = p.len();
    if n - i < m {
        return false;
    }
    let mut k: usize = 0;
    while k < m
        invariant
            k <= m,
            i <= n,
            m == p@.len(),
            n == s@.len(),
            m <= n - i,
            forall|j: int| 0 <= j < k ==> s@[i + j] == p@[j],
        decreases m - k,
    {
        if s[i + k] != p[k] {
            proof {
                let t = s@.skip(i as int).take(p@.len() as int);
                assert(t[k as int] == s@[i + k]);
                assert(t != p@);
            }
            return false;
        }
        k = k + 1;
    }
    proof {
        assert(s@.skip(i as int).take(p@.len() as int) =~= p@);
    }
    true
}

fn id_prefix_vec() -> (r: Vec<u8>)
    ensures
        r@ == id_prefix(),
{
    let mut out: Vec<u8> = Vec::new();
    push_id_prefix(&mut out);
    assert(out@ =~= id_prefix());
    out
}

fn payload_prefix_vec() -> (r: Vec<u8>)
    ensures
        r@ == payload_prefix(),
{
    let mut out: Vec<u8> = Vec::new();
    push_payload_prefix(&mut out);
    assert(out@ =~= payload_prefix());
    out
}

fn header_vec() -> (r: Vec<u8>)
    ensures
        r@ == header(),
{
    let mut out: Vec<u8> = Vec::new();
    push_header(&mut out);
    assert(out@ =~= header());
    out
}

fn type_word_vec(t: MsgType) -> (r: Vec<u8>)
    ensures
        r@ == type_word(t),
{
    let mut out: Vec<u8> = Vec::new();
    push_type_word(&mut out, t);
    assert(out@ =~= type_word(t));
    out
}

/// Reads an escaped string that starts at position `i`; on success hands back
/// its content and the position just after the closing quote.
pub(crate) fn scan_string(s: &Vec<u8>, i: usize) -> (r: Option<(Vec<u8>, usize)>)
    requires
        i <= s@.len(),
    ensures
        match r {
            Option::Some(p) => i <= p.1 <= s@.len() && scan_str(s@.skip(i as int))
                == Option::Some((p.0@, s@.skip(p.1 as int))),
            Option::None => scan_str(s@.skip(i as int)) is None,
        },
{
    let mut acc: Vec<u8> = Vec::new();
    let mut k: usize = i;
    loop
        invariant
            i <= k <= s@.len(),
            scan_str(s@.skip(i as int)) == (match scan_str(s@.skip(k as int)) {
                Option::Some(p) => Option::Some((acc@ + p.0, p.1)),
                Option::None => Option::None::<(Seq<u8>, Seq<u8>)>,
            }),
        decreases s@.len() - k,
    {
        if k >= s.len() {
            proof {
                assert(s@.skip(k as int) =~= Seq::<u8>::empty());
            }
            return None;
        }
        let b = s[k];
        proof {
            assert(s@.skip(k as int)[0] == b);
        }
        if b == QUOTE {
            proof {
                assert(s@.skip(k as int).skip(1) =~= s@.skip(k as int + 1));
                assert(acc@ + Seq::<u8>::empty() =~= acc@);
            }
            return Some((acc, k + 1));
        } else if b == BACKSLASH {
            if k + 1 >= s.len() {
                proof {
                    assert(s@.skip(k as int).len() == 1);
                }
                return None;
            }
            let c = s[k + 1];
            proof {
                assert(s@.skip(k as int)[1] == c);
                assert(s@.skip(k as int).skip(2) =~= s@.skip(k as int + 2));
                assert(forall|q: Seq<u8>| acc@ + (seq![c] + q) =~= acc@.push(c) + q);
            }
            acc.push(c);
            k = k + 2;
        } else {
            proof {
                assert(s@.skip(k as int).skip(1) =~= s@.skip(k as int + 1));
                assert(forall|q: Seq<u8>| acc@ + (seq![b] + q) =~= acc@.push(b) + q);
            }
            acc.push(b);
            k = k + 1;
        }
    }
}

/// Compares two byte vectors.
pub(crate) fn bytes_eq(a: &Vec<u8>, b: &Vec<u8>) -> (r: bool)
    ensures
        r == (a@ == b@),
{
    if a.len() != b.len() {
        return false;
    }
    let mut k: usize = 0;
    while k < a.len()
        invariant
            k <= a@.len(),
            a@.len() == b@.len(),
            forall|j: int| 0 <= j < k ==> a@[j] == b@[j],
        decreases a.len() - k,
    {
        if a[k] != b[k] {
            return false;
        }
        k = k + 1;
    }
    proof {
        assert(a@ =~= b@);
    }
    true
}

fn word_to_type(w: &Vec<u8>) -> (r: Option<MsgType>)
    ensures
        r == word_type(w@),
{
    let ci = type_word_vec(MsgType::ConnectionInit);
    let st = type_word_vec(MsgType::Start);
    let sp = type_word_vec(MsgType::Stop);
    let da = type_word_vec(MsgType::Data);
    let er = type_word_vec(MsgType::Error);
    if bytes_eq(w, &ci) {
        Some(MsgType::ConnectionInit)
    } else if bytes_eq(w, &st) {
        Some(MsgType::Start)
    } else if bytes_eq(w, &sp) {
        Some(MsgType::Stop)
    } else if bytes_eq(w, &da) {
        Some(MsgType::Data)
    } else if bytes_eq(w, &er) {
        Some(MsgType::Error)
    } else {
        None
    }
}

impl Envelope {
    /// Whether the envelope carries the fields its type asks for.
    pub fn is_well_formed(&self) -> (b: bool)
        ensures
            b == wf_envelope(self@),
    {
        match self.msg_type {
            MsgType::ConnectionInit => self.operation_id.is_none() && self.payload.is_none(),
            MsgType::Start => self.operation_id.is_some() && self.payload.is_some(),
            MsgType::Stop => self.operation_id.is_some() && self.payload.is_none(),
            MsgType::Data => self.operation_id.is_some() && self.payload.is_some(),
            MsgType::Error => self.payload.is_some(),
        }
    }
}

/// Reads one optional field at position `i`; hands back its value, if
/// present, and the position where the next part starts.
pub(crate) fn decode_field(s: &Vec<u8>, i: usize, pre: &Vec<u8>) -> (r: Option<(Option<Vec<u8>>, usize)>)
    requires
        i <= s@.len(),
    ensures
        match r {
            Option::Some(p) => i <= p.1 <= s@.len() && dec_field(s@.skip(i as int), pre@)
                == Option::Some(
                (
                    match p.0 {
                        Option::Some(v) => Option::Some(v@),
                        Option::None => Option::None,
                    },
                    s@.skip(p.1 as int),
                ),
            ),
            Option::None => dec_field(s@.skip(i as int), pre@) is None,
        },
{
    if starts_with_at(s, i, pre) {
        let n = s.len();
        let pl = pre.len();
        proof {
            assert(s@.skip(i as int).len() >= pre@.len());
            assert(i + pl <= n);
            assert(s@.skip(i as int).skip(pre@.len() as int) =~= s@.skip(
                i as int + pre@.len() as int,
            ));
        }
        match scan_string(s, i + pl) {
            Option::Some((v, j)) => Some((Some(v), j)),
            Option::None => None,
        }
    } else {
        Some((None, i))
    }
}

/// Reads an envelope from its canonical wire form; malformed text gives
/// nothing back.
pub fn decode(s: &Vec<u8>) -> (r: Option<Envelope>)
    ensures
        match r {
            Option::Some(e) => dec_envelope(s@) == Option::Some(e@),
            Option::None => dec_envelope(s@) is None,
        },
{
    let hd = header_vec();
    proof {
        assert(s@.skip(0) =~= s@);
    }
    if !starts_with_at(s, 0, &hd) {
        return None;
    }
    proof {
        assert(s@.skip(0).skip(header().len() as int) =~= s@.skip(header().len() as int));
    }
    let wr = match scan_string(s, hd.len()) {
        Option::Some(p) => p,
        Option::None => {
            return None;
        },
    };
    let t = match word_to_type(&wr.0) {
        Option::Some(t) => t,
        Option::None => {
            return None;
        },
    };
    let idp = id_prefix_vec();
    let ir = match decode_field(s, wr.1, &idp) {
        Option::Some(p) => p,
        Option::None => {
            return None;
        },
    };
    let pp = payload_prefix_vec();
    let pr = match decode_field(s, ir.1, &pp) {
        Option::Some(p) => p,
        Option::None => {
            return None;
        },
    };
    // The closing brace must end the text.
    if !(pr.1 < s.len() && s.len() - pr.1 == 1 && s[pr.1] == RBRACE) {
        proof {
            let tail = s@.skip(pr.1 as int);
            if tail.len() == 1 && tail[0] == RBRACE {
                assert(s@[pr.1 as int] == RBRACE);
                assert(false);
            }
            assert(tail != seq![RBRACE]);
        }
        return None;
    }
    proof {
        assert(s@.skip(pr.1 as int) =~= seq![RBRACE]);
    }
    let e = Envelope { msg_type: t, operation_id: ir.0, payload: pr.0 };
    if e.is_well_formed() {
        Some(e)
    } else {
        None
    }
}

} // verus!

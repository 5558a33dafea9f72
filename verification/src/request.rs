//! The payload of a `start` envelope parsed into an operation request:
//! a query document, an optional operation name and optional variables.
//! The payload grammar is a flat JSON-shaped object of escaped strings:
//! `{"query":"...","operationName":"...","variables":"..."}`, the last two
//! fields optional. A payload of any other shape is malformed and starts
//! nothing.

use vstd::prelude::*;

use crate::envelope::{
    dec_field, decode_field, esc, lemma_scan_esc, scan_str, scan_string, starts_with,
    starts_with_at, BACKSLASH, QUOTE, RBRACE,
};

verus! {

/// An operation request as handed to the operation executor.
#[derive(Debug)]
pub struct GraphqlRequest {
    pub query: Vec<u8>,
    pub operation_name: Option<Vec<u8>>,
    pub variables: Option<Vec<u8>>,
}

/// The mathematical value of a request.
pub struct RequestV {
    pub query: Seq<u8>,
    pub operation_name: Option<Seq<u8>>,
    pub variables: Option<Seq<u8>>,
}

impl View for GraphqlRequest {
    type V = RequestV;

    open spec fn view(&self) -> RequestV {
        RequestV {
            query: self.query@,
            operation_name: match self.operation_name {
                Option::Some(v) => Option::Some(v@),
                Option::None => Option::None,
            },
            variables: match self.variables {
                Option::Some(v) => Option::Some(v@),
                Option::None => Option::None,
            },
        }
    }
}

/// The bytes `{"query":"` that open every request payload.
pub open spec fn query_prefix() -> Seq<u8> {
    seq![123u8, 34, 113, 117, 101, 114, 121, 34, 58, 34]
}

/// The bytes `,"operationName":"` that open the operation name field.
pub open spec fn op_name_prefix() -> Seq<u8> {
    seq![
        44u8, 34, 111, 112, 101, 114, 97, 116, 105, 111, 110, 78, 97, 109, 101, 34, 58, 34,
    ]
}

/// The bytes `,"variables":"` that open the variables field.
pub open spec fn variables_prefix() -> Seq<u8> {
    seq![44u8, 34, 118, 97, 114, 105, 97, 98, 108, 101, 115, 34, 58, 34]
}

/// The canonical encoding of a request payload.
pub open spec fn enc_request(r: RequestV) -> Seq<u8> {
    query_prefix() + esc(r.query) + seq![QUOTE] + (match r.operation_name {
        Option::None => Seq::<u8>::empty(),
        Option::Some(s) => op_name_prefix() + esc(s) + seq![QUOTE],
    }) + (match r.variables {
        Option::None => Seq::<u8>::empty(),
        Option::Some(s) => variables_prefix() + esc(s) + seq![QUOTE],
    }) + seq![RBRACE]
}

/// The strict request parser: accepts exactly the canonical encoding.
pub open spec fn dec_request(s: Seq<u8>) -> Option<RequestV> {
    if !starts_with(s, query_prefix()) {
        Option::None
    } else {
        match scan_str(s.skip(query_prefix().len() as int)) {
            Option::None => Option::None,
            Option::Some(qr) => match dec_field(qr.1, op_name_prefix()) {
                Option::None => Option::None,
                Option::Some(nr) => match dec_field(nr.1, variables_prefix()) {
                    Option::None => Option::None,
                    Option::Some(vr) => if vr.1 == seq![RBRACE] {
                        Option::Some(
                            RequestV { query: qr.0, operation_name: nr.0, variables: vr.0 },
                        )
                    } else {
                        Option::None
                    },
                },
            },
        }
    }
}

/// Law: parsing the encoding of a request gives the request back.
pub proof fn lemma_request_round_trip(r: RequestV)
    ensures
        dec_request(enc_request(r)) == Option::Some(r),
{
    let s = enc_request(r);
    let namepart = match r.operation_name {
        Option::None => Seq::<u8>::empty(),
        Option::Some(n) => op_name_prefix() + esc(n) + seq![QUOTE],
    };
    let varpart = match r.variables {
        Option::None => Seq::<u8>::empty(),
        Option::Some(v) => variables_prefix() + esc(v) + seq![QUOTE],
    };
    let rest1 = namepart + varpart + seq![RBRACE];
    let rest2 = varpart + seq![RBRACE];

    assert(s.take(query_prefix().len() as int) =~= query_prefix());
    assert(s.skip(query_prefix().len() as int) =~= esc(r.query) + seq![QUOTE] + rest1);
    lemma_scan_esc(r.query, rest1);

    match r.operation_name {
        Option::Some(n) => {
            assert(rest1 =~= op_name_prefix() + (esc(n) + seq![QUOTE] + rest2));
            assert(rest1.take(op_name_prefix().len() as int) =~= op_name_prefix());
            assert(rest1.skip(op_name_prefix().len() as int) =~= esc(n) + seq![QUOTE] + rest2);
            lemma_scan_esc(n, rest2);
            assert(dec_field(rest1, op_name_prefix()) == Option::Some((Option::Some(n), rest2)));
        },
        Option::None => {
            assert(rest1 =~= rest2);
            if starts_with(rest2, op_name_prefix()) {
                match r.variables {
                    Option::Some(v) => {
                        assert(rest2[2] == variables_prefix()[2]);
                        assert(rest2.take(op_name_prefix().len() as int)[2] == op_name_prefix()[2]);
                        assert(false);
                    },
                    Option::None => {
                        assert(rest2.len() == 1);
                        assert(false);
                    },
                }
            }
            assert(dec_field(rest1, op_name_prefix()) == Option::Some(
                (Option::None::<Seq<u8>>, rest2),
            ));
        },
    }

    match r.variables {
        Option::Some(v) => {
            assert(rest2 =~= variables_prefix() + (esc(v) + seq![QUOTE] + seq![RBRACE]));
            assert(rest2.take(variables_prefix().len() as int) =~= variables_prefix());
            assert(rest2.skip(variables_prefix().len() as int) =~= esc(v) + seq![QUOTE] + seq![
                RBRACE,
            ]);
            lemma_scan_esc(v, seq![RBRACE]);
            assert(dec_field(rest2, variables_prefix()) == Option::Some(
                (Option::Some(v), seq![RBRACE]),
            ));
        },
        Option::None => {
            assert(rest2 =~= seq![RBRACE]);
            assert(rest2.len() == 1);
            assert(!starts_with(rest2, variables_prefix()));
            assert(dec_field(rest2, variables_prefix()) == Option::Some(
                (Option::None::<Seq<u8>>, seq![RBRACE]),
            ));
        },
    }
    assert(dec_request(s) == Option::Some(
        RequestV { query: r.query, operation_name: r.operation_name, variables: r.variables },
    ));
    assert(RequestV {
        query: r.query,
        operation_name: r.operation_name,
        variables: r.variables,
    } == r);
}

fn query_prefix_vec() -> (r: Vec<u8>)
    ensures
        r@ == query_prefix(),
{
    let mut out: Vec<u8> = Vec::new();
    out.push(123);
    out.push(34);
    out.push(113);
    out.push(117);
    out.push(101);
    out.push(114);
    out.push(121);
    out.push(34);
    out.push(58);
    out.push(34);
    assert(out@ =~= query_prefix());
    out
}

fn op_name_prefix_vec() -> (r: Vec<u8>)
    ensures
        r@ == op_name_prefix(),
{
    let mut out: Vec<u8> = Vec::new();
    out.push(44);
    out.push(34);
    out.push(111);
    out.push(112);
    out.push(101);
    out.push(114);
    out.push(97);
    out.push(116);
    out.push(105);
    out.push(111);
    out.push(110);
    out.push(78);
    out.push(97);
    out.push(109);
    out.push(101);
    out.push(34);
    out.push(58);
    out.push(34);
    assert(out@ =~= op_name_prefix());
    out
}

fn variables_prefix_vec() -> (r: Vec<u8>)
    ensures
        r@ == variables_prefix(),
{
    let mut out: Vec<u8> = Vec::new();
    out.push(44);
    out.push(34);
    out.push(118);
    out.push(97);
    out.push(114);
    out.push(105);
    out.push(97);
    out.push(98);
    out.push(108);
    out.push(101);
    out.push(115);
    out.push(34);
    out.push(58);
    out.push(34);
    assert(out@ =~= variables_prefix());
    out
}

/// Reads a request from its canonical payload form; a payload of any other
/// shape gives nothing back.
pub fn parse_request(s: &Vec<u8>) -> (r: Option<GraphqlRequest>)
    ensures
        match r {
            Option::Some(req) => dec_request(s@) == Option::Some(req@),
            Option::None => dec_request(s@) is None,
        },
{
    let qp = query_prefix_vec();
    proof {
        assert(s@.skip(0) =~= s@);
    }
    if !starts_with_at(s, 0, &qp) {
        return None;
    }
    proof {
        assert(s@.skip(0).skip(query_prefix().len() as int) =~= s@.skip(
            query_prefix().len() as int,
        ));
    }
    let qr = match scan_string(s, qp.len()) {
        Option::Some(p) => p,
        Option::None => {
            return None;
        },
    };
    let np = op_name_prefix_vec();
    let nr = match decode_field(s, qr.1, &np) {
        Option::Some(p) => p,
        Option::None => {
            return None;
        },
    };
    let vp = variables_prefix_vec();
    let vr = match decode_field(s, nr.1, &vp) {
        Option::Some(p) => p,
        Option::None => {
            return None;
        },
    };
    if !(vr.1 < s.len() && s.len() - vr.1 == 1 && s[vr.1] == RBRACE) {
        proof {
            let tail = s@.skip(vr.1 as int);
            if tail.len() == 1 && tail[0] == RBRACE {
                assert(s@[vr.1 as int] == RBRACE);
                assert(false);
            }
            assert(tail != seq![RBRACE]);
        }
        return None;
    }
    proof {
        assert(s@.skip(vr.1 as int) =~= seq![RBRACE]);
    }
    Some(GraphqlRequest { query: qr.0, operation_name: nr.0, variables: vr.0 })
}

/// Writes the canonical payload form of a request.
pub fn encode_request(r: &GraphqlRequest) -> (out: Vec<u8>)
    ensures
        out@ == enc_request(r@),
{
    let mut out = query_prefix_vec();
    crate::envelope::push_escaped(&mut out, &r.query);
    out.push(QUOTE);
    match &r.operation_name {
        Option::Some(n) => {
            let np = op_name_prefix_vec();
            push_all(&mut out, &np);
            crate::envelope::push_escaped(&mut out, n);
            out.push(QUOTE);
        },
        Option::None => {},
    }
    match &r.variables {
        Option::Some(v) => {
            let vp = variables_prefix_vec();
            push_all(&mut out, &vp);
            crate::envelope::push_escaped(&mut out, v);
            out.push(QUOTE);
        },
        Option::None => {},
    }
    out.push(RBRACE);
    assert(out@ =~= enc_request(r@));
    out
}

fn push_all(out: &mut Vec<u8>, s: &Vec<u8>)
    ensures
        final(out)@ == old(out)@ + s@,
{
    let mut i: usize = 0;
    assert(s@.take(0) =~= Seq::<u8>::empty());
    while i < s.len()
        invariant
            i <= s@.len(),
            out@ == old(out)@ + s@.take(i as int),
        decreases s.len() - i,
    {
        out.push(s[i]);
        proof {
            assert(old(out)@ + s@.take(i as int + 1) =~= (old(out)@ + s@.take(i as int)).push(
                s@[i as int],
            ));
        }
        i = i + 1;
    }
    assert(s@.take(s@.len() as int) =~= s@);
}

} // verus!

//! Control sequences `ESC [ parameters final`: byte classes and the parsing
//! of the parameter fields.
use vstd::prelude::*;

verus! {

/// The escape byte that starts every control sequence.
pub const ESC: u8 = 0x1B;

/// The byte that follows `ESC` in a control sequence introducer.
pub const CSI_OPEN: u8 = 0x5B;

/// One more than the largest parameter value that is accepted.
pub const PARAM_CAP: u64 = 0x8000_0000;

pub open spec fn is_param_byte(b: u8) -> bool {
    0x30 <= b <= 0x3F
}

pub open spec fn is_final_byte(b: u8) -> bool {
    0x40 <= b <= 0x7E
}

pub open spec fn is_digit(b: u8) -> bool {
    0x30 <= b <= 0x39
}

/// The bytes of `s` that are parameter bytes, in order.
pub open spec fn keep_params(s: Seq<u8>) -> Seq<u8>
    decreases s.len(),
{
    if s.len() == 0 {
        s
    } else if is_param_byte(s.last()) {
        keep_params(s.drop_last()).push(s.last())
    } else {
        keep_params(s.drop_last())
    }
}

/// `s` split on `;`; there is always at least one field.
pub open spec fn split_fields(s: Seq<u8>) -> Seq<Seq<u8>>
    decreases s.len(),
{
    if s.len() == 0 {
        seq![Seq::empty()]
    } else {
        let f = split_fields(s.drop_last());
        if s.last() == 0x3B {
            f.push(Seq::empty())
        } else {
            f.update(f.len() - 1, f.last().push(s.last()))
        }
    }
}

pub open spec fn all_digits(s: Seq<u8>) -> bool {
    forall|i: int| 0 <= i < s.len() ==> is_digit(#[trigger] s[i])
}

/// Decimal value of a string of digits.
pub open spec fn dec_value(s: Seq<u8>) -> nat
    decreases s.len(),
{
    if s.len() == 0 {
        0
    } else {
        dec_value(s.drop_last()) * 10 + (if is_digit(s.last()) { (s.last() - 0x30) as nat } else { 0 })
    }
}

/// A field's value: a non-empty run of digits whose value fits in an `i32`;
/// anything else has no value.
pub open spec fn field_value(f: Seq<u8>) -> Option<u32> {
    if f.len() > 0 && all_digits(f) && dec_value(f) < PARAM_CAP {
        Some(dec_value(f) as u32)
    } else {
        None
    }
}

/// The parameter bytes of a complete sequence `ESC [ ... final`.
pub open spec fn csi_params(seq: Seq<u8>) -> Seq<u8> {
    keep_params(seq.subrange(2, seq.len() - 1))
}

/// The sequence is a private one: its parameters start with `?`.
pub open spec fn csi_private(seq: Seq<u8>) -> bool {
    let p = csi_params(seq);
    p.len() > 0 && p[0] == 0x3F
}

/// The parsed parameter fields of a complete sequence, the private marker left out.
pub open spec fn csi_values(seq: Seq<u8>) -> Seq<Option<u32>> {
    let p = csi_params(seq);
    let body = if csi_private(seq) { p.drop_first() } else { p };
    split_fields(body).map_values(|f: Seq<u8>| field_value(f))
}

/// `v`, or `PARAM_CAP` where `v` is larger.
pub open spec fn capped(v: nat) -> nat {
    if v < PARAM_CAP { v } else { PARAM_CAP as nat }
}

pub proof fn lemma_split_fields_len(s: Seq<u8>)
    ensures
        split_fields(s).len() >= 1,
    decreases s.len(),
{
    if s.len() > 0 {
        lemma_split_fields_len(s.drop_last());
    }
}

/// Parses the parameters of the complete sequence `seq`: whether it is
/// private, and the value of each field.
pub fn parse_params(seq: &Vec<u8>) -> (r: (bool, Vec<Option<u32>>))
    requires
        seq@.len() >= 3,
    ensures
        r.0 == csi_private(seq@),
        r.1@ == csi_values(seq@),
        r.1@.len() >= 1,
{
    let end = seq.len() - 1;
    let mut p: Vec<u8> = Vec::new();
    let mut i: usize = 2;
    while i < end
        invariant
            2 <= i <= end,
            end == seq@.len() - 1,
            p@ == keep_params(seq@.subrange(2, i as int)),
        decreases end - i,
    {
        let b = seq[i];
        proof {
            assert(seq@.subrange(2, i + 1).drop_last() =~= seq@.subrange(2, i as int));
        }
        if 0x30 <= b && b <= 0x3F {
            p.push(b);
        }
        i = i + 1;
    }
    let private = p.len() > 0 && p[0] == 0x3F;
    let start: usize = if private { 1 } else { 0 };
    let ghost body = p@.subrange(start as int, p@.len() as int);
    assert(body =~= if csi_private(seq@) { p@.drop_first() } else { p@ });

    let mut fields: Vec<Option<u32>> = Vec::new();
    let mut cur_nonempty = false;
    let mut cur_digits = true;
    let mut cur_val: u64 = 0;
    let mut k = start;
    while k < p.len()
        invariant
            start <= k <= p@.len(),
            split_fields(p@.subrange(start as int, k as int)).len() >= 1,
            fields@ == split_fields(p@.subrange(start as int, k as int)).drop_last().map_values(
                |f: Seq<u8>| field_value(f),
            ),
            cur_nonempty == (split_fields(p@.subrange(start as int, k as int)).last().len() > 0),
            cur_digits == all_digits(split_fields(p@.subrange(start as int, k as int)).last()),
            cur_digits ==> cur_val == capped(dec_value(split_fields(p@.subrange(start as int, k as int)).last())),
        decreases p@.len() - k,
    {
        let b = p[k];
        let ghost q = p@.subrange(start as int, k as int);
        let ghost q2 = p@.subrange(start as int, k + 1);
        proof {
            assert(q2.drop_last() =~= q);
            assert(q2.last() == b);
            lemma_split_fields_len(q);
        }
        if b == 0x3B {
            let v = if cur_nonempty && cur_digits && cur_val < PARAM_CAP { Some(cur_val as u32) } else { None };
            fields.push(v);
            cur_nonempty = false;
            cur_digits = true;
            cur_val = 0;
            proof {
                let sf = split_fields(q);
                assert(all_digits(Seq::<u8>::empty()));
                assert(split_fields(q2).drop_last() =~= sf);
                assert(fields@ =~= split_fields(q2).drop_last().map_values(|f: Seq<u8>| field_value(f)));
            }
        } else {
            let ghost old_last = split_fields(q).last();
            cur_nonempty = true;
            if 0x30 <= b && b <= 0x39 {
                if cur_digits {
                    let d = (b - 0x30) as u64;
                    let next = cur_val * 10 + d;
                    cur_val = if next < PARAM_CAP { next } else { PARAM_CAP };
                }
            } else {
                cur_digits = false;
            }
            proof {
                let nl = old_last.push(b);
                assert(split_fields(q2).last() == nl);
                assert(nl.drop_last() =~= old_last);
                assert(split_fields(q2).drop_last() =~= split_fields(q).drop_last());
                if all_digits(nl) {
                    assert forall|i: int| 0 <= i < old_last.len() implies is_digit(#[trigger] old_last[i]) by {
                        assert(nl[i] == old_last[i]);
                    }
                }
                if cur_digits {
                    assert forall|i: int| 0 <= i < nl.len() implies is_digit(#[trigger] nl[i]) by {
                        if i < old_last.len() {
                            assert(nl[i] == old_last[i]);
                        }
                    }
                }
                if !is_digit(b) {
                    assert(nl[nl.len() - 1] == b);
                }
            }
        }
        k = k + 1;
    }
    let v = if cur_nonempty && cur_digits && cur_val < PARAM_CAP { Some(cur_val as u32) } else { None };
    fields.push(v);
    proof {
        let sf = split_fields(body);
        assert(p@.subrange(start as int, k as int) =~= body);
        assert(fields@ =~= sf.map_values(|f: Seq<u8>| field_value(f)));
        lemma_split_fields_len(body);
    }
    (private, fields)
}


} // verus!

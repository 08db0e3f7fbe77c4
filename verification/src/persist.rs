//! Versioned byte codec for persisted settings.
//!
//! A persisted record holds the user label and the oscillator list — and
//! nothing of the transport, so the play flag is never persisted and a
//! reloaded application always starts paused. The record is schema
//! versioned, and each oscillator is written as tagged fields: a decoder
//! skips tags it does not know, and a field that is absent keeps its
//! default, so older records load forward-compatibly. Every decoded value
//! passes through the same clamping rules as a UI edit, so a decoded
//! oscillator is always well formed. A record that cannot be decoded at all
//! yields nothing, and the caller falls back to defaults.
//!
//! Layout, all integers little-endian: a version byte; the label length as
//! four bytes, then the label bytes; the oscillator count as four bytes;
//! then per oscillator a field count byte followed by that many fields, each
//! a tag byte and a four-byte value.

use vstd::prelude::*;

use crate::oscillator::{apply_edit, OscEditOp, Oscillator, Waveform};
use crate::settings::Settings;

verus! {

/// Schema version this codec writes and accepts.
pub const FORMAT_VERSION: u8 = 1;

/// Field tag: waveform, as a small code.
pub const TAG_WAVEFORM: u8 = 1;

/// Field tag: frequency in millihertz.
pub const TAG_FREQUENCY: u8 = 2;

/// Field tag: amplitude in millionths of full scale.
pub const TAG_AMPLITUDE: u8 = 3;

/// Field tag: phase offset in millionths of a cycle.
pub const TAG_PHASE: u8 = 4;

/// The code a waveform is written as.
pub open spec fn waveform_code(w: Waveform) -> u32 {
    match w {
        Waveform::Sine => 0,
        Waveform::Square => 1,
        Waveform::Saw => 2,
        Waveform::Triangle => 3,
    }
}

/// The waveform a code is read as; an unknown code is no waveform.
pub open spec fn waveform_of_code(c: u32) -> Option<Waveform> {
    if c == 0 {
        Some(Waveform::Sine)
    } else if c == 1 {
        Some(Waveform::Square)
    } else if c == 2 {
        Some(Waveform::Saw)
    } else if c == 3 {
        Some(Waveform::Triangle)
    } else {
        None
    }
}

/// The four little-endian bytes of a 32-bit value.
pub open spec fn le32(v: u32) -> Seq<u8> {
    seq![
        (v & 0xff) as u8,
        ((v >> 8) & 0xff) as u8,
        ((v >> 16) & 0xff) as u8,
        ((v >> 24) & 0xff) as u8,
    ]
}

/// The 32-bit value four little-endian bytes carry.
pub open spec fn le32_val(b0: u8, b1: u8, b2: u8, b3: u8) -> u32 {
    ((b0 as u32) | ((b1 as u32) << 8) | ((b2 as u32) << 16) | ((b3 as u32) << 24)) as u32
}

/// One encoded field: its tag byte and its value.
pub open spec fn enc_field(tag: u8, v: u32) -> Seq<u8> {
    seq![tag] + le32(v)
}

/// One encoded oscillator: a field count of four, then every parameter as a
/// tagged field.
pub open spec fn enc_osc(o: Oscillator) -> Seq<u8> {
    seq![4u8] + enc_field(TAG_WAVEFORM, waveform_code(o.waveform)) + enc_field(
        TAG_FREQUENCY,
        o.frequency_millihz,
    ) + enc_field(TAG_AMPLITUDE, o.amplitude_millionths) + enc_field(
        TAG_PHASE,
        o.phase_millionths,
    )
}

/// The encoded oscillator list, first to last.
pub open spec fn enc_oscs(s: Seq<Oscillator>) -> Seq<u8>
    decreases s.len(),
{
    if s.len() == 0 {
        Seq::empty()
    } else {
        enc_osc(s[0]) + enc_oscs(s.skip(1))
    }
}

/// The full encoded record for an oscillator list and a label. The
/// transport is no part of it: the play flag is never persisted.
pub open spec fn spec_encode(oscs: Seq<Oscillator>, label: Seq<u8>) -> Seq<u8> {
    seq![FORMAT_VERSION] + le32(label.len() as u32) + label + le32(oscs.len() as u32) + enc_oscs(
        oscs,
    )
}

/// How one decoded field lands on an oscillator: a known tag stores its
/// value through the same clamping rule as a UI edit; an unknown tag, or an
/// unknown waveform code, changes nothing.
pub open spec fn apply_field(o: Oscillator, tag: u8, v: u32) -> Oscillator {
    if tag == TAG_WAVEFORM {
        match waveform_of_code(v) {
            Some(w) => apply_edit(o, OscEditOp::SetWaveform(w)),
            None => o,
        }
    } else if tag == TAG_FREQUENCY {
        apply_edit(o, OscEditOp::SetFrequency(v))
    } else if tag == TAG_AMPLITUDE {
        apply_edit(o, OscEditOp::SetAmplitude(v))
    } else if tag == TAG_PHASE {
        apply_edit(o, OscEditOp::SetPhaseOffset(v))
    } else {
        o
    }
}

/// Read four little-endian bytes off the front.
pub open spec fn dec_u32(b: Seq<u8>) -> Option<(u32, Seq<u8>)> {
    if b.len() < 4 {
        None
    } else {
        Some((le32_val(b[0], b[1], b[2], b[3]), b.skip(4)))
    }
}

/// Read `n` tagged fields off the front, folding each onto `o`. A field the
/// bytes cannot supply is corruption.
pub open spec fn dec_fields(o: Oscillator, b: Seq<u8>, n: nat) -> Option<(Oscillator, Seq<u8>)>
    decreases n,
{
    if n == 0 {
        Some((o, b))
    } else if b.len() < 5 {
        None
    } else {
        dec_fields(
            apply_field(o, b[0], le32_val(b[1], b[2], b[3], b[4])),
            b.skip(5),
            (n - 1) as nat,
        )
    }
}

/// Read one oscillator off the front: a field count byte, then its fields
/// folded onto the default oscillator — so a field the record does not
/// carry keeps its default.
pub open spec fn dec_osc(b: Seq<u8>) -> Option<(Oscillator, Seq<u8>)> {
    if b.len() < 1 {
        None
    } else {
        dec_fields(Oscillator::default_spec(), b.skip(1), b[0] as nat)
    }
}

/// Read `n` oscillators off the front.
pub open spec fn dec_oscs(b: Seq<u8>, n: nat) -> Option<(Seq<Oscillator>, Seq<u8>)>
    decreases n,
{
    if n == 0 {
        Some((Seq::empty(), b))
    } else {
        match dec_osc(b) {
            Some((o, rest)) => match dec_oscs(rest, (n - 1) as nat) {
                Some((s, rest2)) => Some((seq![o] + s, rest2)),
                None => None,
            },
            None => None,
        }
    }
}

/// What a byte record decodes to: the oscillator list and the label, or
/// nothing if the record is corrupt (wrong version, truncated, or carrying
/// trailing bytes).
pub open spec fn spec_decode(b: Seq<u8>) -> Option<(Seq<Oscillator>, Seq<u8>)> {
    if b.len() < 1 || b[0] != FORMAT_VERSION {
        None
    } else {
        match dec_u32(b.skip(1)) {
            Some((llen, r1)) => if r1.len() < llen {
                None
            } else {
                let label = r1.take(llen as int);
                let r2 = r1.skip(llen as int);
                match dec_u32(r2) {
                    Some((cnt, r3)) => match dec_oscs(r3, cnt as nat) {
                        Some((oscs, r4)) => if r4.len() == 0 {
                            Some((oscs, label))
                        } else {
                            None
                        },
                        None => None,
                    },
                    None => None,
                }
            },
            None => None,
        }
    }
}

/// The code this codec writes for a waveform.
pub fn waveform_code_exec(w: Waveform) -> (r: u32)
    ensures
        r == waveform_code(w),
{
    match w {
        Waveform::Sine => 0,
        Waveform::Square => 1,
        Waveform::Saw => 2,
        Waveform::Triangle => 3,
    }
}

/// The waveform a stored code is read as; an unknown code is no waveform.
pub fn waveform_of_code_exec(c: u32) -> (r: Option<Waveform>)
    ensures
        r == waveform_of_code(c),
{
    if c == 0 {
        Some(Waveform::Sine)
    } else if c == 1 {
        Some(Waveform::Square)
    } else if c == 2 {
        Some(Waveform::Saw)
    } else if c == 3 {
        Some(Waveform::Triangle)
    } else {
        None
    }
}

fn push_le32(out: &mut Vec<u8>, v: u32)
    ensures
        final(out)@ == old(out)@ + le32(v),
{
    out.push((v & 0xff) as u8);
    out.push(((v >> 8) & 0xff) as u8);
    out.push(((v >> 16) & 0xff) as u8);
    out.push(((v >> 24) & 0xff) as u8);
    assert(out@ =~= old(out)@ + le32(v));
}

fn push_field(out: &mut Vec<u8>, tag: u8, v: u32)
    ensures
        final(out)@ == old(out)@ + enc_field(tag, v),
{
    out.push(tag);
    push_le32(out, v);
    assert(out@ =~= old(out)@ + enc_field(tag, v));
}

fn push_osc(out: &mut Vec<u8>, o: &Oscillator)
    ensures
        final(out)@ == old(out)@ + enc_osc(*o),
{
    out.push(4u8);
    let code: u32 = waveform_code_exec(o.waveform);
    push_field(out, TAG_WAVEFORM, code);
    push_field(out, TAG_FREQUENCY, o.frequency_millihz);
    push_field(out, TAG_AMPLITUDE, o.amplitude_millionths);
    push_field(out, TAG_PHASE, o.phase_millionths);
    assert(out@ =~= old(out)@ + enc_osc(*o));
}

proof fn lemma_enc_oscs_snoc(s: Seq<Oscillator>, o: Oscillator)
    ensures
        enc_oscs(s.push(o)) == enc_oscs(s) + enc_osc(o),
    decreases s.len(),
{
    if s.len() == 0 {
        assert(s.push(o)[0] == o);
        assert(s =~= Seq::<Oscillator>::empty());
        assert(s.push(o).skip(1) =~= Seq::<Oscillator>::empty());
        assert(enc_oscs(Seq::<Oscillator>::empty()) == Seq::<u8>::empty());
        assert(enc_oscs(s.push(o)) == enc_osc(o) + Seq::<u8>::empty());
        assert(enc_osc(o) + Seq::<u8>::empty() =~= Seq::<u8>::empty() + enc_osc(o));
    } else {
        assert(s.push(o)[0] == s[0]);
        assert(s.push(o).skip(1) =~= s.skip(1).push(o));
        lemma_enc_oscs_snoc(s.skip(1), o);
        assert(enc_oscs(s.push(o)) == enc_osc(s[0]) + (enc_oscs(s.skip(1)) + enc_osc(o)));
        assert(enc_osc(s[0]) + (enc_oscs(s.skip(1)) + enc_osc(o)) =~= (enc_osc(s[0]) + enc_oscs(
            s.skip(1),
        )) + enc_osc(o));
    }
}

/// Encode settings as a persisted record. Only the oscillator list and the
/// label go in; the transport's play flag is never persisted.
pub fn encode(s: &Settings) -> (r: Vec<u8>)
    requires
        s.wf(),
    ensures
        r@ == spec_encode(s.oscillators@, s.label@),
{
    let mut out: Vec<u8> = Vec::new();
    out.push(FORMAT_VERSION);
    push_le32(&mut out, s.label.len() as u32);
    let ghost header: Seq<u8> = seq![FORMAT_VERSION] + le32(s.label@.len() as u32);
    assert(out@ =~= header);

    let mut i: usize = 0;
    while i < s.label.len()
        invariant
            i <= s.label@.len(),
            out@ == header + s.label@.take(i as int),
        decreases s.label@.len() - i,
    {
        out.push(s.label[i]);
        assert(out@ =~= header + s.label@.take(i + 1));
        i += 1;
    }
    assert(s.label@.take(s.label@.len() as int) =~= s.label@);

    push_le32(&mut out, s.oscillators.len() as u32);
    let ghost mid: Seq<u8> = header + s.label@ + le32(s.oscillators@.len() as u32);
    assert(out@ =~= mid);

    let mut j: usize = 0;
    while j < s.oscillators.len()
        invariant
            j <= s.oscillators@.len(),
            out@ == mid + enc_oscs(s.oscillators@.take(j as int)),
        decreases s.oscillators@.len() - j,
    {
        push_osc(&mut out, &s.oscillators[j]);
        proof {
            lemma_enc_oscs_snoc(s.oscillators@.take(j as int), s.oscillators@[j as int]);
            assert(s.oscillators@.take(j as int).push(s.oscillators@[j as int]) =~= s.oscillators@
                .take(j + 1));
            assert(out@ =~= mid + enc_oscs(s.oscillators@.take(j + 1)));
        }
        j += 1;
    }
    assert(s.oscillators@.take(s.oscillators@.len() as int) =~= s.oscillators@);
    assert(out@ =~= spec_encode(s.oscillators@, s.label@));
    out
}

proof fn lemma_le32_val_roundtrip(v: u32)
    ensures
        le32_val(
            (v & 0xff) as u8,
            ((v >> 8) & 0xff) as u8,
            ((v >> 16) & 0xff) as u8,
            ((v >> 24) & 0xff) as u8,
        ) == v,
{
    assert((((((v & 0xff) as u8) as u32) | ((((v >> 8) & 0xff) as u8) as u32) << 8
        | ((((v >> 16) & 0xff) as u8) as u32) << 16 | ((((v >> 24) & 0xff) as u8) as u32) << 24)
        as u32) == v) by (bit_vector);
}

proof fn lemma_dec_u32_prefix(v: u32, rest: Seq<u8>)
    ensures
        dec_u32(le32(v) + rest) == Some((v, rest)),
{
    let b = le32(v) + rest;
    lemma_le32_val_roundtrip(v);
    assert(b[0] == (v & 0xff) as u8);
    assert(b[1] == ((v >> 8) & 0xff) as u8);
    assert(b[2] == ((v >> 16) & 0xff) as u8);
    assert(b[3] == ((v >> 24) & 0xff) as u8);
    assert(b.skip(4) =~= rest);
}

proof fn lemma_waveform_code_roundtrip(w: Waveform)
    ensures
        waveform_of_code(waveform_code(w)) == Some(w),
{
    match w {
        Waveform::Sine => {},
        Waveform::Square => {},
        Waveform::Saw => {},
        Waveform::Triangle => {},
    }
}

proof fn lemma_dec_field_step(o: Oscillator, tag: u8, v: u32, rest: Seq<u8>, n: nat)
    requires
        n >= 1,
    ensures
        dec_fields(o, enc_field(tag, v) + rest, n) == dec_fields(
            apply_field(o, tag, v),
            rest,
            (n - 1) as nat,
        ),
{
    let b = enc_field(tag, v) + rest;
    lemma_le32_val_roundtrip(v);
    assert(b[0] == tag);
    assert(b[1] == (v & 0xff) as u8);
    assert(b[2] == ((v >> 8) & 0xff) as u8);
    assert(b[3] == ((v >> 16) & 0xff) as u8);
    assert(b[4] == ((v >> 24) & 0xff) as u8);
    assert(le32_val(b[1], b[2], b[3], b[4]) == v);
    assert(b.skip(5) =~= rest);
}

proof fn lemma_dec_osc_enc(o: Oscillator, rest: Seq<u8>)
    requires
        o.wf(),
    ensures
        dec_osc(enc_osc(o) + rest) == Some((o, rest)),
{
    let f1 = enc_field(TAG_WAVEFORM, waveform_code(o.waveform));
    let f2 = enc_field(TAG_FREQUENCY, o.frequency_millihz);
    let f3 = enc_field(TAG_AMPLITUDE, o.amplitude_millionths);
    let f4 = enc_field(TAG_PHASE, o.phase_millionths);
    let r3 = f4 + rest;
    let r2 = f3 + r3;
    let r1 = f2 + r2;
    let r0 = f1 + r1;
    let b = enc_osc(o) + rest;
    assert(b[0] == 4u8);
    assert(b.skip(1) =~= r0);

    let d = Oscillator::default_spec();
    lemma_dec_field_step(d, TAG_WAVEFORM, waveform_code(o.waveform), r1, 4);
    let o1 = apply_field(d, TAG_WAVEFORM, waveform_code(o.waveform));
    lemma_dec_field_step(o1, TAG_FREQUENCY, o.frequency_millihz, r2, 3);
    let o2 = apply_field(o1, TAG_FREQUENCY, o.frequency_millihz);
    lemma_dec_field_step(o2, TAG_AMPLITUDE, o.amplitude_millionths, r3, 2);
    let o3 = apply_field(o2, TAG_AMPLITUDE, o.amplitude_millionths);
    lemma_dec_field_step(o3, TAG_PHASE, o.phase_millionths, rest, 1);
    let o4 = apply_field(o3, TAG_PHASE, o.phase_millionths);

    lemma_waveform_code_roundtrip(o.waveform);
    assert(o4 == o);
    assert(dec_fields(d, r0, 4) == Some((o, rest)));
}

proof fn lemma_dec_oscs_enc(s: Seq<Oscillator>, rest: Seq<u8>)
    requires
        forall|i: int| 0 <= i < s.len() ==> (#[trigger] s[i]).wf(),
    ensures
        dec_oscs(enc_oscs(s) + rest, s.len()) == Some((s, rest)),
    decreases s.len(),
{
    if s.len() == 0 {
        assert(enc_oscs(s) + rest =~= rest);
    } else {
        let tail = enc_oscs(s.skip(1)) + rest;
        assert(enc_oscs(s) + rest =~= enc_osc(s[0]) + tail);
        lemma_dec_osc_enc(s[0], tail);
        lemma_dec_oscs_enc(s.skip(1), rest);
        assert(seq![s[0]] + s.skip(1) =~= s);
    }
}

fn read_le32(bytes: &Vec<u8>, i: usize) -> (v: u32)
    requires
        i + 4 <= bytes@.len(),
    ensures
        v == le32_val(
            bytes@[i as int],
            bytes@[i as int + 1],
            bytes@[i as int + 2],
            bytes@[i as int + 3],
        ),
{
    let n: usize = bytes.len();
    assert(i + 4 <= n);
    let b0: u32 = bytes[i] as u32;
    let b1: u32 = bytes[i + 1] as u32;
    let b2: u32 = bytes[i + 2] as u32;
    let b3: u32 = bytes[i + 3] as u32;
    b0 | (b1 << 8u32) | (b2 << 16u32) | (b3 << 24u32)
}

/// Land one decoded field on an oscillator, exactly as a UI edit would:
/// known tags clamp and store, unknown tags and unknown waveform codes
/// change nothing.
pub fn apply_field_exec(o: Oscillator, tag: u8, v: u32) -> (r: Oscillator)
    ensures
        r == apply_field(o, tag, v),
        o.wf() ==> r.wf(),
{
    let mut o2: Oscillator = o;
    if tag == TAG_WAVEFORM {
        match waveform_of_code_exec(v) {
            Some(w) => {
                o2.set_waveform(w);
            },
            None => {},
        }
    } else if tag == TAG_FREQUENCY {
        o2.set_frequency(v);
    } else if tag == TAG_AMPLITUDE {
        o2.set_amplitude(v);
    } else if tag == TAG_PHASE {
        o2.set_phase_offset(v);
    }
    o2
}

fn dec_fields_exec(o: Oscillator, bytes: &Vec<u8>, i: usize, n: u8) -> (r: Option<
    (Oscillator, usize),
>)
    requires
        i <= bytes@.len(),
    ensures
        match r {
            Some(p) => {
                &&& dec_fields(o, bytes@.skip(i as int), n as nat) == Some(
                    (p.0, bytes@.skip(p.1 as int)),
                )
                &&& i <= p.1 <= bytes@.len()
                &&& (o.wf() ==> p.0.wf())
            },
            None => dec_fields(o, bytes@.skip(i as int), n as nat) is None,
        },
    decreases n,
{
    if n == 0 {
        Some((o, i))
    } else if bytes.len() - i < 5 {
        assert(bytes@.skip(i as int).len() < 5);
        None
    } else {
        let tag: u8 = bytes[i];
        let v: u32 = read_le32(bytes, i + 1);
        let o2: Oscillator = apply_field_exec(o, tag, v);
        proof {
            let b = bytes@;
            assert(b.skip(i as int)[0] == tag);
            assert(b.skip(i as int)[1] == b[i as int + 1]);
            assert(b.skip(i as int)[2] == b[i as int + 2]);
            assert(b.skip(i as int)[3] == b[i as int + 3]);
            assert(b.skip(i as int)[4] == b[i as int + 4]);
            assert(b.skip(i as int).skip(5) =~= b.skip(i as int + 5));
        }
        dec_fields_exec(o2, bytes, i + 5, n - 1)
    }
}

fn dec_osc_exec(bytes: &Vec<u8>, i: usize) -> (r: Option<(Oscillator, usize)>)
    requires
        i <= bytes@.len(),
    ensures
        match r {
            Some(p) => {
                &&& dec_osc(bytes@.skip(i as int)) == Some((p.0, bytes@.skip(p.1 as int)))
                &&& i <= p.1 <= bytes@.len()
                &&& p.0.wf()
            },
            None => dec_osc(bytes@.skip(i as int)) is None,
        },
{
    if bytes.len() - i < 1 {
        None
    } else {
        let fc: u8 = bytes[i];
        proof {
            assert(bytes@.skip(i as int)[0] == fc);
            assert(bytes@.skip(i as int).skip(1) =~= bytes@.skip(i as int + 1));
        }
        dec_fields_exec(Oscillator::default(), bytes, i + 1, fc)
    }
}

/// Decode a persisted record. `None` means the record is corrupt — wrong
/// version, truncated, or carrying trailing bytes — and the caller should
/// fall back to defaults. A decoded settings value is always well formed:
/// every field passed through the clamping rules, and every field the
/// record did not carry kept its default.
pub fn decode(bytes: &Vec<u8>) -> (r: Option<Settings>)
    ensures
        match r {
            Some(s) => {
                &&& spec_decode(bytes@) == Some((s.oscillators@, s.label@))
                &&& s.wf()
            },
            None => spec_decode(bytes@) is None,
        },
{
    let ghost b: Seq<u8> = bytes@;
    if bytes.len() < 1 {
        return None;
    }
    if bytes[0] != FORMAT_VERSION {
        return None;
    }
    if bytes.len() - 1 < 4 {
        assert(dec_u32(b.skip(1)) is None);
        return None;
    }
    let llen: u32 = read_le32(bytes, 1);
    proof {
        assert(b.skip(1)[0] == b[1]);
        assert(b.skip(1)[1] == b[2]);
        assert(b.skip(1)[2] == b[3]);
        assert(b.skip(1)[3] == b[4]);
        assert(b.skip(1).skip(4) =~= b.skip(5));
        assert(dec_u32(b.skip(1)) == Some((llen, b.skip(5))));
    }
    let llen_us: usize = llen as usize;
    if bytes.len() - 5 < llen_us {
        assert(b.skip(5).len() < llen);
        return None;
    }

    let mut label: Vec<u8> = Vec::new();
    let mut i: usize = 0;
    while i < llen_us
        invariant
            i <= llen_us,
            5 + llen_us <= bytes@.len(),
            label@ == bytes@.subrange(5, 5 + i as int),
        decreases llen_us - i,
    {
        let n: usize = bytes.len();
        assert(5 + i < n);
        label.push(bytes[5 + i]);
        assert(label@ =~= bytes@.subrange(5, 5 + (i + 1)));
        i += 1;
    }
    proof {
        assert(b.skip(5).take(llen as int) =~= b.subrange(5, 5 + llen as int));
        assert(label@ == b.skip(5).take(llen as int));
        assert(b.skip(5).skip(llen as int) =~= b.skip(5 + llen as int));
    }
    let mut pos: usize = 5 + llen_us;
    if bytes.len() - pos < 4 {
        assert(dec_u32(b.skip(pos as int)) is None);
        return None;
    }
    let cnt: u32 = read_le32(bytes, pos);
    proof {
        assert(b.skip(pos as int)[0] == b[pos as int]);
        assert(b.skip(pos as int)[1] == b[pos as int + 1]);
        assert(b.skip(pos as int)[2] == b[pos as int + 2]);
        assert(b.skip(pos as int)[3] == b[pos as int + 3]);
        assert(b.skip(pos as int).skip(4) =~= b.skip(pos as int + 4));
        assert(dec_u32(b.skip(pos as int)) == Some((cnt, b.skip(pos as int + 4))));
    }
    pos = pos + 4;
    let ghost pos0: int = pos as int;
    let ghost label_view: Seq<u8> = label@;

    let mut oscs: Vec<Oscillator> = Vec::new();
    let mut k: u32 = 0;
    while k < cnt
        invariant
            k <= cnt,
            pos <= bytes@.len(),
            oscs@.len() == k,
            label@ == label_view,
            label_view.len() == llen,
            forall|t: int| 0 <= t < oscs@.len() ==> (#[trigger] oscs@[t]).wf(),
            spec_decode(bytes@) == (match dec_oscs(bytes@.skip(pos0), cnt as nat) {
                Some(p) => if p.1.len() == 0 {
                    Some((p.0, label_view))
                } else {
                    None
                },
                None => None,
            }),
            dec_oscs(bytes@.skip(pos0), cnt as nat) == (match dec_oscs(
                bytes@.skip(pos as int),
                (cnt - k) as nat,
            ) {
                Some(p) => Some((oscs@ + p.0, p.1)),
                None => None,
            }),
        decreases cnt - k,
    {
        match dec_osc_exec(bytes, pos) {
            None => {
                proof {
                    assert(dec_oscs(bytes@.skip(pos as int), (cnt - k) as nat) is None);
                }
                return None;
            },
            Some(p) => {
                let o: Oscillator = p.0;
                let j: usize = p.1;
                proof {
                    let rem = (cnt - k) as nat;
                    assert(dec_oscs(bytes@.skip(pos as int), rem) == (match dec_oscs(
                        bytes@.skip(j as int),
                        (rem - 1) as nat,
                    ) {
                        Some(q) => Some((seq![o] + q.0, q.1)),
                        None => None,
                    }));
                    match dec_oscs(bytes@.skip(j as int), (rem - 1) as nat) {
                        Some(q) => {
                            assert(oscs@ + (seq![o] + q.0) =~= oscs@.push(o) + q.0);
                        },
                        None => {},
                    }
                }
                oscs.push(o);
                pos = j;
                k = k + 1;
            },
        }
    }
    proof {
        assert(dec_oscs(bytes@.skip(pos as int), (cnt - k) as nat) == Some(
            (Seq::<Oscillator>::empty(), bytes@.skip(pos as int)),
        ));
        assert(oscs@ + Seq::<Oscillator>::empty() =~= oscs@);
    }
    if bytes.len() - pos > 0 {
        assert(bytes@.skip(pos as int).len() > 0);
        return None;
    }
    let s = Settings { oscillators: oscs, label };
    proof {
        assert(bytes@.skip(pos as int).len() == 0);
        assert(spec_decode(bytes@) == Some((s.oscillators@, s.label@)));
        assert(s.wf());
    }
    Some(s)
}

/// Decode a persisted record, falling back to the defaults when it is
/// corrupt: loading never fails and never blocks startup.
pub fn load_or_default(bytes: &Vec<u8>) -> (s: Settings)
    ensures
        s.wf(),
        match spec_decode(bytes@) {
            Some(p) => s.oscillators@ == p.0 && s.label@ == p.1,
            None => s.oscillators@ == seq![Oscillator::default_spec()] && s.label@ == Seq::<
                u8,
            >::empty(),
        },
{
    match decode(bytes) {
        Some(s) => s,
        None => Settings::new(),
    }
}

/// Law: a record the codec writes decodes back to exactly the oscillator
/// list and label it was written from — a full round trip, for every well
/// formed settings value the codec can frame.
#[verifier::rlimit(50)]
pub proof fn lemma_round_trip(oscs: Seq<Oscillator>, label: Seq<u8>)
    requires
        forall|i: int| 0 <= i < oscs.len() ==> (#[trigger] oscs[i]).wf(),
        oscs.len() <= u32::MAX,
        label.len() <= u32::MAX,
    ensures
        spec_decode(spec_encode(oscs, label)) == Some((oscs, label)),
{
    let b = spec_encode(oscs, label);
    let llen = label.len() as u32;
    let cnt = oscs.len() as u32;
    let t1 = label + le32(cnt) + enc_oscs(oscs);
    assert(b[0] == FORMAT_VERSION);
    assert(b.skip(1) =~= le32(llen) + t1);
    lemma_dec_u32_prefix(llen, t1);
    assert(dec_u32(b.skip(1)) == Some((llen, t1)));
    assert(t1.len() >= llen);
    assert(t1.take(llen as int) =~= label);
    let t2 = le32(cnt) + enc_oscs(oscs);
    assert(t1.skip(llen as int) =~= t2);
    lemma_dec_u32_prefix(cnt, enc_oscs(oscs));
    assert(enc_oscs(oscs) + Seq::<u8>::empty() =~= enc_oscs(oscs));
    lemma_dec_oscs_enc(oscs, Seq::<u8>::empty());
    assert(dec_oscs(enc_oscs(oscs), cnt as nat) == Some((oscs, Seq::<u8>::empty())));
}

} // verus!

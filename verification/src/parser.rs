//! The record parser: deserializes raw bytes as an encrypted-key container
//! (the fixed wire schema: tagged fields with base-128 varints, one
//! length-delimited record field per encrypted key; inside a record, field
//! one is the varint KMS configuration id and field two the leased-key
//! bytes) and hands out the last record of the container.

use vstd::prelude::*;
use vstd::slice::{slice_subrange, slice_to_vec};
use crate::schema::{DekView, EncryptedDek, ParseError};

verus! {

/// One wire-format field's payload, as the grammar sees it: a varint value,
/// a fixed-width field (always skipped by this schema), or a
/// length-delimited byte string.
pub enum WireField {
    Uint(u64),
    Skipped,
    Payload(Seq<u8>),
}

/// Reads one base-128 varint from the front of `s`: value and bytes
/// consumed. Low group first; a set high bit continues. At most ten bytes,
/// and the value must fit in sixty-four bits.
pub open spec fn take_varint(s: Seq<u8>) -> Option<(u64, int)>
    decreases s.len(),
{
    if s.len() == 0 {
        None
    } else if s[0] < 128 {
        Some((s[0] as u64, 1))
    } else {
        match take_varint(s.skip(1)) {
            None => None,
            Some((v, n)) => {
                if n >= 10 || v >= 0x0200_0000_0000_0000 {
                    None
                } else {
                    Some((((s[0] - 128) + 128 * v) as u64, n + 1))
                }
            },
        }
    }
}

/// Reads one tagged field from the front of `s`: field number, payload, and
/// bytes consumed. Wire types: zero a varint, one and five fixed-width
/// (skipped), two length-delimited; field number zero and the remaining wire
/// types are malformed.
pub open spec fn take_field(s: Seq<u8>) -> Option<((u64, WireField), int)> {
    match take_varint(s) {
        None => None,
        Some((tag, n)) => {
            let field = tag / 8;
            let wire = tag % 8;
            if field == 0 {
                None
            } else if wire == 0 {
                match take_varint(s.skip(n)) {
                    None => None,
                    Some((v, m)) => Some(((field, WireField::Uint(v)), n + m)),
                }
            } else if wire == 1 {
                if n + 8 <= s.len() {
                    Some(((field, WireField::Skipped), n + 8))
                } else {
                    None
                }
            } else if wire == 5 {
                if n + 4 <= s.len() {
                    Some(((field, WireField::Skipped), n + 4))
                } else {
                    None
                }
            } else if wire == 2 {
                match take_varint(s.skip(n)) {
                    None => None,
                    Some((len, m)) => {
                        if n + m + len <= s.len() {
                            Some(
                                ((field, WireField::Payload(
                                    s.subrange(n + m, n + m + len as int),
                                )), n + m + len as int),
                            )
                        } else {
                            None
                        }
                    },
                }
            } else {
                None
            }
        },
    }
}

/// The record before any of its fields was read: configuration id zero, no
/// lease.
pub open spec fn dek_default() -> DekView {
    DekView { kms_config_id: 0, leased_key_data: Seq::empty() }
}

/// The low thirty-two bits of a varint value, read as a two's-complement
/// signed integer (how the schema stores a signed configuration id).
pub open spec fn u64_to_i32(v: u64) -> i32 {
    let low = v as int % 0x1_0000_0000;
    if low < 0x8000_0000 {
        low as i32
    } else {
        (low - 0x1_0000_0000) as i32
    }
}

/// One field's effect on a record: field one (varint) sets the
/// configuration id, field two (bytes) sets the leased-key data, everything
/// else is skipped. A repeated field keeps its last occurrence.
pub open spec fn apply_record_field(acc: DekView, field: u64, w: WireField) -> DekView {
    match w {
        WireField::Uint(v) => {
            if field == 1 {
                DekView { kms_config_id: u64_to_i32(v), leased_key_data: acc.leased_key_data }
            } else {
                acc
            }
        },
        WireField::Payload(p) => {
            if field == 2 {
                DekView { kms_config_id: acc.kms_config_id, leased_key_data: p }
            } else {
                acc
            }
        },
        WireField::Skipped => acc,
    }
}

/// Folds a record's remaining fields over an accumulated record value.
pub open spec fn record_fields(s: Seq<u8>, acc: DekView) -> Option<DekView>
    decreases s.len(),
{
    if s.len() == 0 {
        Some(acc)
    } else {
        match take_field(s) {
            None => None,
            Some((fw, n)) => {
                if 1 <= n <= s.len() {
                    record_fields(s.skip(n), apply_record_field(acc, fw.0, fw.1))
                } else {
                    None
                }
            },
        }
    }
}

/// Parses one encrypted-key record from its serialized bytes.
pub open spec fn parse_record_spec(s: Seq<u8>) -> Option<DekView> {
    record_fields(s, dek_default())
}

/// Folds a container's remaining fields: each field-one payload must itself
/// parse as a record and is appended in order; everything else is skipped.
pub open spec fn container_fields(s: Seq<u8>, acc: Seq<DekView>) -> Option<Seq<DekView>>
    decreases s.len(),
{
    if s.len() == 0 {
        Some(acc)
    } else {
        match take_field(s) {
            None => None,
            Some((fw, n)) => {
                if 1 <= n <= s.len() {
                    match fw.1 {
                        WireField::Payload(p) => {
                            if fw.0 == 1 {
                                match parse_record_spec(p) {
                                    None => None,
                                    Some(d) => container_fields(s.skip(n), acc.push(d)),
                                }
                            } else {
                                container_fields(s.skip(n), acc)
                            }
                        },
                        _ => container_fields(s.skip(n), acc),
                    }
                } else {
                    None
                }
            },
        }
    }
}

/// Parses a container: the ordered records it carries, or nothing if any
/// part of it is malformed.
pub open spec fn parse_container_spec(s: Seq<u8>) -> Option<Seq<DekView>> {
    container_fields(s, Seq::empty())
}

/// What `edek_from_bytes` returns: the last record of the container, or the
/// error that says why there is none.
pub open spec fn edek_from_bytes_spec(s: Seq<u8>) -> Result<DekView, ParseError> {
    match parse_container_spec(s) {
        None => Err(ParseError::InvalidSchema),
        Some(recs) => {
            if recs.len() == 0 {
                Err(ParseError::NoKeysProvided)
            } else {
                Ok(recs.last())
            }
        },
    }
}

/// One wire-format field as the executable parser hands it out; a payload is
/// a range into the parsed slice.
enum FieldVal {
    Uint(u64),
    Skipped,
    Payload(usize, usize),
}

/// The wire-level value that a `FieldVal` stands for, over the whole slice.
spec fn field_val_wire(s: Seq<u8>, fv: FieldVal) -> WireField {
    match fv {
        FieldVal::Uint(v) => WireField::Uint(v),
        FieldVal::Skipped => WireField::Skipped,
        FieldVal::Payload(lo, hi) => WireField::Payload(s.subrange(lo as int, hi as int)),
    }
}

spec fn payload_in_range(s: Seq<u8>, fv: FieldVal) -> bool {
    match fv {
        FieldVal::Payload(lo, hi) => lo <= hi <= s.len(),
        _ => true,
    }
}

fn take_varint_exec(s: &[u8], i: usize) -> (r: Option<(u64, usize)>)
    requires
        i <= s.len(),
    ensures
        r matches Some(p) ==> i + p.1 <= s.len() && 1 <= p.1 && take_varint(s@.skip(i as int))
            == Some((p.0, p.1 as int)),
        r is None ==> take_varint(s@.skip(i as int)) is None,
    decreases s.len() - i,
{
    if i == s.len() {
        assert(s@.skip(i as int).len() == 0);
        return None;
    }
    let b = s[i];
    assert(s@.skip(i as int)[0] == s@[i as int]);
    if b < 128 {
        Some((b as u64, 1))
    } else {
        let rest = take_varint_exec(s, i + 1);
        proof {
            assert(s@.skip(i as int).skip(1) =~= s@.skip(i as int + 1));
        }
        match rest {
            None => None,
            Some((v, n)) => {
                if n >= 10 || v >= 0x0200_0000_0000_0000u64 {
                    None
                } else {
                    Some(((b - 128) as u64 + 128 * v, n + 1))
                }
            },
        }
    }
}

fn take_field_exec(s: &[u8], i: usize) -> (r: Option<(u64, FieldVal, usize)>)
    requires
        i <= s.len(),
    ensures
        r matches Some(t) ==> i < t.2 <= s.len() && payload_in_range(s@, t.1) && take_field(
            s@.skip(i as int),
        ) == Some(((t.0, field_val_wire(s@, t.1)), (t.2 - i) as int)),
        r is None ==> take_field(s@.skip(i as int)) is None,
{
    let (tag, n) = match take_varint_exec(s, i) {
        None => {
            return None;
        },
        Some(p) => p,
    };
    let field = tag / 8;
    let wire = tag % 8;
    let j = i + n;
    proof {
        assert(s@.skip(i as int).skip(n as int) =~= s@.skip(j as int));
    }
    if field == 0 {
        None
    } else if wire == 0 {
        match take_varint_exec(s, j) {
            None => None,
            Some((v, m)) => Some((field, FieldVal::Uint(v), j + m)),
        }
    } else if wire == 1 {
        if s.len() - j >= 8 {
            Some((field, FieldVal::Skipped, j + 8))
        } else {
            None
        }
    } else if wire == 5 {
        if s.len() - j >= 4 {
            Some((field, FieldVal::Skipped, j + 4))
        } else {
            None
        }
    } else if wire == 2 {
        match take_varint_exec(s, j) {
            None => None,
            Some((len64, m)) => {
                let k = j + m;
                let rem = s.len() - k;
                if len64 <= rem as u64 {
                    let len = len64 as usize;
                    proof {
                        assert(s@.skip(i as int).subrange(
                            (j - i) + m as int,
                            (j - i) + m + len as int,
                        ) =~= s@.subrange(k as int, (k + len) as int));
                    }
                    Some((field, FieldVal::Payload(k, k + len), k + len))
                } else {
                    None
                }
            },
        }
    } else {
        None
    }
}

/// Reads the low thirty-two bits of a varint value as a signed integer.
fn u64_low_bits_to_i32(v: u64) -> (r: i32)
    ensures
        r == u64_to_i32(v),
{
    let low = v % 0x1_0000_0000;
    if low < 0x8000_0000 {
        low as i32
    } else {
        let off = low - 0x8000_0000;
        i32::MIN + (off as i32)
    }
}

/// Parses one serialized encrypted-key record.
fn parse_record(s: &[u8]) -> (r: Option<EncryptedDek>)
    ensures
        r matches Some(d) ==> parse_record_spec(s@) == Some(d@),
        r is None ==> parse_record_spec(s@) is None,
{
    let mut kms: i32 = 0;
    let mut lease: Vec<u8> = Vec::new();
    let mut i: usize = 0;
    proof {
        assert(s@.skip(0) =~= s@);
    }
    while i < s.len()
        invariant
            i <= s.len(),
            record_fields(
                s@.skip(i as int),
                DekView { kms_config_id: kms, leased_key_data: lease@ },
            ) == parse_record_spec(s@),
        decreases s.len() - i,
    {
        let ghost acc = DekView { kms_config_id: kms, leased_key_data: lease@ };
        match take_field_exec(s, i) {
            None => {
                return None;
            },
            Some((f, fv, next)) => {
                proof {
                    assert(s@.skip(i as int).skip((next - i) as int) =~= s@.skip(next as int));
                }
                match fv {
                    FieldVal::Uint(v) => {
                        if f == 1 {
                            kms = u64_low_bits_to_i32(v);
                        }
                    },
                    FieldVal::Payload(lo, hi) => {
                        if f == 2 {
                            lease = slice_to_vec(slice_subrange(s, lo, hi));
                        }
                    },
                    FieldVal::Skipped => {},
                }
                proof {
                    let w = field_val_wire(s@, fv);
                    assert(DekView { kms_config_id: kms, leased_key_data: lease@ }
                        == apply_record_field(acc, f, w));
                }
                i = next;
            },
        }
    }
    proof {
        assert(s@.skip(i as int).len() == 0);
    }
    Some(EncryptedDek { kms_config_id: kms, leased_key_data: lease })
}

/// Parses bytes as an encrypted-key container and removes its last record:
/// the single expected key in practice, and the forward-compatible choice if
/// a container ever carries more. A malformed container reports
/// `InvalidSchema`; a well-formed container without a record reports
/// `NoKeysProvided`.
pub fn edek_from_bytes(encrypted_document_key: &[u8]) -> (r: Result<EncryptedDek, ParseError>)
    ensures
        r matches Ok(d) ==> edek_from_bytes_spec(encrypted_document_key@) == Ok::<
            DekView,
            ParseError,
        >(d@),
        r matches Err(e) ==> edek_from_bytes_spec(encrypted_document_key@) == Err::<
            DekView,
            ParseError,
        >(e),
{
    let s = encrypted_document_key;
    let mut last: Option<EncryptedDek> = None;
    let ghost mut recs: Seq<DekView> = Seq::empty();
    let mut i: usize = 0;
    proof {
        assert(s@.skip(0) =~= s@);
    }
    while i < s.len()
        invariant
            i <= s.len(),
            s@ == encrypted_document_key@,
            container_fields(s@.skip(i as int), recs) == parse_container_spec(s@),
            recs.len() == 0 <==> last is None,
            last matches Some(d) ==> recs.len() > 0 && d@ == recs.last(),
        decreases s.len() - i,
    {
        match take_field_exec(s, i) {
            None => {
                proof {
                    assert(s@.skip(i as int).len() > 0);
                    assert(container_fields(s@.skip(i as int), recs) is None);
                }
                return Err(ParseError::InvalidSchema);
            },
            Some((f, fv, next)) => {
                proof {
                    assert(s@.skip(i as int).skip((next - i) as int) =~= s@.skip(next as int));
                }
                match fv {
                    FieldVal::Payload(lo, hi) => {
                        if f == 1 {
                            let sub = slice_subrange(s, lo, hi);
                            match parse_record(sub) {
                                None => {
                                    proof {
                                        assert(s@.skip(i as int).len() > 0);
                                        assert(parse_record_spec(
                                            s@.subrange(lo as int, hi as int),
                                        ) is None);
                                        assert(container_fields(s@.skip(i as int), recs) is None);
                                    }
                                    return Err(ParseError::InvalidSchema);
                                },
                                Some(d) => {
                                    proof {
                                        recs = recs.push(d@);
                                    }
                                    last = Some(d);
                                },
                            }
                        }
                    },
                    _ => {},
                }
                i = next;
            },
        }
    }
    proof {
        assert(s@.skip(i as int).len() == 0);
    }
    match last {
        None => Err(ParseError::NoKeysProvided),
        Some(d) => Ok(d),
    }
}

} // verus!

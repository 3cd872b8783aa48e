use musli_wire::de::{decode_pack, decode_sequence_header, decode_u32, skip_value};
use musli_wire::en::{encode_pack, encode_sequence_header, encode_u32, IntMode, LenMode};
use musli_wire::error::Error;
use musli_wire::tag::{Kind, Tag, MAX_INLINE_LEN};

#[derive(Debug, PartialEq)]
struct Record {
    prefix: Option<u32>,
    field: Field,
    suffix: Option<u32>,
}

#[derive(Debug, PartialEq)]
struct Subset {
    prefix: Option<u32>,
    suffix: Option<u32>,
}

#[derive(Debug, PartialEq)]
struct Field {
    value: Vec<u8>,
}

fn encode_option_u32(out: &mut Vec<u8>, v: &Option<u32>) {
    match v {
        Some(x) => {
            encode_sequence_header(out, LenMode::Variable, 1);
            encode_u32(out, IntMode::Variable, *x);
        }
        None => {
            encode_sequence_header(out, LenMode::Variable, 0);
        }
    }
}

fn decode_option_u32(data: &[u8], pos: &mut usize) -> Result<Option<u32>, Error> {
    let n = decode_sequence_header(data, pos, LenMode::Variable)?;
    if n == 0 {
        Ok(None)
    } else {
        Ok(Some(decode_u32(data, pos, IntMode::Variable)?))
    }
}

fn encode_record(v: &Record) -> Vec<u8> {
    let mut out = Vec::new();
    encode_sequence_header(&mut out, LenMode::Variable, 6);
    encode_u32(&mut out, IntMode::Variable, 0);
    encode_option_u32(&mut out, &v.prefix);
    encode_u32(&mut out, IntMode::Variable, 1);
    encode_pack(&mut out, &v.field.value);
    encode_u32(&mut out, IntMode::Variable, 2);
    encode_option_u32(&mut out, &v.suffix);
    out
}

fn decode_record(data: &[u8], size: usize) -> Result<Record, Error> {
    let mut pos = 0usize;
    let n = decode_sequence_header(data, &mut pos, LenMode::Variable)?;
    assert_eq!(n, 6);
    let mut prefix = None;
    let mut field = None;
    let mut suffix = None;
    for _ in 0..3 {
        let key = decode_u32(data, &mut pos, IntMode::Variable)?;
        match key {
            0 => prefix = decode_option_u32(data, &mut pos)?,
            1 => {
                let payload = decode_pack(data, &mut pos)?;
                field = Some(Field {
                    value: payload[..size].to_vec(),
                });
            }
            2 => suffix = decode_option_u32(data, &mut pos)?,
            other => panic!("unexpected field key {other}"),
        }
    }
    Ok(Record {
        prefix,
        field: field.expect("missing packed field"),
        suffix,
    })
}

fn decode_subset(data: &[u8]) -> Result<Subset, Error> {
    let mut pos = 0usize;
    let n = decode_sequence_header(data, &mut pos, LenMode::Variable)?;
    let mut prefix = None;
    let mut suffix = None;
    for _ in 0..n / 2 {
        let key = decode_u32(data, &mut pos, IntMode::Variable)?;
        match key {
            0 => prefix = decode_option_u32(data, &mut pos)?,
            2 => suffix = decode_option_u32(data, &mut pos)?,
            _ => skip_value(data, &mut pos, LenMode::Variable)?,
        }
    }
    Ok(Subset { prefix, suffix })
}

fn pack_case(size: usize, len: u8) {
    let value = Record {
        prefix: Some(10),
        field: Field {
            value: vec![1; size],
        },
        suffix: Some(20),
    };

    let bytes = encode_record(&value);
    let actual: Record = decode_record(&bytes, size).unwrap();
    let to: Subset = decode_subset(&bytes).unwrap();

    assert_eq!(value, actual);
    assert_eq!(
        to,
        Subset {
            prefix: Some(10),
            suffix: Some(20)
        }
    );

    assert_eq!(Tag::from_byte(bytes[5]), Tag::new(Kind::Prefix, len));
    assert_eq!(bytes.len(), size + 9);
}

#[test]
fn pack_max() {
    pack_case(0, 0);
    pack_case(23, 23);
    pack_case(MAX_INLINE_LEN, 62);
}

fn pow2_case(size: usize, pow: u8, pad: usize) {
    let value = Record {
        prefix: Some(10),
        field: Field {
            value: vec![1; size],
        },
        suffix: Some(20),
    };

    let bytes = encode_record(&value);
    let actual: Record = decode_record(&bytes, size).unwrap();
    let to: Subset = decode_subset(&bytes).unwrap();

    assert_eq!(actual, value);
    assert_eq!(
        to,
        Subset {
            prefix: Some(10),
            suffix: Some(20)
        }
    );

    assert_eq!(Tag::from_byte(bytes[5]), Tag::new(Kind::Pack, pow));
    assert_eq!(bytes.len(), size + pad);
    let start = size + 6;
    assert!(bytes[start..start + 18].iter().all(|b| *b == 0));
}

#[test]
fn pow2() {
    pow2_case(110, 7, 27);
    pow2_case(200, 8, 65);
}

#[test]
fn subset_ignores_unknown_fields_behind_large_blobs() {
    let value = Record {
        prefix: None,
        field: Field {
            value: vec![7; 100],
        },
        suffix: Some(9),
    };
    let bytes = encode_record(&value);
    let to = decode_subset(&bytes).unwrap();
    assert_eq!(
        to,
        Subset {
            prefix: None,
            suffix: Some(9)
        }
    );
}

#[test]
fn truncated_record_fails_with_buffer_exhausted() {
    let value = Record {
        prefix: Some(10),
        field: Field {
            value: vec![1; 23],
        },
        suffix: Some(20),
    };
    let bytes = encode_record(&value);
    for cut in [1, 7, 12, bytes.len() - 1] {
        let err = decode_record(&bytes[..cut], 23).unwrap_err();
        assert_eq!(err, Error::BufferExhausted);
    }
}

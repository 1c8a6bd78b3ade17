use genesis::rlp::decoder::Decoder;
use genesis::rlp::encoder::Encoder;
use genesis::rlp::types::{RLPError, RLP};
use genesis::rlp::RLPSerialize;

#[test]
fn test_item_string() {
    // "dog"
    let rlp = Decoder::decode(&vec![0x83u8, 'd' as u8, 'o' as u8, 'g' as u8]).unwrap();
    let target: RLP = RLP::from_string("dog".to_string());
    assert_eq!(rlp, target);
}

#[test]
fn test_item_u8() {
    // 0
    let rlp = Decoder::decode(&vec![0x00u8]).unwrap();
    let target: RLP = RLP::from_u8(0u8);
    assert_eq!(rlp, target);

    // 15
    let rlp = Decoder::decode(&vec![0x0fu8]).unwrap();
    let target: RLP = RLP::from_u8(15u8);
    assert_eq!(rlp, target);
}

#[test]
fn test_item_u16() {
    let rlp = Decoder::decode(&vec![0x82u8, 0x04u8, 0x00u8]).unwrap();
    let target: RLP = RLP::from_u16(1024u16);
    assert_eq!(rlp, target);
}

#[test]
fn test_item_u32() {
    let rlp = Decoder::decode(&vec![132u8, 0u8, 0u8, 0u8, 100u8]).unwrap();
    let target: RLP = RLP::from_u32(100u32);
    assert_eq!(rlp, target);
}

#[test]
fn test_list_empty() {
    let rlp = Decoder::decode(&vec![0xc0]).unwrap();
    let target: RLP = RLP::RLPList(vec![]);
    assert_eq!(rlp, target);
}

#[test]
fn test_list_nested() {
    let rlp = Decoder::decode(&vec![0xc7, 0xc0, 0xc1, 0xc0, 0xc3, 0xc0, 0xc1, 0xc0]).unwrap();
    let target: RLP = RLP::RLPList(vec![
        RLP::RLPList(vec![]),
        RLP::RLPList(vec![RLP::RLPList(vec![])]),
        RLP::RLPList(vec![RLP::RLPList(vec![]), RLP::RLPList(vec![RLP::RLPList(vec![])])]),
    ]);
    assert_eq!(rlp, target);
}

#[test]
fn test_item_endian() {
    let rlp: RLP = RLP::from_u32(0x12345678u32);
    let num: u32 = rlp.into_u32();
    assert_eq!(num, 0x12345678u32);
}

#[derive(Debug, Eq, PartialEq)]
struct Student {
    name: String,
    age: u32,
    graduated: bool,
}

impl RLPSerialize for Student {
    fn serialize(&self) -> Result<RLP, RLPError> {
        Ok(RLP::RLPList(vec![
            RLP::from_str("Student"),
            RLP::from_string(self.name.to_owned()),
            RLP::from_u32(self.age),
            RLP::from_bool(self.graduated),
        ]))
    }

    fn deserialize(rlp: &RLP) -> Result<Self, RLPError> {
        if rlp.len() != 4 {
            Err(RLPError::RLPErrorWrongNumParams)
        } else {
            let m_type: String = rlp.at(0).clone().into_string();
            if m_type != "Student".to_string() {
                Err(RLPError::RLPErrorType)
            } else {
                Ok(Student {
                    name: rlp.at(1).clone().into_string(),
                    age: rlp.at(2).clone().into_u32(),
                    graduated: rlp.at(3).clone().into_bool(),
                })
            }
        }
    }
}

#[test]
fn test_ser_de() {
    let test_student: Student = Student { name: "Edward".into(), age: 27, graduated: false };
    let rlp = test_student.serialize().unwrap();
    let de_student = Student::deserialize(&rlp).unwrap();
    assert_eq!(de_student, test_student);
}

fn nested_example() -> RLP {
    RLP::RLPList(vec![
        RLP::RLPList(vec![]),
        RLP::RLPList(vec![RLP::RLPList(vec![])]),
        RLP::RLPList(vec![RLP::RLPList(vec![]), RLP::RLPList(vec![RLP::RLPList(vec![])])]),
    ])
}

#[test]
fn encode_nested_list_as_documented() {
    let mut encoder = Encoder::new();
    let result = encoder.encode(&nested_example());
    assert_eq!(result, vec![0xc7, 0xc0, 0xc1, 0xc0, 0xc3, 0xc0, 0xc1, 0xc0]);
    let decoded = Decoder::decode(&result).unwrap();
    assert_eq!(decoded, nested_example());
}

#[test]
fn encode_items_of_each_form() {
    let mut encoder = Encoder::new_with_size(64);
    // a single byte below 0x80 is its own encoding
    assert_eq!(encoder.encode(&RLP::from_u8(0x0f)), vec![0x0f]);
    // a single byte from 0x80 gets a prefix
    assert_eq!(encoder.encode(&RLP::from_u8(0x80)), vec![0x81, 0x80]);
    // the empty string
    assert_eq!(encoder.encode(&RLP::RLPItem(vec![])), vec![0x80]);
    // "dog"
    assert_eq!(encoder.encode(&RLP::from_str("dog")), vec![0x83, b'd', b'o', b'g']);
    // a list of two strings
    let cat_dog = RLP::RLPList(vec![RLP::from_str("cat"), RLP::from_str("dog")]);
    assert_eq!(
        encoder.encode(&cat_dog),
        vec![0xc8, 0x83, b'c', b'a', b't', 0x83, b'd', b'o', b'g']
    );
}

#[test]
fn encode_long_string_and_list() {
    let mut encoder = Encoder::new_with_size(0);
    let long: Vec<u8> = (0..1024u32).map(|i| (i % 251) as u8).collect();
    let encoded = encoder.encode(&RLP::RLPItem(long.clone()));
    assert_eq!(&encoded[0..3], &[0xb9, 0x04, 0x00]);
    assert_eq!(&encoded[3..], &long[..]);
    assert_eq!(Decoder::decode(&encoded).unwrap(), RLP::RLPItem(long.clone()));

    let list = RLP::RLPList(vec![RLP::RLPItem(long.clone()), RLP::from_u64(7)]);
    let encoded = encoder.encode(&list);
    // payload: 3 + 1024 + 9 = 1036 = 0x040c
    assert_eq!(&encoded[0..3], &[0xf9, 0x04, 0x0c]);
    assert_eq!(encoded.len(), 3 + 1036);
    assert_eq!(Decoder::decode(&encoded).unwrap(), list);
}

#[test]
fn decode_rejects_malformed_input() {
    assert_eq!(Decoder::decode(&vec![]), None);
    // declared length longer than the input
    assert_eq!(Decoder::decode(&vec![0x83, b'd', b'o']), None);
    // trailing bytes after one element
    assert_eq!(Decoder::decode(&vec![0x01, 0x02]), None);
    // a list whose child runs past the list
    assert_eq!(Decoder::decode(&vec![0xc2, 0x83, b'a']), None);
    // long form whose length bytes are missing
    assert_eq!(Decoder::decode(&vec![0xb9, 0x04]), None);
}

#[test]
fn conversions_round_trip() {
    assert_eq!(RLP::from_u16(0xbeef).into_u16(), 0xbeef);
    assert_eq!(RLP::from_u64(0x0102_0304_0506_0708).into_u64(), 0x0102_0304_0506_0708);
    assert_eq!(RLP::from_i32(-5).into_i32(), -5);
    assert_eq!(RLP::from_i64(-1_000_000_007).into_i64(), -1_000_000_007);
    assert_eq!(RLP::from_bool(true).into_bool(), true);
    assert_eq!(RLP::from_u8(200).into_u8(), 200);
    assert_eq!(RLP::from_u32(100), RLP::RLPItem(vec![0, 0, 0, 100]));
    assert_eq!(RLP::from_i32(-1), RLP::RLPItem(vec![0xff, 0xff, 0xff, 0xff]));
}

#[test]
fn list_operations() {
    let list = RLP::RLPList(vec![]).shl(RLP::from_u8(1)).shl(RLP::from_str("a"));
    assert_eq!(list.len(), 2);
    assert_eq!(list.at(1), &RLP::from_str("a"));
    assert_eq!(RLP::from_u8(1).len(), 1);
    assert_eq!(RLP::RLPEmpty.len(), 0);
    assert_eq!(list.clone(), list);
}

#[test]
fn string_serialization() {
    let s = "héllo".to_string();
    let rlp = s.serialize().unwrap();
    assert_eq!(rlp, RLP::RLPItem("héllo".as_bytes().to_vec()));
    assert_eq!(String::deserialize(&rlp).unwrap(), s);
    assert!(matches!(String::deserialize(&RLP::RLPList(vec![])), Err(RLPError::RLPErrorType)));
    assert!(matches!(
        String::deserialize(&RLP::RLPItem(vec![0xff, 0xfe])),
        Err(RLPError::RLPErrorUTF8)
    ));
}

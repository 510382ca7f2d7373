use std::collections::{HashMap, HashSet};

use binserde::containers::{read_map, write_map};
use binserde::de::{read_variant, Input, Parsed};
use binserde::dedup::Pool;
use binserde::error::Fault;
use binserde::ser::{write_variant, Encoded};
use binserde::{
    deserialize, deserialize_with, serialize, serialize_with, BinDeserialize, BinDeserializerBase,
    BinSerialize, BinSerializer, Error, Mode,
};

#[derive(Debug, PartialEq, Eq)]
struct Test {
    vec: Vec<Test1>,
    map_set: HashMap<String, HashSet<String>>,
    test2: Vec<Test2>,
}

#[derive(Debug, PartialEq, Eq)]
struct Test1(String, i32);

#[derive(Debug, PartialEq, Eq)]
enum Test2 {
    A,
    B(i32, i32, i32),
    C { thing: i64 },
}

impl vstd::view::DeepView for Test {
    type V = ();

    fn deep_view(&self) {}
}

impl vstd::view::DeepView for Test1 {
    type V = ();

    fn deep_view(&self) {}
}

impl vstd::view::DeepView for Test2 {
    type V = ();

    fn deep_view(&self) {}
}

impl BinSerialize for Test1 {
    fn encoded(_: (), _: Mode, _: Pool) -> Encoded {
        unreachable!()
    }

    fn fault(_: (), _: Mode, _: Pool) -> Option<Fault> {
        unreachable!()
    }

    fn lemma_pool(&self, _: Mode, _: Pool) {}

    fn serialize<S: BinSerializer>(&self, s: &mut S) -> Result<(), Error> {
        self.0.serialize(s)?;
        self.1.serialize(s)
    }
}

impl BinDeserialize for Test1 {
    fn parse(_: Input) -> Parsed<()> {
        unreachable!()
    }

    fn deserialize(d: &mut BinDeserializerBase<'_, '_>) -> Result<Self, Error> {
        let text = String::deserialize(d)?;
        let number = i32::deserialize(d)?;
        Ok(Test1(text, number))
    }
}

impl BinSerialize for Test2 {
    fn encoded(_: (), _: Mode, _: Pool) -> Encoded {
        unreachable!()
    }

    fn fault(_: (), _: Mode, _: Pool) -> Option<Fault> {
        unreachable!()
    }

    fn lemma_pool(&self, _: Mode, _: Pool) {}

    fn serialize<S: BinSerializer>(&self, s: &mut S) -> Result<(), Error> {
        match self {
            Test2::A => {
                write_variant(s, 0);
                Ok(())
            }
            Test2::B(x, y, z) => {
                write_variant(s, 1);
                x.serialize(s)?;
                y.serialize(s)?;
                z.serialize(s)
            }
            Test2::C { thing } => {
                write_variant(s, 2);
                thing.serialize(s)
            }
        }
    }
}

impl BinDeserialize for Test2 {
    fn parse(_: Input) -> Parsed<()> {
        unreachable!()
    }

    fn deserialize(d: &mut BinDeserializerBase<'_, '_>) -> Result<Self, Error> {
        match read_variant(d, 3)? {
            0 => Ok(Test2::A),
            1 => {
                let x = i32::deserialize(d)?;
                let y = i32::deserialize(d)?;
                let z = i32::deserialize(d)?;
                Ok(Test2::B(x, y, z))
            }
            _ => Ok(Test2::C {
                thing: i64::deserialize(d)?,
            }),
        }
    }
}

impl BinSerialize for Test {
    fn encoded(_: (), _: Mode, _: Pool) -> Encoded {
        unreachable!()
    }

    fn fault(_: (), _: Mode, _: Pool) -> Option<Fault> {
        unreachable!()
    }

    fn lemma_pool(&self, _: Mode, _: Pool) {}

    fn serialize<S: BinSerializer>(&self, s: &mut S) -> Result<(), Error> {
        self.vec.serialize(s)?;
        let entries: Vec<(&String, Vec<&String>)> = self
            .map_set
            .iter()
            .map(|(key, set)| (key, set.iter().collect()))
            .collect();
        write_map(s, &entries)?;
        self.test2.serialize(s)
    }
}

impl BinDeserialize for Test {
    fn parse(_: Input) -> Parsed<()> {
        unreachable!()
    }

    fn deserialize(d: &mut BinDeserializerBase<'_, '_>) -> Result<Self, Error> {
        let vec = Vec::<Test1>::deserialize(d)?;
        let entries: Vec<(String, Vec<String>)> = read_map(d)?;
        let map_set: HashMap<String, HashSet<String>> = entries
            .into_iter()
            .map(|(key, set)| (key, set.into_iter().collect()))
            .collect();
        let test2 = Vec::<Test2>::deserialize(d)?;
        Ok(Test {
            vec,
            map_set,
            test2,
        })
    }
}

#[test]
fn serialize_inline_test() {
    let s = Test {
        vec: vec![
            Test1("yyyyyyyyyyyyyyyyyy".to_string(), 4),
            Test1("a".to_string(), 4),
            Test1("yyyyyyyyyyyyyyyyyy".to_string(), 4),
            Test1("ab".to_string(), 4),
            Test1("abc".to_string(), 4),
            Test1("abcd".to_string(), 4),
        ],
        map_set: vec![("a", vec!["a", "b", "c"]), ("a1", vec!["a1", "b1", "c1"])]
            .into_iter()
            .map(|el| {
                (
                    el.0.to_string(),
                    el.1.into_iter().map(|el| el.to_string()).collect(),
                )
            })
            .collect(),
        test2: vec![
            Test2::A,
            Test2::B(1, 1992323, 5),
            Test2::C {
                thing: 23456788765432,
            },
        ],
    };

    {
        let mode = Mode::dedup();

        let buf = serialize_with(&s, mode).expect("failed to serialize");
        println!("{:02X?}", buf);

        let s1: Test = deserialize_with(&buf, mode).expect("failed to deserialize");

        assert_eq!(s, s1);
    }

    {
        let buf = serialize(&s).expect("failed to serialize");
        println!("{:02X?}", buf);

        let s1: Test = deserialize(&buf).expect("failed to deserialize");

        assert_eq!(s, s1);
    }
}

#[test]
fn serialize_constant_output() {
    assert_eq!(&[3, 97, 98, 99], &*serialize(&"abc").unwrap());

    assert_eq!(&[0xFF], &*serialize(&true).unwrap());
    assert_eq!(&[0x00], &*serialize(&false).unwrap());

    assert_eq!(
        &[0x03, 0x02, 0x05, 0x45],
        &*serialize_with(
            &[1i16, -3i16, -35i16] as &[i16],
            Mode::default().with_fixed_size_use_varint(true)
        )
        .unwrap()
    );
}
